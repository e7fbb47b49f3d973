//! What holds of resolution: a resolved document holds no reference that a
//! route can reach; a document whose references all name components that
//! exist, and whose components do not lead back to themselves, resolves,
//! however deep it nests; a second pass changes nothing but that it copies
//! the shared parameters again; and references that lead back to themselves
//! are refused.

use vstd::prelude::*;
use crate::deref_error::DerefErrorView;
use crate::resolution::{
    components_of, follow, header_resolver, lemma_follow_progress, lemma_resolve_children,
    lemma_traverse_concat, lemma_unvisited_shrinks, locate, media_resolver, operation_resolver,
    parameter_resolver, resolve_body, resolve_document, resolve_format, resolve_media, resolve_node,
    resolve_operation, resolve_optional_body, resolve_parameter, resolve_path_item,
    resolve_response, resolve_route, resolve_schema, resolve_slot, response_resolver,
    route_resolver, slot_resolver, traverse, unvisited,
};
use crate::document::{
    ComponentsView, DocumentView, FormatView, MediaTypeView, NamedHeaderView, OperationView,
    ParameterView, PathItemView, RequestBodyView, ResponseView, RouteView, StatusResponseView,
};
use crate::reference::{reference_name, RefOrView};
use crate::schema::SchemaView;

verus! {

/// No reference stands anywhere below this schema.
pub open spec fn tree_resolved(node: SchemaView) -> bool
    decreases node,
{
    forall|i: int|
        0 <= i < node.children.len() ==> (#[trigger] node.children[i]) is Item && tree_resolved(
            node.children[i]->Item_0,
        )
}

/// The slot holds a schema, and no reference stands below it.
pub open spec fn slot_resolved(slot: RefOrView<SchemaView>) -> bool {
    slot is Item && tree_resolved(slot->Item_0)
}

pub open spec fn format_resolved(format: FormatView) -> bool {
    match format {
        FormatView::Content => true,
        FormatView::Schema(slot) => slot_resolved(slot),
    }
}

pub open spec fn parameter_resolved(slot: RefOrView<ParameterView>) -> bool {
    slot is Item && format_resolved(slot->Item_0.format)
}

pub open spec fn media_resolved(media: MediaTypeView) -> bool {
    media.schema is Some ==> slot_resolved(media.schema->Some_0)
}

pub open spec fn body_resolved(slot: RefOrView<RequestBodyView>) -> bool {
    slot is Item && forall|i: int|
        0 <= i < slot->Item_0.content.len() ==> media_resolved(#[trigger] slot->Item_0.content[i])
}

pub open spec fn header_resolved(header: NamedHeaderView) -> bool {
    header.header is Item
}

pub open spec fn response_resolved(response: StatusResponseView) -> bool {
    &&& response.response is Item
    &&& forall|i: int|
        0 <= i < response.response->Item_0.headers.len() ==> header_resolved(
            #[trigger] response.response->Item_0.headers[i],
        )
    &&& forall|i: int|
        0 <= i < response.response->Item_0.content.len() ==> media_resolved(
            #[trigger] response.response->Item_0.content[i],
        )
}

pub open spec fn operation_resolved(operation: OperationView) -> bool {
    &&& forall|i: int|
        0 <= i < operation.parameters.len() ==> parameter_resolved(
            #[trigger] operation.parameters[i],
        )
    &&& operation.request_body is Some ==> body_resolved(operation.request_body->Some_0)
    &&& forall|i: int|
        0 <= i < operation.responses.len() ==> response_resolved(#[trigger] operation.responses[i])
}

pub open spec fn path_item_resolved(item: PathItemView) -> bool {
    &&& forall|i: int|
        0 <= i < item.parameters.len() ==> parameter_resolved(#[trigger] item.parameters[i])
    &&& forall|i: int|
        0 <= i < item.operations.len() && (#[trigger] item.operations[i]) is Some
            ==> operation_resolved(item.operations[i]->Some_0)
}

/// No reference can be reached from any route of the document.
pub open spec fn document_resolved(document: DocumentView) -> bool {
    forall|i: int|
        0 <= i < document.paths.len() ==> path_item_resolved((#[trigger] document.paths[i]).item)
}

/// Where a traversal succeeds, it gave one value for each item, and each is
/// what `f` gives for its item.
pub proof fn lemma_traverse_ok<A, B>(items: Seq<A>, f: spec_fn(A) -> Result<B, DerefErrorView>)
    requires
        traverse(items, f) is Ok,
    ensures
        traverse(items, f)->Ok_0.len() == items.len(),
        forall|i: int|
            0 <= i < items.len() ==> f(#[trigger] items[i]) == Ok::<B, DerefErrorView>(
                traverse(items, f)->Ok_0[i],
            ),
    decreases items.len(),
{
    if items.len() > 0 {
        lemma_traverse_ok(items.drop_last(), f);
        assert(forall|i: int| 0 <= i < items.len() - 1 ==> items[i] == items.drop_last()[i]);
    }
}

/// Where `f` gives a value for each item, the traversal gives those values.
pub proof fn lemma_traverse_all_ok<A, B>(
    items: Seq<A>,
    f: spec_fn(A) -> Result<B, DerefErrorView>,
    values: Seq<B>,
)
    requires
        values.len() == items.len(),
        forall|i: int|
            0 <= i < items.len() ==> f(#[trigger] items[i]) == Ok::<B, DerefErrorView>(values[i]),
    ensures
        traverse(items, f) == Ok::<Seq<B>, DerefErrorView>(values),
    decreases items.len(),
{
    if items.len() > 0 {
        assert(forall|i: int| 0 <= i < items.len() - 1 ==> items[i] == items.drop_last()[i]);
        lemma_traverse_all_ok(items.drop_last(), f, values.drop_last());
        assert(values.drop_last().push(values.last()) =~= values);
    } else {
        assert(values =~= Seq::empty());
    }
}

proof fn lemma_slot_resolved(
    slot: RefOrView<SchemaView>,
    schemas: Map<Seq<char>, RefOrView<SchemaView>>,
    chain: Seq<Seq<char>>,
)
    requires
        schemas.dom().finite(),
        resolve_slot(slot, schemas, chain) is Ok,
    ensures
        slot_resolved(resolve_slot(slot, schemas, chain)->Ok_0),
    decreases unvisited(schemas, chain).len(), slot,
{
    match slot {
        RefOrView::Item(node) => {
            lemma_node_resolved(node, schemas, chain);
        },
        RefOrView::Reference(reference) => {
            lemma_follow_progress(schemas, reference_name(reference), chain);
            let found = follow(schemas, reference_name(reference), chain)->Ok_0;
            lemma_node_resolved(found.0, schemas, found.1);
        },
    }
}

proof fn lemma_node_resolved(
    node: SchemaView,
    schemas: Map<Seq<char>, RefOrView<SchemaView>>,
    chain: Seq<Seq<char>>,
)
    requires
        schemas.dom().finite(),
        resolve_node(node, schemas, chain) is Ok,
    ensures
        slot_resolved(resolve_node(node, schemas, chain)->Ok_0),
    decreases unvisited(schemas, chain).len(), node,
{
    let f = slot_resolver(schemas, chain);
    lemma_resolve_children(node.children, schemas, chain);
    lemma_traverse_ok(node.children, f);
    let children = traverse(node.children, f)->Ok_0;
    assert forall|i: int| 0 <= i < children.len() implies (#[trigger] children[i]) is Item
        && tree_resolved(children[i]->Item_0) by {
        assert(f(node.children[i]) == Ok::<_, DerefErrorView>(children[i]));
        lemma_slot_resolved(node.children[i], schemas, chain);
    }
}

proof fn lemma_slot_fixed(
    slot: RefOrView<SchemaView>,
    schemas: Map<Seq<char>, RefOrView<SchemaView>>,
    chain: Seq<Seq<char>>,
    other_schemas: Map<Seq<char>, RefOrView<SchemaView>>,
    other_chain: Seq<Seq<char>>,
)
    requires
        schemas.dom().finite(),
        other_schemas.dom().finite(),
        resolve_slot(slot, schemas, chain) is Ok,
    ensures
        resolve_slot(resolve_slot(slot, schemas, chain)->Ok_0, other_schemas, other_chain)
            == resolve_slot(slot, schemas, chain),
    decreases unvisited(schemas, chain).len(), slot,
{
    match slot {
        RefOrView::Item(node) => {
            lemma_node_fixed(node, schemas, chain, other_schemas, other_chain);
        },
        RefOrView::Reference(reference) => {
            lemma_follow_progress(schemas, reference_name(reference), chain);
            let found = follow(schemas, reference_name(reference), chain)->Ok_0;
            lemma_node_fixed(found.0, schemas, found.1, other_schemas, other_chain);
        },
    }
}

proof fn lemma_node_fixed(
    node: SchemaView,
    schemas: Map<Seq<char>, RefOrView<SchemaView>>,
    chain: Seq<Seq<char>>,
    other_schemas: Map<Seq<char>, RefOrView<SchemaView>>,
    other_chain: Seq<Seq<char>>,
)
    requires
        schemas.dom().finite(),
        other_schemas.dom().finite(),
        resolve_node(node, schemas, chain) is Ok,
    ensures
        resolve_slot(resolve_node(node, schemas, chain)->Ok_0, other_schemas, other_chain)
            == resolve_node(node, schemas, chain),
    decreases unvisited(schemas, chain).len(), node,
{
    let f = slot_resolver(schemas, chain);
    let g = slot_resolver(other_schemas, other_chain);
    lemma_resolve_children(node.children, schemas, chain);
    lemma_traverse_ok(node.children, f);
    let children = traverse(node.children, f)->Ok_0;
    assert forall|i: int| 0 <= i < children.len() implies g(#[trigger] children[i]) == Ok::<
        _,
        DerefErrorView,
    >(children[i]) by {
        assert(f(node.children[i]) == Ok::<_, DerefErrorView>(children[i]));
        lemma_slot_fixed(node.children[i], schemas, chain, other_schemas, other_chain);
    }
    lemma_traverse_all_ok(children, g, children);
    lemma_resolve_children(children, other_schemas, other_chain);
}

/// Every reference in the table leads to a name of the table that `rank`
/// puts lower: the references of the table can all be followed, and none
/// leads back.
pub open spec fn well_founded<V>(
    table: Map<Seq<char>, RefOrView<V>>,
    rank: spec_fn(Seq<char>) -> nat,
) -> bool {
    forall|name: Seq<char>| #[trigger]
        table.contains_key(name) && table[name] is Reference ==> table.contains_key(
            reference_name(table[name]->Reference_0),
        ) && rank(reference_name(table[name]->Reference_0)) < rank(name)
}

/// Where the references of a table can all be followed and none leads back,
/// following a name of the table reaches an item, whatever the chain holds
/// of names that rank higher.
pub proof fn lemma_follow_complete<V>(
    table: Map<Seq<char>, RefOrView<V>>,
    rank: spec_fn(Seq<char>) -> nat,
    name: Seq<char>,
    chain: Seq<Seq<char>>,
)
    requires
        table.dom().finite(),
        well_founded(table, rank),
        table.contains_key(name),
        forall|i: int| 0 <= i < chain.len() ==> rank(#[trigger] chain[i]) > rank(name),
    ensures
        follow(table, name, chain) is Ok,
    decreases rank(name),
{
    assert(!chain.contains(name)) by {
        if chain.contains(name) {
            let i = choose|i: int| 0 <= i < chain.len() && chain[i] == name;
            assert(rank(chain[i]) > rank(name));
        }
    }
    match table[name] {
        RefOrView::Item(_) => {},
        RefOrView::Reference(reference) => {
            let next = reference_name(reference);
            let longer = chain.push(name);
            assert forall|i: int| 0 <= i < longer.len() implies rank(#[trigger] longer[i]) > rank(
                next,
            ) by {
                if i < chain.len() {
                    assert(longer[i] == chain[i]);
                }
            }
            lemma_follow_complete(table, rank, next, longer);
        },
    }
}

/// Following a name fails only for a name that the table lacks or for a name
/// that is met a second time.
pub proof fn lemma_follow_failure<V>(
    table: Map<Seq<char>, RefOrView<V>>,
    name: Seq<char>,
    chain: Seq<Seq<char>>,
)
    requires
        table.dom().finite(),
        follow(table, name, chain) is Err,
    ensures
        match follow(table, name, chain)->Err_0 {
            DerefErrorView::ReferenceError { name: missing } => !table.contains_key(missing),
            DerefErrorView::CyclicReference { name: met } => chain.contains(met)
                || table.contains_key(met),
        },
    decreases unvisited(table, chain).len(),
{
    if !chain.contains(name) && table.contains_key(name) {
        match table[name] {
            RefOrView::Item(_) => {},
            RefOrView::Reference(reference) => {
                lemma_unvisited_shrinks(table, name, chain);
                lemma_follow_failure(table, reference_name(reference), chain.push(name));
                let longer = chain.push(name);
                match follow(table, name, chain)->Err_0 {
                    DerefErrorView::CyclicReference { name: met } => {
                        if longer.contains(met) {
                            let i = choose|i: int| 0 <= i < longer.len() && longer[i] == met;
                            if i < chain.len() {
                                assert(chain[i] == met);
                            }
                        }
                    },
                    _ => {},
                }
            },
        }
    }
}

/// A chain of two components that refer to each other is refused as a cycle,
/// from whichever of the two it is entered.
pub proof fn lemma_cycle_rejected<V>(
    table: Map<Seq<char>, RefOrView<V>>,
    first: Seq<char>,
    second: Seq<char>,
    chain: Seq<Seq<char>>,
)
    requires
        table.dom().finite(),
        !chain.contains(first),
        !chain.contains(second),
        table.contains_key(first),
        table.contains_key(second),
        table[first] is Reference,
        table[second] is Reference,
        reference_name(table[first]->Reference_0) == second,
        reference_name(table[second]->Reference_0) == first,
    ensures
        follow(table, first, chain) == Err::<(V, Seq<Seq<char>>), _>(
            DerefErrorView::CyclicReference { name: first },
        ),
{
    reveal_with_fuel(follow, 3);
    let one = chain.push(first);
    assert(one[chain.len() as int] == first);
    if first != second {
        assert(!one.contains(second)) by {
            if one.contains(second) {
                let i = choose|i: int| 0 <= i < one.len() && one[i] == second;
                assert(chain[i] == second);
            }
        }
        let two = one.push(second);
        assert(two[chain.len() as int] == first);
    }
}

/// Where `f` only gives values that `p` holds of, `p` holds of every value
/// that a successful traversal gave.
pub proof fn lemma_traverse_all<A, B>(
    items: Seq<A>,
    f: spec_fn(A) -> Result<B, DerefErrorView>,
    p: spec_fn(B) -> bool,
)
    requires
        traverse(items, f) is Ok,
        forall|x: A| (#[trigger] f(x)) is Ok ==> p(f(x)->Ok_0),
    ensures
        forall|i: int|
            0 <= i < traverse(items, f)->Ok_0.len() ==> p(#[trigger] traverse(items, f)->Ok_0[i]),
{
    lemma_traverse_ok(items, f);
    let out = traverse(items, f)->Ok_0;
    assert forall|i: int| 0 <= i < out.len() implies p(#[trigger] out[i]) by {
        assert(f(items[i]) == Ok::<B, DerefErrorView>(out[i]));
    }
}

/// Where `g` leaves every value that `f` gives as it is, traversing with `g`
/// what a traversal with `f` gave changes nothing.
pub proof fn lemma_traverse_fixed<A>(
    items: Seq<A>,
    f: spec_fn(A) -> Result<A, DerefErrorView>,
    g: spec_fn(A) -> Result<A, DerefErrorView>,
)
    requires
        traverse(items, f) is Ok,
        forall|x: A| (#[trigger] f(x)) is Ok ==> g(f(x)->Ok_0) == f(x),
    ensures
        traverse(traverse(items, f)->Ok_0, g) == traverse(items, f),
{
    lemma_traverse_ok(items, f);
    let out = traverse(items, f)->Ok_0;
    assert forall|i: int| 0 <= i < out.len() implies g(#[trigger] out[i]) == Ok::<
        A,
        DerefErrorView,
    >(out[i]) by {
        assert(f(items[i]) == Ok::<A, DerefErrorView>(out[i]));
    }
    lemma_traverse_all_ok(out, g, out);
}

proof fn lemma_parameter_laws(slot: RefOrView<ParameterView>, components: ComponentsView)
    requires
        components.schemas.dom().finite(),
        resolve_parameter(slot, components) is Ok,
    ensures
        parameter_resolved(resolve_parameter(slot, components)->Ok_0),
        resolve_parameter(resolve_parameter(slot, components)->Ok_0, components)
            == resolve_parameter(slot, components),
{
    let parameter = locate(slot, components.parameters, Seq::empty())->Ok_0.0;
    match parameter.format {
        FormatView::Content => {},
        FormatView::Schema(schema) => {
            lemma_slot_resolved(schema, components.schemas, Seq::empty());
            lemma_slot_fixed(
                schema,
                components.schemas,
                Seq::empty(),
                components.schemas,
                Seq::empty(),
            );
        },
    }
}

proof fn lemma_parameters_laws(
    items: Seq<RefOrView<ParameterView>>,
    components: ComponentsView,
)
    requires
        components.schemas.dom().finite(),
        traverse(items, parameter_resolver(components)) is Ok,
    ensures
        forall|i: int|
            0 <= i < traverse(items, parameter_resolver(components))->Ok_0.len()
                ==> parameter_resolved(
                #[trigger] traverse(items, parameter_resolver(components))->Ok_0[i],
            ),
        traverse(
            traverse(items, parameter_resolver(components))->Ok_0,
            parameter_resolver(components),
        ) == traverse(items, parameter_resolver(components)),
{
    let f = parameter_resolver(components);
    assert forall|x: RefOrView<ParameterView>| (#[trigger] f(x)) is Ok implies parameter_resolved(
        f(x)->Ok_0,
    ) && f(f(x)->Ok_0) == f(x) by {
        lemma_parameter_laws(x, components);
    }
    lemma_traverse_all(items, f, |slot: RefOrView<ParameterView>| parameter_resolved(slot));
    lemma_traverse_fixed(items, f, f);
}

proof fn lemma_media_laws(media: MediaTypeView, components: ComponentsView)
    requires
        components.schemas.dom().finite(),
        resolve_media(media, components) is Ok,
    ensures
        media_resolved(resolve_media(media, components)->Ok_0),
        resolve_media(resolve_media(media, components)->Ok_0, components) == resolve_media(
            media,
            components,
        ),
{
    match media.schema {
        None => {},
        Some(schema) => {
            lemma_slot_resolved(schema, components.schemas, Seq::empty());
            lemma_slot_fixed(
                schema,
                components.schemas,
                Seq::empty(),
                components.schemas,
                Seq::empty(),
            );
        },
    }
}

proof fn lemma_content_laws(items: Seq<MediaTypeView>, components: ComponentsView)
    requires
        components.schemas.dom().finite(),
        traverse(items, media_resolver(components)) is Ok,
    ensures
        forall|i: int|
            0 <= i < traverse(items, media_resolver(components))->Ok_0.len() ==> media_resolved(
                #[trigger] traverse(items, media_resolver(components))->Ok_0[i],
            ),
        traverse(traverse(items, media_resolver(components))->Ok_0, media_resolver(components))
            == traverse(items, media_resolver(components)),
{
    let f = media_resolver(components);
    assert forall|x: MediaTypeView| (#[trigger] f(x)) is Ok implies media_resolved(f(x)->Ok_0)
        && f(f(x)->Ok_0) == f(x) by {
        lemma_media_laws(x, components);
    }
    lemma_traverse_all(items, f, |media: MediaTypeView| media_resolved(media));
    lemma_traverse_fixed(items, f, f);
}

proof fn lemma_body_laws(slot: RefOrView<RequestBodyView>, components: ComponentsView)
    requires
        components.schemas.dom().finite(),
        resolve_body(slot, components) is Ok,
    ensures
        body_resolved(resolve_body(slot, components)->Ok_0),
        resolve_body(resolve_body(slot, components)->Ok_0, components) == resolve_body(
            slot,
            components,
        ),
{
    let body = locate(slot, components.request_bodies, Seq::empty())->Ok_0.0;
    lemma_content_laws(body.content, components);
}

proof fn lemma_headers_laws(items: Seq<NamedHeaderView>, components: ComponentsView)
    requires
        traverse(items, header_resolver(components)) is Ok,
    ensures
        forall|i: int|
            0 <= i < traverse(items, header_resolver(components))->Ok_0.len() ==> header_resolved(
                #[trigger] traverse(items, header_resolver(components))->Ok_0[i],
            ),
        traverse(traverse(items, header_resolver(components))->Ok_0, header_resolver(components))
            == traverse(items, header_resolver(components)),
{
    let f = header_resolver(components);
    lemma_traverse_all(items, f, |header: NamedHeaderView| header_resolved(header));
    lemma_traverse_fixed(items, f, f);
}

proof fn lemma_response_laws(response: StatusResponseView, components: ComponentsView)
    requires
        components.schemas.dom().finite(),
        resolve_response(response, components) is Ok,
    ensures
        response_resolved(resolve_response(response, components)->Ok_0),
        resolve_response(resolve_response(response, components)->Ok_0, components)
            == resolve_response(response, components),
{
    let found = locate(response.response, components.responses, Seq::empty())->Ok_0.0;
    lemma_headers_laws(found.headers, components);
    lemma_content_laws(found.content, components);
}

proof fn lemma_responses_laws(items: Seq<StatusResponseView>, components: ComponentsView)
    requires
        components.schemas.dom().finite(),
        traverse(items, response_resolver(components)) is Ok,
    ensures
        forall|i: int|
            0 <= i < traverse(items, response_resolver(components))->Ok_0.len()
                ==> response_resolved(
                #[trigger] traverse(items, response_resolver(components))->Ok_0[i],
            ),
        traverse(
            traverse(items, response_resolver(components))->Ok_0,
            response_resolver(components),
        ) == traverse(items, response_resolver(components)),
{
    let f = response_resolver(components);
    assert forall|x: StatusResponseView| (#[trigger] f(x)) is Ok implies response_resolved(
        f(x)->Ok_0,
    ) && f(f(x)->Ok_0) == f(x) by {
        lemma_response_laws(x, components);
    }
    lemma_traverse_all(items, f, |response: StatusResponseView| response_resolved(response));
    lemma_traverse_fixed(items, f, f);
}

proof fn lemma_operation_resolved(
    operation: OperationView,
    shared: Seq<RefOrView<ParameterView>>,
    components: ComponentsView,
)
    requires
        components.schemas.dom().finite(),
        resolve_operation(operation, shared, components) is Ok,
        forall|i: int| 0 <= i < shared.len() ==> parameter_resolved(#[trigger] shared[i]),
    ensures
        operation_resolved(resolve_operation(operation, shared, components)->Ok_0),
{
    lemma_parameters_laws(operation.parameters, components);
    lemma_responses_laws(operation.responses, components);
    if operation.request_body is Some {
        lemma_body_laws(operation.request_body->Some_0, components);
    }
}

proof fn lemma_path_item_resolved(item: PathItemView, components: ComponentsView)
    requires
        components.schemas.dom().finite(),
        resolve_path_item(item, components) is Ok,
    ensures
        path_item_resolved(resolve_path_item(item, components)->Ok_0),
{
    lemma_parameters_laws(item.parameters, components);
    let shared = traverse(item.parameters, parameter_resolver(components))->Ok_0;
    let f = operation_resolver(shared, components);
    assert forall|x: Option<OperationView>| (#[trigger] f(x)) is Ok && f(x)->Ok_0 is Some
        implies operation_resolved(f(x)->Ok_0->Some_0) by {
        lemma_operation_resolved(x->Some_0, shared, components);
    }
    lemma_traverse_all(
        item.operations,
        f,
        |operation: Option<OperationView>|
            operation is Some ==> operation_resolved(operation->Some_0),
    );
}

/// A document that was resolved holds no reference that a route can reach.
pub proof fn lemma_resolution_complete(document: DocumentView)
    requires
        components_of(document).schemas.dom().finite(),
        resolve_document(document) is Ok,
    ensures
        document_resolved(resolve_document(document)->Ok_0),
{
    let components = components_of(document);
    let f = route_resolver(components);
    assert forall|x: RouteView| (#[trigger] f(x)) is Ok implies path_item_resolved(
        f(x)->Ok_0.item,
    ) by {
        lemma_path_item_resolved(x.item, components);
    }
    lemma_traverse_all(document.paths, f, |route: RouteView| path_item_resolved(route.item));
}

/// An operation with the shared parameters of its route after its own once
/// more.
pub open spec fn operation_again(
    operation: Option<OperationView>,
    shared: Seq<RefOrView<ParameterView>>,
) -> Option<OperationView> {
    match operation {
        Some(operation) => Some(
            OperationView {
                parameters: operation.parameters + shared,
                request_body: operation.request_body,
                responses: operation.responses,
            },
        ),
        None => None,
    }
}

/// A route in which each operation holds the shared parameters once more.
pub open spec fn route_again(route: RouteView) -> RouteView {
    RouteView {
        template: route.template,
        item: PathItemView {
            parameters: route.item.parameters,
            operations: Seq::new(
                route.item.operations.len(),
                |j: int| operation_again(route.item.operations[j], route.item.parameters),
            ),
        },
    }
}

/// What a second pass makes of a resolved document: nothing changes, but
/// that each operation holds the shared parameters of its route once more.
pub open spec fn second_pass(document: DocumentView) -> DocumentView {
    DocumentView {
        servers: document.servers,
        paths: Seq::new(document.paths.len(), |i: int| route_again(document.paths[i])),
        components: document.components,
    }
}

proof fn lemma_operation_again(
    operation: OperationView,
    shared: Seq<RefOrView<ParameterView>>,
    components: ComponentsView,
)
    requires
        components.schemas.dom().finite(),
        resolve_operation(operation, shared, components) is Ok,
        traverse(shared, parameter_resolver(components)) == Ok::<_, DerefErrorView>(shared),
    ensures
        resolve_operation(
            resolve_operation(operation, shared, components)->Ok_0,
            shared,
            components,
        ) == Ok::<_, DerefErrorView>(
            operation_again(Some(resolve_operation(operation, shared, components)->Ok_0), shared)
                ->Some_0,
        ),
{
    lemma_parameters_laws(operation.parameters, components);
    lemma_responses_laws(operation.responses, components);
    if operation.request_body is Some {
        lemma_body_laws(operation.request_body->Some_0, components);
    }
    let own = traverse(operation.parameters, parameter_resolver(components))->Ok_0;
    lemma_traverse_concat(own, shared, parameter_resolver(components));
}

proof fn lemma_route_again(route: RouteView, components: ComponentsView)
    requires
        components.schemas.dom().finite(),
        resolve_route(route, components) is Ok,
    ensures
        resolve_route(resolve_route(route, components)->Ok_0, components) == Ok::<
            _,
            DerefErrorView,
        >(route_again(resolve_route(route, components)->Ok_0)),
{
    let item = route.item;
    lemma_parameters_laws(item.parameters, components);
    let shared = traverse(item.parameters, parameter_resolver(components))->Ok_0;
    let f = operation_resolver(shared, components);
    lemma_traverse_ok(item.operations, f);
    let first = traverse(item.operations, f)->Ok_0;
    let again = route_again(resolve_route(route, components)->Ok_0).item.operations;
    assert forall|j: int| 0 <= j < first.len() implies f(#[trigger] first[j]) == Ok::<
        _,
        DerefErrorView,
    >(again[j]) by {
        assert(f(item.operations[j]) == Ok::<_, DerefErrorView>(first[j]));
        if item.operations[j] is Some {
            lemma_operation_again(item.operations[j]->Some_0, shared, components);
        }
    }
    lemma_traverse_all_ok(first, f, again);
}

/// Resolving a resolved document once more changes nothing but this: each
/// operation gets the shared parameters of its route once more, as every
/// pass copies them.
pub proof fn lemma_second_pass(document: DocumentView)
    requires
        components_of(document).schemas.dom().finite(),
        resolve_document(document) is Ok,
    ensures
        resolve_document(resolve_document(document)->Ok_0) == Ok::<_, DerefErrorView>(
            second_pass(resolve_document(document)->Ok_0),
        ),
{
    let components = components_of(document);
    let f = route_resolver(components);
    lemma_traverse_ok(document.paths, f);
    let paths = traverse(document.paths, f)->Ok_0;
    let again = second_pass(resolve_document(document)->Ok_0).paths;
    assert forall|i: int| 0 <= i < paths.len() implies f(#[trigger] paths[i]) == Ok::<
        RouteView,
        DerefErrorView,
    >(again[i]) by {
        assert(f(document.paths[i]) == Ok::<RouteView, DerefErrorView>(paths[i]));
        lemma_route_again(document.paths[i], components);
    }
    lemma_traverse_all_ok(paths, f, again);
}

/// No route of the document declares both shared parameters and an
/// operation.
pub open spec fn shares_nothing(document: DocumentView) -> bool {
    forall|i: int, j: int|
        0 <= i < document.paths.len() && 0 <= j < document.paths[i].item.operations.len()
            && document.paths[i].item.parameters.len() > 0
            ==> (#[trigger] document.paths[i].item.operations[j]) is None
}

/// Resolving a resolved document changes nothing, where no route declares
/// both shared parameters and an operation. (Where a route does, the second
/// pass copies the shared parameters to the operation again: see
/// [`lemma_second_pass`].)
pub proof fn lemma_resolution_idempotent(document: DocumentView)
    requires
        components_of(document).schemas.dom().finite(),
        resolve_document(document) is Ok,
        shares_nothing(document),
    ensures
        resolve_document(resolve_document(document)->Ok_0) == resolve_document(document),
{
    lemma_second_pass(document);
    let components = components_of(document);
    let f = route_resolver(components);
    lemma_traverse_ok(document.paths, f);
    let resolved = resolve_document(document)->Ok_0;
    let again = second_pass(resolved);
    assert forall|i: int| 0 <= i < resolved.paths.len() implies again.paths[i]
        == resolved.paths[i] by {
        let before = document.paths[i].item;
        let item = resolved.paths[i].item;
        assert(f(document.paths[i]) == Ok::<RouteView, DerefErrorView>(resolved.paths[i]));
        lemma_traverse_ok(before.parameters, parameter_resolver(components));
        let shared = traverse(before.parameters, parameter_resolver(components))->Ok_0;
        lemma_traverse_ok(before.operations, operation_resolver(shared, components));
        assert forall|j: int| 0 <= j < item.operations.len() implies operation_again(
            item.operations[j],
            item.parameters,
        ) == item.operations[j] by {
            assert(operation_resolver(shared, components)(before.operations[j]) == Ok::<
                _,
                DerefErrorView,
            >(item.operations[j]));
            if item.operations[j] is Some {
                assert(before.operations[j] is Some);
                assert(before.parameters.len() == 0);
                assert(item.parameters =~= Seq::empty());
                assert(item.operations[j]->Some_0.parameters + item.parameters
                    =~= item.operations[j]->Some_0.parameters);
            }
        }
        assert(again.paths[i].item.operations =~= item.operations);
    }
    assert(again.paths =~= resolved.paths);
}

/// Where a traversal fails, it fails as `f` fails on one of the items.
pub proof fn lemma_traverse_err<A, B>(items: Seq<A>, f: spec_fn(A) -> Result<B, DerefErrorView>)
    requires
        traverse(items, f) is Err,
    ensures
        exists|i: int|
            0 <= i < items.len() && (#[trigger] f(items[i])) is Err && f(items[i])->Err_0
                == traverse(items, f)->Err_0,
    decreases items.len(),
{
    if traverse(items.drop_last(), f) is Err {
        lemma_traverse_err(items.drop_last(), f);
        let i = choose|i: int|
            0 <= i < items.drop_last().len() && (#[trigger] f(items.drop_last()[i])) is Err && f(
                items.drop_last()[i],
            )->Err_0 == traverse(items.drop_last(), f)->Err_0;
        assert(items.drop_last()[i] == items[i]);
    } else {
        assert(f(items[items.len() - 1]) is Err);
    }
}

/// The tables of the components hold finitely many names each.
pub open spec fn finite_tables(components: ComponentsView) -> bool {
    &&& components.schemas.dom().finite()
    &&& components.parameters.dom().finite()
    &&& components.request_bodies.dom().finite()
    &&& components.responses.dom().finite()
    &&& components.headers.dom().finite()
}

/// An error that says a name is missing names one that at least one of the
/// five tables lacks. The error does not record which table was looked in;
/// [`lemma_lookup_missing`] says it for a single lookup.
pub open spec fn missing_from_some_table(error: DerefErrorView, components: ComponentsView) -> bool {
    error matches DerefErrorView::ReferenceError { name } ==> {
        ||| !components.schemas.contains_key(name)
        ||| !components.parameters.contains_key(name)
        ||| !components.request_bodies.contains_key(name)
        ||| !components.responses.contains_key(name)
        ||| !components.headers.contains_key(name)
    }
}

/// Where looking a slot up in a table fails because a name is missing, the
/// name is missing from that table.
pub proof fn lemma_lookup_missing<V>(
    slot: RefOrView<V>,
    table: Map<Seq<char>, RefOrView<V>>,
    chain: Seq<Seq<char>>,
)
    requires
        table.dom().finite(),
        locate(slot, table, chain) is Err,
    ensures
        locate(slot, table, chain)->Err_0 matches DerefErrorView::ReferenceError { name }
            ==> !table.contains_key(name),
{
    lemma_follow_failure(table, reference_name(slot->Reference_0), chain);
}

proof fn lemma_slot_missing(
    slot: RefOrView<SchemaView>,
    schemas: Map<Seq<char>, RefOrView<SchemaView>>,
    chain: Seq<Seq<char>>,
)
    requires
        schemas.dom().finite(),
        resolve_slot(slot, schemas, chain) is Err,
    ensures
        resolve_slot(slot, schemas, chain)->Err_0 matches DerefErrorView::ReferenceError { name }
            ==> !schemas.contains_key(name),
    decreases unvisited(schemas, chain).len(), slot,
{
    match slot {
        RefOrView::Item(node) => {
            lemma_node_missing(node, schemas, chain);
        },
        RefOrView::Reference(reference) => {
            match follow(schemas, reference_name(reference), chain) {
                Err(_) => {
                    lemma_follow_failure(schemas, reference_name(reference), chain);
                },
                Ok((node, extended)) => {
                    lemma_follow_progress(schemas, reference_name(reference), chain);
                    lemma_node_missing(node, schemas, extended);
                },
            }
        },
    }
}

proof fn lemma_node_missing(
    node: SchemaView,
    schemas: Map<Seq<char>, RefOrView<SchemaView>>,
    chain: Seq<Seq<char>>,
)
    requires
        schemas.dom().finite(),
        resolve_node(node, schemas, chain) is Err,
    ensures
        resolve_node(node, schemas, chain)->Err_0 matches DerefErrorView::ReferenceError { name }
            ==> !schemas.contains_key(name),
    decreases unvisited(schemas, chain).len(), node,
{
    let f = slot_resolver(schemas, chain);
    lemma_resolve_children(node.children, schemas, chain);
    lemma_traverse_err(node.children, f);
    let i = choose|i: int|
        0 <= i < node.children.len() && (#[trigger] f(node.children[i])) is Err && f(
            node.children[i],
        )->Err_0 == traverse(node.children, f)->Err_0;
    lemma_slot_missing(node.children[i], schemas, chain);
}

proof fn lemma_format_missing(format: FormatView, components: ComponentsView)
    requires
        finite_tables(components),
        resolve_format(format, components) is Err,
    ensures
        missing_from_some_table(resolve_format(format, components)->Err_0, components),
{
    lemma_slot_missing(format->Schema_0, components.schemas, Seq::empty());
}

proof fn lemma_parameters_missing(
    items: Seq<RefOrView<ParameterView>>,
    components: ComponentsView,
)
    requires
        finite_tables(components),
        traverse(items, parameter_resolver(components)) is Err,
    ensures
        missing_from_some_table(
            traverse(items, parameter_resolver(components))->Err_0,
            components,
        ),
{
    let f = parameter_resolver(components);
    lemma_traverse_err(items, f);
    let i = choose|i: int|
        0 <= i < items.len() && (#[trigger] f(items[i])) is Err && f(items[i])->Err_0 == traverse(
            items,
            f,
        )->Err_0;
    match locate(items[i], components.parameters, Seq::empty()) {
        Err(_) => {
            lemma_lookup_missing(items[i], components.parameters, Seq::empty());
        },
        Ok((parameter, _)) => {
            lemma_format_missing(parameter.format, components);
        },
    }
}

proof fn lemma_content_missing(items: Seq<MediaTypeView>, components: ComponentsView)
    requires
        finite_tables(components),
        traverse(items, media_resolver(components)) is Err,
    ensures
        missing_from_some_table(traverse(items, media_resolver(components))->Err_0, components),
{
    let f = media_resolver(components);
    lemma_traverse_err(items, f);
    let i = choose|i: int|
        0 <= i < items.len() && (#[trigger] f(items[i])) is Err && f(items[i])->Err_0 == traverse(
            items,
            f,
        )->Err_0;
    lemma_slot_missing(items[i].schema->Some_0, components.schemas, Seq::empty());
}

proof fn lemma_responses_missing(items: Seq<StatusResponseView>, components: ComponentsView)
    requires
        finite_tables(components),
        traverse(items, response_resolver(components)) is Err,
    ensures
        missing_from_some_table(traverse(items, response_resolver(components))->Err_0, components),
{
    let f = response_resolver(components);
    lemma_traverse_err(items, f);
    let i = choose|i: int|
        0 <= i < items.len() && (#[trigger] f(items[i])) is Err && f(items[i])->Err_0 == traverse(
            items,
            f,
        )->Err_0;
    match locate(items[i].response, components.responses, Seq::empty()) {
        Err(_) => {
            lemma_lookup_missing(items[i].response, components.responses, Seq::empty());
        },
        Ok((found, _)) => {
            let g = header_resolver(components);
            if traverse(found.headers, g) is Err {
                lemma_traverse_err(found.headers, g);
                let j = choose|j: int|
                    0 <= j < found.headers.len() && (#[trigger] g(found.headers[j])) is Err && g(
                        found.headers[j],
                    )->Err_0 == traverse(found.headers, g)->Err_0;
                lemma_lookup_missing(found.headers[j].header, components.headers, Seq::empty());
            } else {
                lemma_content_missing(found.content, components);
            }
        },
    }
}

proof fn lemma_operation_missing(
    operation: OperationView,
    shared: Seq<RefOrView<ParameterView>>,
    components: ComponentsView,
)
    requires
        finite_tables(components),
        resolve_operation(operation, shared, components) is Err,
    ensures
        missing_from_some_table(resolve_operation(operation, shared, components)->Err_0, components),
{
    if traverse(operation.parameters, parameter_resolver(components)) is Err {
        lemma_parameters_missing(operation.parameters, components);
    } else if resolve_optional_body(operation.request_body, components) is Err {
        let slot = operation.request_body->Some_0;
        match locate(slot, components.request_bodies, Seq::empty()) {
            Err(_) => {
                lemma_lookup_missing(slot, components.request_bodies, Seq::empty());
            },
            Ok((body, _)) => {
                lemma_content_missing(body.content, components);
            },
        }
    } else {
        lemma_responses_missing(operation.responses, components);
    }
}

/// Where resolution fails because a name is missing, the name is one that
/// at least one table of the components lacks. No more is claimed here: the
/// error does not say which table, and a name may stand in one table and be
/// missing from another. That a document whose references all name
/// components of their own tables resolves is
/// [`lemma_resolution_succeeds`].
pub proof fn lemma_missing_is_missing(document: DocumentView)
    requires
        finite_tables(components_of(document)),
        resolve_document(document) is Err,
    ensures
        missing_from_some_table(resolve_document(document)->Err_0, components_of(document)),
{
    let components = components_of(document);
    let f = route_resolver(components);
    lemma_traverse_err(document.paths, f);
    let i = choose|i: int|
        0 <= i < document.paths.len() && (#[trigger] f(document.paths[i])) is Err && f(
            document.paths[i],
        )->Err_0 == traverse(document.paths, f)->Err_0;
    let item = document.paths[i].item;
    if traverse(item.parameters, parameter_resolver(components)) is Err {
        lemma_parameters_missing(item.parameters, components);
    } else {
        let shared = traverse(item.parameters, parameter_resolver(components))->Ok_0;
        let g = operation_resolver(shared, components);
        lemma_traverse_err(item.operations, g);
        let j = choose|j: int|
            0 <= j < item.operations.len() && (#[trigger] g(item.operations[j])) is Err && g(
                item.operations[j],
            )->Err_0 == traverse(item.operations, g)->Err_0;
        lemma_operation_missing(item.operations[j]->Some_0, shared, components);
    }
}

/// Where `f` gives a value for each item, the traversal succeeds.
pub proof fn lemma_traverse_succeeds<A, B>(
    items: Seq<A>,
    f: spec_fn(A) -> Result<B, DerefErrorView>,
)
    requires
        forall|i: int| 0 <= i < items.len() ==> (#[trigger] f(items[i])) is Ok,
    ensures
        traverse(items, f) is Ok,
    decreases items.len(),
{
    if items.len() > 0 {
        assert forall|i: int| 0 <= i < items.drop_last().len() implies (#[trigger] f(
            items.drop_last()[i],
        )) is Ok by {
            assert(items.drop_last()[i] == items[i]);
        }
        lemma_traverse_succeeds(items.drop_last(), f);
        assert(f(items[items.len() - 1]) is Ok);
    }
}

/// Every reference that stands in a slot, however deep below items, names a
/// schema of the table; where there is a limit, the schema it names ranks
/// below the limit.
pub open spec fn references_below(
    slot: RefOrView<SchemaView>,
    schemas: Map<Seq<char>, RefOrView<SchemaView>>,
    rank: spec_fn(Seq<char>) -> nat,
    limit: Option<nat>,
) -> bool
    decreases slot,
{
    match slot {
        RefOrView::Reference(reference) => schemas.contains_key(reference_name(reference)) && (
        limit is Some ==> rank(reference_name(reference)) < limit->Some_0),
        RefOrView::Item(node) => forall|i: int|
            0 <= i < node.children.len() ==> references_below(
                #[trigger] node.children[i],
                schemas,
                rank,
                limit,
            ),
    }
}

/// Every reference that stands anywhere in a schema of the table names a
/// schema of the table that `rank` puts lower: the references of the schemas
/// can all be followed, and no schema leads back to itself.
pub open spec fn schemas_well_founded(
    schemas: Map<Seq<char>, RefOrView<SchemaView>>,
    rank: spec_fn(Seq<char>) -> nat,
) -> bool {
    forall|name: Seq<char>| #[trigger]
        schemas.contains_key(name) ==> references_below(
            schemas[name],
            schemas,
            rank,
            Some(rank(name)),
        )
}

/// The names of a chain rank at or above the limit; a chain without a limit
/// holds no name.
pub open spec fn chain_above(
    chain: Seq<Seq<char>>,
    rank: spec_fn(Seq<char>) -> nat,
    limit: Option<nat>,
) -> bool {
    match limit {
        Some(limit) => forall|i: int| 0 <= i < chain.len() ==> rank(#[trigger] chain[i]) >= limit,
        None => chain.len() == 0,
    }
}

/// Where the references of a table can all be followed and none leads back,
/// following a name of the table lands on a name of the table under which an
/// item stands. That name ranks no higher than the one followed, and the
/// names added to the chain rank no lower than it.
pub proof fn lemma_follow_lands<V>(
    table: Map<Seq<char>, RefOrView<V>>,
    rank: spec_fn(Seq<char>) -> nat,
    name: Seq<char>,
    chain: Seq<Seq<char>>,
)
    requires
        table.dom().finite(),
        well_founded(table, rank),
        table.contains_key(name),
        forall|i: int| 0 <= i < chain.len() ==> rank(#[trigger] chain[i]) > rank(name),
    ensures
        follow(table, name, chain) is Ok,
        ({
            let found = follow(table, name, chain)->Ok_0;
            let landed = found.1.last();
            &&& found.1.len() > chain.len()
            &&& table.contains_key(landed)
            &&& table[landed] == RefOrView::Item(found.0)
            &&& rank(landed) <= rank(name)
            &&& forall|i: int|
                chain.len() <= i < found.1.len() ==> rank(#[trigger] found.1[i]) >= rank(landed)
        }),
    decreases rank(name),
{
    lemma_follow_complete(table, rank, name, chain);
    lemma_follow_progress(table, name, chain);
    let longer = chain.push(name);
    match table[name] {
        RefOrView::Item(_) => {},
        RefOrView::Reference(reference) => {
            let next = reference_name(reference);
            assert forall|i: int| 0 <= i < longer.len() implies rank(#[trigger] longer[i]) > rank(
                next,
            ) by {
                if i < chain.len() {
                    assert(longer[i] == chain[i]);
                }
            }
            lemma_follow_lands(table, rank, next, longer);
            lemma_follow_progress(table, next, longer);
            let found = follow(table, name, chain)->Ok_0;
            let landed = found.1.last();
            assert forall|i: int| chain.len() <= i < found.1.len() implies rank(
                #[trigger] found.1[i],
            ) >= rank(landed) by {
                if i == chain.len() {
                    assert(found.1.take(longer.len() as int)[i] == longer[i]);
                }
            }
        },
    }
}

/// The alias references of well-founded schemas are well founded.
proof fn lemma_schemas_aliases(
    schemas: Map<Seq<char>, RefOrView<SchemaView>>,
    rank: spec_fn(Seq<char>) -> nat,
)
    requires
        schemas_well_founded(schemas, rank),
    ensures
        well_founded(schemas, rank),
{
    assert forall|name: Seq<char>| #[trigger]
        schemas.contains_key(name) && schemas[name] is Reference implies schemas.contains_key(
        reference_name(schemas[name]->Reference_0),
    ) && rank(reference_name(schemas[name]->Reference_0)) < rank(name) by {
        assert(references_below(schemas[name], schemas, rank, Some(rank(name))));
    }
}

proof fn lemma_slot_succeeds(
    slot: RefOrView<SchemaView>,
    schemas: Map<Seq<char>, RefOrView<SchemaView>>,
    rank: spec_fn(Seq<char>) -> nat,
    chain: Seq<Seq<char>>,
    limit: Option<nat>,
)
    requires
        schemas.dom().finite(),
        schemas_well_founded(schemas, rank),
        references_below(slot, schemas, rank, limit),
        chain_above(chain, rank, limit),
    ensures
        resolve_slot(slot, schemas, chain) is Ok,
    decreases unvisited(schemas, chain).len(), slot,
{
    match slot {
        RefOrView::Item(node) => {
            lemma_node_succeeds(node, schemas, rank, chain, limit);
        },
        RefOrView::Reference(reference) => {
            let name = reference_name(reference);
            lemma_schemas_aliases(schemas, rank);
            assert forall|i: int| 0 <= i < chain.len() implies rank(#[trigger] chain[i]) > rank(
                name,
            ) by {}
            lemma_follow_lands(schemas, rank, name, chain);
            lemma_follow_progress(schemas, name, chain);
            let found = follow(schemas, name, chain)->Ok_0;
            let landed = found.1.last();
            assert(references_below(schemas[landed], schemas, rank, Some(rank(landed))));
            assert forall|i: int| 0 <= i < found.1.len() implies rank(#[trigger] found.1[i])
                >= rank(landed) by {
                if i < chain.len() {
                    assert(found.1.take(chain.len() as int)[i] == chain[i]);
                }
            }
            lemma_node_succeeds(found.0, schemas, rank, found.1, Some(rank(landed)));
        },
    }
}

proof fn lemma_node_succeeds(
    node: SchemaView,
    schemas: Map<Seq<char>, RefOrView<SchemaView>>,
    rank: spec_fn(Seq<char>) -> nat,
    chain: Seq<Seq<char>>,
    limit: Option<nat>,
)
    requires
        schemas.dom().finite(),
        schemas_well_founded(schemas, rank),
        references_below(RefOrView::Item(node), schemas, rank, limit),
        chain_above(chain, rank, limit),
    ensures
        resolve_node(node, schemas, chain) is Ok,
    decreases unvisited(schemas, chain).len(), node,
{
    let f = slot_resolver(schemas, chain);
    assert forall|i: int| 0 <= i < node.children.len() implies (#[trigger] f(
        node.children[i],
    )) is Ok by {
        lemma_slot_succeeds(node.children[i], schemas, rank, chain, limit);
    }
    lemma_traverse_succeeds(node.children, f);
    lemma_resolve_children(node.children, schemas, chain);
}

/// How the names of each table of the components are ranked.
pub struct Ranks {
    pub schemas: spec_fn(Seq<char>) -> nat,
    pub parameters: spec_fn(Seq<char>) -> nat,
    pub request_bodies: spec_fn(Seq<char>) -> nat,
    pub responses: spec_fn(Seq<char>) -> nat,
    pub headers: spec_fn(Seq<char>) -> nat,
}

/// Every reference in a schema names a schema of the components.
pub open spec fn schema_sound(
    slot: RefOrView<SchemaView>,
    components: ComponentsView,
    ranks: Ranks,
) -> bool {
    references_below(slot, components.schemas, ranks.schemas, None)
}

pub open spec fn format_sound(format: FormatView, components: ComponentsView, ranks: Ranks) -> bool {
    format matches FormatView::Schema(slot) ==> schema_sound(slot, components, ranks)
}

pub open spec fn content_sound(
    content: Seq<MediaTypeView>,
    components: ComponentsView,
    ranks: Ranks,
) -> bool {
    forall|i: int|
        0 <= i < content.len() && (#[trigger] content[i]).schema is Some ==> schema_sound(
            content[i].schema->Some_0,
            components,
            ranks,
        )
}

pub open spec fn response_sound(
    response: ResponseView,
    components: ComponentsView,
    ranks: Ranks,
) -> bool {
    &&& forall|i: int|
        0 <= i < response.headers.len() && (#[trigger] response.headers[i]).header is Reference
            ==> components.headers.contains_key(
            reference_name(response.headers[i].header->Reference_0),
        )
    &&& content_sound(response.content, components, ranks)
}

/// The components hold together: each table holds finitely many names, the
/// references between the components of each table can all be followed
/// without leading back, and every reference in a component names a
/// component that exists.
pub open spec fn components_sound(components: ComponentsView, ranks: Ranks) -> bool {
    &&& finite_tables(components)
    &&& schemas_well_founded(components.schemas, ranks.schemas)
    &&& well_founded(components.parameters, ranks.parameters)
    &&& well_founded(components.request_bodies, ranks.request_bodies)
    &&& well_founded(components.responses, ranks.responses)
    &&& well_founded(components.headers, ranks.headers)
    &&& forall|name: Seq<char>| #[trigger]
        components.parameters.contains_key(name) && components.parameters[name] is Item
            ==> format_sound(components.parameters[name]->Item_0.format, components, ranks)
    &&& forall|name: Seq<char>| #[trigger]
        components.request_bodies.contains_key(name) && components.request_bodies[name] is Item
            ==> content_sound(components.request_bodies[name]->Item_0.content, components, ranks)
    &&& forall|name: Seq<char>| #[trigger]
        components.responses.contains_key(name) && components.responses[name] is Item
            ==> response_sound(components.responses[name]->Item_0, components, ranks)
}

pub open spec fn parameter_sound(
    slot: RefOrView<ParameterView>,
    components: ComponentsView,
    ranks: Ranks,
) -> bool {
    match slot {
        RefOrView::Reference(reference) => components.parameters.contains_key(
            reference_name(reference),
        ),
        RefOrView::Item(parameter) => format_sound(parameter.format, components, ranks),
    }
}

pub open spec fn operation_sound(
    operation: OperationView,
    components: ComponentsView,
    ranks: Ranks,
) -> bool {
    &&& forall|i: int|
        0 <= i < operation.parameters.len() ==> parameter_sound(
            #[trigger] operation.parameters[i],
            components,
            ranks,
        )
    &&& operation.request_body is Some ==> match operation.request_body->Some_0 {
        RefOrView::Reference(reference) => components.request_bodies.contains_key(
            reference_name(reference),
        ),
        RefOrView::Item(body) => content_sound(body.content, components, ranks),
    }
    &&& forall|i: int|
        0 <= i < operation.responses.len() ==> match (#[trigger] operation.responses[i]).response {
            RefOrView::Reference(reference) => components.responses.contains_key(
                reference_name(reference),
            ),
            RefOrView::Item(response) => response_sound(response, components, ranks),
        }
}

/// Every reference of the document names a component that exists in the
/// table it points into, and the components hold together.
pub open spec fn document_sound(document: DocumentView, ranks: Ranks) -> bool {
    let components = components_of(document);
    &&& components_sound(components, ranks)
    &&& forall|i: int|
        0 <= i < document.paths.len() ==> {
            let item = (#[trigger] document.paths[i]).item;
            &&& forall|j: int|
                0 <= j < item.parameters.len() ==> parameter_sound(
                    #[trigger] item.parameters[j],
                    components,
                    ranks,
                )
            &&& forall|j: int|
                0 <= j < item.operations.len() && (#[trigger] item.operations[j]) is Some
                    ==> operation_sound(item.operations[j]->Some_0, components, ranks)
        }
}

/// A slot whose reference, if it is one, names a component of a well-founded
/// table is located: at its own item, or at an item of the table.
proof fn lemma_locate_succeeds<V>(
    slot: RefOrView<V>,
    table: Map<Seq<char>, RefOrView<V>>,
    rank: spec_fn(Seq<char>) -> nat,
)
    requires
        table.dom().finite(),
        well_founded(table, rank),
        slot is Reference ==> table.contains_key(reference_name(slot->Reference_0)),
    ensures
        locate(slot, table, Seq::empty()) is Ok,
        slot is Item ==> locate(slot, table, Seq::empty())->Ok_0.0 == slot->Item_0,
        slot is Reference ==> exists|name: Seq<char>| #[trigger]
            table.contains_key(name) && table[name] == RefOrView::Item(
                locate(slot, table, Seq::empty())->Ok_0.0,
            ),
{
    if slot is Reference {
        lemma_follow_lands(table, rank, reference_name(slot->Reference_0), Seq::empty());
        let found = follow(table, reference_name(slot->Reference_0), Seq::empty())->Ok_0;
        assert(table.contains_key(found.1.last()));
    }
}

proof fn lemma_schema_succeeds(
    slot: RefOrView<SchemaView>,
    components: ComponentsView,
    ranks: Ranks,
)
    requires
        components_sound(components, ranks),
        schema_sound(slot, components, ranks),
    ensures
        resolve_schema(slot, components) is Ok,
{
    lemma_slot_succeeds(slot, components.schemas, ranks.schemas, Seq::empty(), None);
}

proof fn lemma_parameters_succeed(
    items: Seq<RefOrView<ParameterView>>,
    components: ComponentsView,
    ranks: Ranks,
)
    requires
        components_sound(components, ranks),
        forall|i: int| 0 <= i < items.len() ==> parameter_sound(#[trigger] items[i], components, ranks),
    ensures
        traverse(items, parameter_resolver(components)) is Ok,
{
    let f = parameter_resolver(components);
    assert forall|i: int| 0 <= i < items.len() implies (#[trigger] f(items[i])) is Ok by {
        assert(parameter_sound(items[i], components, ranks));
        lemma_locate_succeeds(items[i], components.parameters, ranks.parameters);
        let parameter = locate(items[i], components.parameters, Seq::empty())->Ok_0.0;
        assert(format_sound(parameter.format, components, ranks));
        if parameter.format is Schema {
            lemma_schema_succeeds(parameter.format->Schema_0, components, ranks);
        }
    }
    lemma_traverse_succeeds(items, f);
}

proof fn lemma_content_succeeds(
    items: Seq<MediaTypeView>,
    components: ComponentsView,
    ranks: Ranks,
)
    requires
        components_sound(components, ranks),
        content_sound(items, components, ranks),
    ensures
        traverse(items, media_resolver(components)) is Ok,
{
    let f = media_resolver(components);
    assert forall|i: int| 0 <= i < items.len() implies (#[trigger] f(items[i])) is Ok by {
        if items[i].schema is Some {
            lemma_schema_succeeds(items[i].schema->Some_0, components, ranks);
        }
    }
    lemma_traverse_succeeds(items, f);
}

proof fn lemma_operation_succeeds(
    operation: OperationView,
    shared: Seq<RefOrView<ParameterView>>,
    components: ComponentsView,
    ranks: Ranks,
)
    requires
        components_sound(components, ranks),
        operation_sound(operation, components, ranks),
    ensures
        resolve_operation(operation, shared, components) is Ok,
{
    lemma_parameters_succeed(operation.parameters, components, ranks);
    if operation.request_body is Some {
        let slot = operation.request_body->Some_0;
        lemma_locate_succeeds(slot, components.request_bodies, ranks.request_bodies);
        let body = locate(slot, components.request_bodies, Seq::empty())->Ok_0.0;
        lemma_content_succeeds(body.content, components, ranks);
    }
    let f = response_resolver(components);
    assert forall|i: int| 0 <= i < operation.responses.len() implies (#[trigger] f(
        operation.responses[i],
    )) is Ok by {
        let slot = operation.responses[i].response;
        lemma_locate_succeeds(slot, components.responses, ranks.responses);
        let found = locate(slot, components.responses, Seq::empty())->Ok_0.0;
        assert(response_sound(found, components, ranks));
        let g = header_resolver(components);
        assert forall|j: int| 0 <= j < found.headers.len() implies (#[trigger] g(
            found.headers[j],
        )) is Ok by {
            lemma_locate_succeeds(found.headers[j].header, components.headers, ranks.headers);
        }
        lemma_traverse_succeeds(found.headers, g);
        lemma_content_succeeds(found.content, components, ranks);
    }
    lemma_traverse_succeeds(operation.responses, f);
}

/// Resolution succeeds on every document whose references all name
/// components that exist and whose components do not lead back to
/// themselves, however deep its schemas are nested.
pub proof fn lemma_resolution_succeeds(document: DocumentView, ranks: Ranks)
    requires
        document_sound(document, ranks),
    ensures
        resolve_document(document) is Ok,
        document_resolved(resolve_document(document)->Ok_0),
{
    let components = components_of(document);
    let f = route_resolver(components);
    assert forall|i: int| 0 <= i < document.paths.len() implies (#[trigger] f(
        document.paths[i],
    )) is Ok by {
        let item = document.paths[i].item;
        lemma_parameters_succeed(item.parameters, components, ranks);
        let shared = traverse(item.parameters, parameter_resolver(components))->Ok_0;
        let g = operation_resolver(shared, components);
        assert forall|j: int| 0 <= j < item.operations.len() implies (#[trigger] g(
            item.operations[j],
        )) is Ok by {
            if item.operations[j] is Some {
                lemma_operation_succeeds(item.operations[j]->Some_0, shared, components, ranks);
            }
        }
        lemma_traverse_succeeds(item.operations, g);
    }
    lemma_traverse_succeeds(document.paths, f);
    lemma_resolution_complete(document);
}

} // verus!
