//! What resolution means: the resolved form of every part of a document, as
//! a function of the part and of the components.
//!
//! Resolution needs no bound on how deep schemas nest. Every reference that
//! is followed adds a name of the table to the chain, and a name that is in
//! the chain is refused; between two references the schema at hand gets
//! smaller. So resolution ends on every document, and fails only for a name
//! that is missing or a name that is met again.

use vstd::prelude::*;
use crate::deref_error::DerefErrorView;
use crate::document::{
    empty_components, ComponentsView, DocumentView, FormatView, MediaTypeView, NamedHeaderView,
    OperationView, ParameterView, PathItemView, RequestBodyView, ResponseView, RouteView,
    StatusResponseView,
};
use crate::reference::{reference_name, RefOrView};
use crate::schema::SchemaView;

verus! {

/// Applies `f` to each item in order. The result is the sequence of what `f`
/// gave, or the error of the first item on which `f` failed.
pub open spec fn traverse<A, B>(
    items: Seq<A>,
    f: spec_fn(A) -> Result<B, DerefErrorView>,
) -> Result<Seq<B>, DerefErrorView>
    decreases items.len(),
{
    if items.len() == 0 {
        Ok(Seq::empty())
    } else {
        match traverse(items.drop_last(), f) {
            Err(error) => Err(error),
            Ok(done) => match f(items.last()) {
                Err(error) => Err(error),
                Ok(value) => Ok(done.push(value)),
            },
        }
    }
}

/// The names of a table that a chain has not visited.
pub open spec fn unvisited<V>(
    table: Map<Seq<char>, RefOrView<V>>,
    chain: Seq<Seq<char>>,
) -> Set<Seq<char>> {
    table.dom().difference(chain.to_set())
}

/// Follows a name through the table until an item is reached. `chain` holds
/// the names that are being resolved already: a name that is in it fails as a
/// cycle; a name that the table lacks fails as missing. On success the result
/// is the item and the chain, extended by every name that was followed.
pub open spec fn follow<V>(
    table: Map<Seq<char>, RefOrView<V>>,
    name: Seq<char>,
    chain: Seq<Seq<char>>,
) -> Result<(V, Seq<Seq<char>>), DerefErrorView>
    decreases unvisited(table, chain).len(),
    when table.dom().finite()
{
    if chain.contains(name) {
        Err(DerefErrorView::CyclicReference { name })
    } else if !table.contains_key(name) {
        Err(DerefErrorView::ReferenceError { name })
    } else {
        match table[name] {
            RefOrView::Item(item) => Ok((item, chain.push(name))),
            RefOrView::Reference(reference) => {
                proof {
                    lemma_unvisited_shrinks(table, name, chain);
                }
                follow(table, reference_name(reference), chain.push(name))
            },
        }
    }
}

/// Visiting a name of the table that the chain did not hold leaves fewer
/// names unvisited.
pub proof fn lemma_unvisited_shrinks<V>(
    table: Map<Seq<char>, RefOrView<V>>,
    name: Seq<char>,
    chain: Seq<Seq<char>>,
)
    requires
        table.dom().finite(),
        table.contains_key(name),
        !chain.contains(name),
    ensures
        unvisited(table, chain.push(name)).len() < unvisited(table, chain).len(),
{
    let before = unvisited(table, chain);
    let after = unvisited(table, chain.push(name));
    assert(before.contains(name));
    assert(after =~= before.remove(name)) by {
        assert forall|other: Seq<char>| after.contains(other) == before.remove(name).contains(
            other,
        ) by {
            if chain.push(name).contains(other) {
                let i = choose|i: int| 0 <= i < chain.push(name).len() && chain.push(name)[i] == other;
                if i < chain.len() {
                    assert(chain[i] == other);
                }
            }
            if chain.contains(other) {
                let i = choose|i: int| 0 <= i < chain.len() && chain[i] == other;
                assert(chain.push(name)[i] == other);
            }
            if other == name {
                assert(chain.push(name)[chain.len() as int] == name);
            }
        }
    }
}

/// Extending the items by one extends the traversal by one step.
pub proof fn lemma_traverse_push<A, B>(
    items: Seq<A>,
    last: A,
    f: spec_fn(A) -> Result<B, DerefErrorView>,
)
    ensures
        traverse(items.push(last), f) == match traverse(items, f) {
            Err(error) => Err::<Seq<B>, _>(error),
            Ok(done) => match f(last) {
                Err(error) => Err(error),
                Ok(value) => Ok(done.push(value)),
            },
        },
{
    assert(items.push(last).drop_last() =~= items);
}

/// An error on a prefix of the items is the error on all of them.
pub proof fn lemma_traverse_prefix_error<A, B>(
    items: Seq<A>,
    n: int,
    f: spec_fn(A) -> Result<B, DerefErrorView>,
)
    requires
        0 <= n <= items.len(),
        traverse(items.take(n), f) is Err,
    ensures
        traverse(items, f) == traverse(items.take(n), f),
    decreases items.len() - n,
{
    if n < items.len() {
        lemma_traverse_push(items.take(n), items[n], f);
        assert(items.take(n + 1) =~= items.take(n).push(items[n]));
        lemma_traverse_prefix_error(items, n + 1, f);
    } else {
        assert(items.take(n) =~= items);
    }
}

/// Traversing two sequences one after the other traverses their
/// concatenation.
pub proof fn lemma_traverse_concat<A, B>(
    first: Seq<A>,
    second: Seq<A>,
    f: spec_fn(A) -> Result<B, DerefErrorView>,
)
    ensures
        traverse(first + second, f) == match traverse(first, f) {
            Err(error) => Err::<Seq<B>, _>(error),
            Ok(done) => match traverse(second, f) {
                Err(error) => Err(error),
                Ok(more) => Ok(done + more),
            },
        },
    decreases second.len(),
{
    if second.len() == 0 {
        assert(first + second =~= first);
        match traverse(first, f) {
            Ok(done) => {
                assert(done + Seq::<B>::empty() =~= done);
            },
            Err(_) => {},
        }
    } else {
        lemma_traverse_concat(first, second.drop_last(), f);
        assert((first + second).drop_last() =~= first + second.drop_last());
        assert((first + second).last() == second.last());
        match (traverse(first, f), traverse(second.drop_last(), f), f(second.last())) {
            (Ok(done), Ok(more), Ok(value)) => {
                assert((done + more).push(value) =~= done + more.push(value));
            },
            _ => {},
        }
    }
}

/// The item of a slot: the slot's own, or the one that its reference leads
/// to in the table. The chain grows by the names that were followed.
pub open spec fn locate<V>(
    slot: RefOrView<V>,
    table: Map<Seq<char>, RefOrView<V>>,
    chain: Seq<Seq<char>>,
) -> Result<(V, Seq<Seq<char>>), DerefErrorView> {
    match slot {
        RefOrView::Item(item) => Ok((item, chain)),
        RefOrView::Reference(reference) => follow(table, reference_name(reference), chain),
    }
}

/// Following a name to an item leaves fewer names unvisited, and the chain
/// that comes back is the old one with names added.
pub proof fn lemma_follow_progress<V>(
    table: Map<Seq<char>, RefOrView<V>>,
    name: Seq<char>,
    chain: Seq<Seq<char>>,
)
    requires
        table.dom().finite(),
        follow(table, name, chain) is Ok,
    ensures
        unvisited(table, follow(table, name, chain)->Ok_0.1).len() < unvisited(table, chain).len(),
        chain.len() < follow(table, name, chain)->Ok_0.1.len(),
        follow(table, name, chain)->Ok_0.1.take(chain.len() as int) == chain,
    decreases unvisited(table, chain).len(),
{
    lemma_unvisited_shrinks(table, name, chain);
    let longer = chain.push(name);
    assert(longer.take(chain.len() as int) =~= chain);
    match table[name] {
        RefOrView::Item(_) => {},
        RefOrView::Reference(reference) => {
            lemma_follow_progress(table, reference_name(reference), longer);
            let extended = follow(table, name, chain)->Ok_0.1;
            assert(extended.take(chain.len() as int) =~= extended.take(longer.len() as int).take(
                chain.len() as int,
            ));
        },
    }
}

/// The resolved form of a slot: the schema it stands for, with every schema
/// nested in it resolved in turn. A reference is followed with the chain of
/// the names that are being resolved, and what it leads to is resolved with
/// the chain that following it gave: a schema that leads back to itself is a
/// cycle, however the way back is nested.
pub open spec fn resolve_slot(
    slot: RefOrView<SchemaView>,
    schemas: Map<Seq<char>, RefOrView<SchemaView>>,
    chain: Seq<Seq<char>>,
) -> Result<RefOrView<SchemaView>, DerefErrorView>
    decreases unvisited(schemas, chain).len(), slot,
    when schemas.dom().finite()
{
    match slot {
        RefOrView::Item(node) => resolve_node(node, schemas, chain),
        RefOrView::Reference(reference) => match follow(
            schemas,
            reference_name(reference),
            chain,
        ) {
            Err(error) => Err(error),
            Ok((node, extended)) => {
                proof {
                    lemma_follow_progress(schemas, reference_name(reference), chain);
                }
                resolve_node(node, schemas, extended)
            },
        },
    }
}

/// The resolved form of a schema: the same head over its resolved children.
pub open spec fn resolve_node(
    node: SchemaView,
    schemas: Map<Seq<char>, RefOrView<SchemaView>>,
    chain: Seq<Seq<char>>,
) -> Result<RefOrView<SchemaView>, DerefErrorView>
    decreases unvisited(schemas, chain).len(), node,
    when schemas.dom().finite()
{
    match resolve_children(node.children, schemas, chain) {
        Err(error) => Err(error),
        Ok(children) => Ok(RefOrView::Item(SchemaView { head: node.head, children })),
    }
}

/// The resolved forms of the children of a schema in order, or the error of
/// the first that fails.
pub open spec fn resolve_children(
    children: Seq<RefOrView<SchemaView>>,
    schemas: Map<Seq<char>, RefOrView<SchemaView>>,
    chain: Seq<Seq<char>>,
) -> Result<Seq<RefOrView<SchemaView>>, DerefErrorView>
    decreases unvisited(schemas, chain).len(), children,
    when schemas.dom().finite()
{
    if children.len() == 0 {
        Ok(Seq::empty())
    } else {
        match resolve_children(children.drop_last(), schemas, chain) {
            Err(error) => Err(error),
            Ok(done) => match resolve_slot(children.last(), schemas, chain) {
                Err(error) => Err(error),
                Ok(child) => Ok(done.push(child)),
            },
        }
    }
}

/// [`resolve_slot`] as a function of the slot alone.
pub open spec fn slot_resolver(
    schemas: Map<Seq<char>, RefOrView<SchemaView>>,
    chain: Seq<Seq<char>>,
) -> spec_fn(RefOrView<SchemaView>) -> Result<RefOrView<SchemaView>, DerefErrorView> {
    |slot| resolve_slot(slot, schemas, chain)
}

/// The children of a schema are resolved as a traversal resolves them.
pub proof fn lemma_resolve_children(
    children: Seq<RefOrView<SchemaView>>,
    schemas: Map<Seq<char>, RefOrView<SchemaView>>,
    chain: Seq<Seq<char>>,
)
    requires
        schemas.dom().finite(),
    ensures
        resolve_children(children, schemas, chain) == traverse(
            children,
            slot_resolver(schemas, chain),
        ),
    decreases children.len(),
{
    if children.len() > 0 {
        lemma_resolve_children(children.drop_last(), schemas, chain);
    }
}

/// The resolved form of a schema that stands directly in a parameter or a
/// media type.
pub open spec fn resolve_schema(
    slot: RefOrView<SchemaView>,
    components: ComponentsView,
) -> Result<RefOrView<SchemaView>, DerefErrorView> {
    resolve_slot(slot, components.schemas, Seq::empty())
}

/// The resolved form of what describes a parameter's value.
pub open spec fn resolve_format(format: FormatView, components: ComponentsView) -> Result<
    FormatView,
    DerefErrorView,
> {
    match format {
        FormatView::Content => Ok(FormatView::Content),
        FormatView::Schema(slot) => match resolve_schema(slot, components) {
            Err(error) => Err(error),
            Ok(schema) => Ok(FormatView::Schema(schema)),
        },
    }
}

/// The resolved form of a parameter: the parameter that the slot stands for,
/// with its schema resolved.
pub open spec fn resolve_parameter(
    slot: RefOrView<ParameterView>,
    components: ComponentsView,
) -> Result<RefOrView<ParameterView>, DerefErrorView> {
    match locate(slot, components.parameters, Seq::empty()) {
        Err(error) => Err(error),
        Ok((parameter, _)) => match resolve_format(parameter.format, components) {
            Err(error) => Err(error),
            Ok(format) => Ok(
                RefOrView::Item(
                    ParameterView {
                        location: parameter.location,
                        name: parameter.name,
                        required: parameter.required,
                        format,
                    },
                ),
            ),
        },
    }
}

pub open spec fn parameter_resolver(components: ComponentsView) -> spec_fn(
    RefOrView<ParameterView>,
) -> Result<RefOrView<ParameterView>, DerefErrorView> {
    |slot| resolve_parameter(slot, components)
}

/// The resolved form of a media type: its schema resolved, where it has one.
pub open spec fn resolve_media(media: MediaTypeView, components: ComponentsView) -> Result<
    MediaTypeView,
    DerefErrorView,
> {
    match media.schema {
        None => Ok(media),
        Some(slot) => match resolve_schema(slot, components) {
            Err(error) => Err(error),
            Ok(schema) => Ok(MediaTypeView { name: media.name, schema: Some(schema) }),
        },
    }
}

pub open spec fn media_resolver(components: ComponentsView) -> spec_fn(MediaTypeView) -> Result<
    MediaTypeView,
    DerefErrorView,
> {
    |media| resolve_media(media, components)
}

/// The resolved form of a request body: the body that the slot stands for,
/// with each media type resolved.
pub open spec fn resolve_body(
    slot: RefOrView<RequestBodyView>,
    components: ComponentsView,
) -> Result<RefOrView<RequestBodyView>, DerefErrorView> {
    match locate(slot, components.request_bodies, Seq::empty()) {
        Err(error) => Err(error),
        Ok((body, _)) => match traverse(body.content, media_resolver(components)) {
            Err(error) => Err(error),
            Ok(content) => Ok(
                RefOrView::Item(RequestBodyView { required: body.required, content }),
            ),
        },
    }
}

/// The resolved form of a named header.
pub open spec fn resolve_header(header: NamedHeaderView, components: ComponentsView) -> Result<
    NamedHeaderView,
    DerefErrorView,
> {
    match locate(header.header, components.headers, Seq::empty()) {
        Err(error) => Err(error),
        Ok((found, _)) => Ok(
            NamedHeaderView { name: header.name, header: RefOrView::Item(found) },
        ),
    }
}

pub open spec fn header_resolver(components: ComponentsView) -> spec_fn(NamedHeaderView) -> Result<
    NamedHeaderView,
    DerefErrorView,
> {
    |header| resolve_header(header, components)
}

/// The resolved form of a response: the response that the slot stands for,
/// with its headers and then its media types resolved.
pub open spec fn resolve_response(
    response: StatusResponseView,
    components: ComponentsView,
) -> Result<StatusResponseView, DerefErrorView> {
    match locate(response.response, components.responses, Seq::empty()) {
        Err(error) => Err(error),
        Ok((found, _)) => match traverse(found.headers, header_resolver(components)) {
            Err(error) => Err(error),
            Ok(headers) => match traverse(found.content, media_resolver(components)) {
                Err(error) => Err(error),
                Ok(content) => Ok(
                    StatusResponseView {
                        status: response.status,
                        response: RefOrView::Item(
                            ResponseView { description: found.description, headers, content },
                        ),
                    },
                ),
            },
        },
    }
}

pub open spec fn response_resolver(components: ComponentsView) -> spec_fn(
    StatusResponseView,
) -> Result<StatusResponseView, DerefErrorView> {
    |response| resolve_response(response, components)
}

/// The resolved form of an optional request body.
pub open spec fn resolve_optional_body(
    body: Option<RefOrView<RequestBodyView>>,
    components: ComponentsView,
) -> Result<Option<RefOrView<RequestBodyView>>, DerefErrorView> {
    match body {
        None => Ok(None),
        Some(slot) => match resolve_body(slot, components) {
            Err(error) => Err(error),
            Ok(resolved) => Ok(Some(resolved)),
        },
    }
}

/// The resolved form of an operation: its own parameters resolved and
/// followed by the route's shared ones, its request body resolved, and its
/// responses resolved.
pub open spec fn resolve_operation(
    operation: OperationView,
    shared: Seq<RefOrView<ParameterView>>,
    components: ComponentsView,
) -> Result<OperationView, DerefErrorView> {
    match traverse(operation.parameters, parameter_resolver(components)) {
        Err(error) => Err(error),
        Ok(own) => match resolve_optional_body(operation.request_body, components) {
            Err(error) => Err(error),
            Ok(request_body) => match traverse(
                operation.responses,
                response_resolver(components),
            ) {
                Err(error) => Err(error),
                Ok(responses) => Ok(
                    OperationView { parameters: own + shared, request_body, responses },
                ),
            },
        },
    }
}

/// The resolved form of the operation of one method, where there is one.
pub open spec fn resolve_optional_operation(
    operation: Option<OperationView>,
    shared: Seq<RefOrView<ParameterView>>,
    components: ComponentsView,
) -> Result<Option<OperationView>, DerefErrorView> {
    match operation {
        None => Ok(None),
        Some(operation) => match resolve_operation(operation, shared, components) {
            Err(error) => Err(error),
            Ok(resolved) => Ok(Some(resolved)),
        },
    }
}

pub open spec fn operation_resolver(
    shared: Seq<RefOrView<ParameterView>>,
    components: ComponentsView,
) -> spec_fn(Option<OperationView>) -> Result<Option<OperationView>, DerefErrorView> {
    |operation| resolve_optional_operation(operation, shared, components)
}

/// The resolved form of a path item: its shared parameters resolved, then
/// each of its operations.
pub open spec fn resolve_path_item(item: PathItemView, components: ComponentsView) -> Result<
    PathItemView,
    DerefErrorView,
> {
    match traverse(item.parameters, parameter_resolver(components)) {
        Err(error) => Err(error),
        Ok(shared) => match traverse(item.operations, operation_resolver(shared, components)) {
            Err(error) => Err(error),
            Ok(operations) => Ok(PathItemView { parameters: shared, operations }),
        },
    }
}

/// The resolved form of a route.
pub open spec fn resolve_route(route: RouteView, components: ComponentsView) -> Result<
    RouteView,
    DerefErrorView,
> {
    match resolve_path_item(route.item, components) {
        Err(error) => Err(error),
        Ok(item) => Ok(RouteView { template: route.template, item }),
    }
}

pub open spec fn route_resolver(components: ComponentsView) -> spec_fn(RouteView) -> Result<
    RouteView,
    DerefErrorView,
> {
    |route| resolve_route(route, components)
}

/// The components of a document; none where it declares none.
pub open spec fn components_of(document: DocumentView) -> ComponentsView {
    match document.components {
        Some(components) => components,
        None => empty_components(),
    }
}

/// The resolved form of a document: each of its routes resolved in order, or
/// the first error met on the way.
pub open spec fn resolve_document(document: DocumentView) -> Result<DocumentView, DerefErrorView> {
    match traverse(document.paths, route_resolver(components_of(document))) {
        Err(error) => Err(error),
        Ok(paths) => Ok(
            DocumentView { servers: document.servers, paths, components: document.components },
        ),
    }
}

} // verus!
