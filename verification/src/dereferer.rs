//! Resolution of references: every reference that can be reached from a route
//! is replaced by a copy of the component it names.

use vstd::prelude::*;
use crate::deref_error::{DerefError, DerefErrorView};
use crate::document::{
    option_view, views, Components, Document, DocumentView, FormatView, MediaType, MediaTypeView,
    NamedHeader, NamedHeaderView, Operation, OperationView, Parameter, ParameterData,
    ParameterSchemaOrContent, ParameterView, PathItem, PathItemView, RequestBody, RequestBodyView,
    Response, Route, StatusResponse, StatusResponseView,
};
use crate::reference::{name_of_reference, reference_name, RefOr, RefOrView};
use crate::resolution::{
    components_of, follow, header_resolver, lemma_follow_progress, lemma_resolve_children,
    lemma_traverse_concat, lemma_traverse_prefix_error, lemma_traverse_push,
    lemma_unvisited_shrinks, locate, media_resolver, operation_resolver, parameter_resolver,
    resolve_body, resolve_document, resolve_format, resolve_header, resolve_media, resolve_node,
    resolve_operation, resolve_parameter, resolve_path_item, resolve_response, resolve_slot,
    response_resolver, route_resolver, slot_resolver, traverse, unvisited,
};
use crate::resolution_laws::{document_resolved, lemma_resolution_complete};
use crate::schema::{
    boxed_tree, copy_schema, property_names, property_trees, schema_children, slot_tree, slots_tree,
    AnySchema, ArrayType, ObjectType, Property, Schema, SchemaKind, SchemaView, Type,
};
use crate::table::ComponentTable;

verus! {

/// Whether `name` is one of `names`.
pub fn contains_name(names: &Vec<String>, name: &String) -> (found: bool)
    ensures
        found == views(names@).contains(name@),
{
    let mut i: usize = 0;
    while i < names.len()
        invariant
            i <= names@.len(),
            forall|j: int| 0 <= j < i ==> views(names@)[j] != name@,
        decreases names@.len() - i,
    {
        if names[i] == *name {
            assert(views(names@)[i as int] == name@);
            return true;
        }
        i += 1;
    }
    false
}

/// Finds the item that a reference stands for in one category of the
/// components, following references between components. `referred` holds the
/// names that are being resolved already and grows by those followed here.
pub fn find_reference<'a, T: View>(
    reference: &str,
    component_type: &'a ComponentTable<T>,
    referred: &mut Vec<String>,
) -> (found: Result<&'a T, DerefError>)
    ensures
        component_type@.dom().finite(),
        match found {
            Ok(item) => follow(
                component_type@,
                reference_name(reference@),
                views(old(referred)@),
            ) == Ok::<_, DerefErrorView>((item@, views(final(referred)@))),
            Err(error) => follow(
                component_type@,
                reference_name(reference@),
                views(old(referred)@),
            ) == Err::<(T::V, Seq<Seq<char>>), _>(error@),
        },
{
    let mut name = name_of_reference(reference);
    let ghost table = component_type@;
    let _ = component_type.get(name.as_str());
    assert(table.dom() =~= component_type.names());
    let ghost goal = follow(table, reference_name(reference@), views(old(referred)@));
    loop
        invariant
            goal == follow(table, reference_name(reference@), views(old(referred)@)),
            table == component_type@,
            table.dom().finite(),
            table.dom() == component_type.names(),
            follow(table, name@, views(referred@)) == goal,
        decreases unvisited(table, views(referred@)).len(),
    {
        if contains_name(referred, &name) {
            return Err(DerefError::CyclicReference { name });
        }
        match component_type.get(name.as_str()) {
            None => {
                return Err(DerefError::ReferenceError { name });
            },
            Some(entry) => {
                proof {
                    lemma_unvisited_shrinks(table, name@, views(referred@));
                    assert(views(referred@.push(name)) =~= views(referred@).push(name@));
                }
                match entry {
                    RefOr::Item(item) => {
                        referred.push(name);
                        return Ok(item);
                    },
                    RefOr::Reference { reference: next } => {
                        let next_name = name_of_reference(next.as_str());
                        referred.push(name);
                        name = next_name;
                    },
                }
            },
        }
    }
}

/// A copy of a list of names.
pub fn copy_names(names: &Vec<String>) -> (out: Vec<String>)
    ensures
        views(out@) == views(names@),
{
    let mut out: Vec<String> = Vec::new();
    let mut i: usize = 0;
    while i < names.len()
        invariant
            i <= names@.len(),
            out@.len() == i,
            forall|j: int| 0 <= j < i ==> out@[j]@ == names@[j]@,
        decreases names@.len() - i,
    {
        out.push(names[i].clone());
        i += 1;
    }
    assert(views(out@) =~= views(names@));
    out
}

/// The item that a slot stands for: its own, or the one its reference leads
/// to in `component_type`. `referred` grows by the names that were followed.
pub fn set_deref<'a, T: View>(
    item: &'a RefOr<T>,
    component_type: &'a ComponentTable<T>,
    referred: &mut Vec<String>,
) -> (found: Result<&'a T, DerefError>)
    ensures
        component_type@.dom().finite(),
        match found {
            Ok(target) => locate(item@, component_type@, views(old(referred)@)) == Ok::<
                _,
                DerefErrorView,
            >((target@, views(final(referred)@))),
            Err(error) => locate(item@, component_type@, views(old(referred)@)) == Err::<
                (T::V, Seq<Seq<char>>),
                _,
            >(error@),
        },
{
    match item {
        RefOr::Reference { reference } => find_reference(
            reference.as_str(),
            component_type,
            referred,
        ),
        RefOr::Item(target) => {
            let _ = component_type.get("");
            assert(component_type@.dom() =~= component_type.names());
            Ok(target)
        },
    }
}

/// Resolves a slot that holds a schema: see [`resolve_slot`]. `referred`
/// holds the names that are being resolved already.
pub fn deref_schema(
    slot: &RefOr<Schema>,
    schemas: &ComponentTable<Schema>,
    referred: &Vec<String>,
) -> (resolved: Result<RefOr<Schema>, DerefError>)
    ensures
        schemas@.dom().finite(),
        match resolved {
            Ok(out) => resolve_slot(slot@, schemas@, views(referred@)) == Ok::<_, DerefErrorView>(
                out@,
            ),
            Err(error) => resolve_slot(slot@, schemas@, views(referred@)) == Err::<
                RefOrView<SchemaView>,
                _,
            >(error@),
        },
    decreases unvisited(schemas@, views(referred@)).len(), *slot,
{
    schemas.names_are_finite();
    assert(schemas@.dom() =~= schemas.names());
    match slot {
        RefOr::Item(schema) => match set_defer_schema_contents(schema, schemas, referred) {
            Err(error) => Err(error),
            Ok(out) => Ok(RefOr::Item(out)),
        },
        RefOr::Reference { reference } => {
            let mut extended = copy_names(referred);
            match find_reference(reference.as_str(), schemas, &mut extended) {
                Err(error) => Err(error),
                Ok(schema) => {
                    proof {
                        lemma_follow_progress(
                            schemas@,
                            reference_name(reference@),
                            views(referred@),
                        );
                    }
                    match set_defer_schema_contents(schema, schemas, &extended) {
                        Err(error) => Err(error),
                        Ok(out) => Ok(RefOr::Item(out)),
                    }
                },
            }
        },
    }
}

/// Resolves a list of children.
fn deref_slots(
    slots: &Vec<RefOr<Schema>>,
    schemas: &ComponentTable<Schema>,
    referred: &Vec<String>,
) -> (resolved: Result<Vec<RefOr<Schema>>, DerefError>)
    ensures
        match resolved {
            Ok(out) => traverse(slots_tree(slots@), slot_resolver(schemas@, views(referred@)))
                == Ok::<_, DerefErrorView>(slots_tree(out@)) && out@.len() == slots@.len(),
            Err(error) => traverse(slots_tree(slots@), slot_resolver(schemas@, views(referred@)))
                == Err::<Seq<RefOrView<SchemaView>>, _>(error@),
        },
    decreases unvisited(schemas@, views(referred@)).len(), *slots,
{
    let ghost f = slot_resolver(schemas@, views(referred@));
    let ghost all = slots_tree(slots@);
    let mut out: Vec<RefOr<Schema>> = Vec::new();
    let mut i: usize = 0;
    assert(all.take(0) =~= Seq::empty());
    assert(slots_tree(out@) =~= Seq::empty());
    while i < slots.len()
        invariant
            i <= slots@.len(),
            out@.len() == i,
            all == slots_tree(slots@),
            f == slot_resolver(schemas@, views(referred@)),
            traverse(all.take(i as int), f) == Ok::<_, DerefErrorView>(slots_tree(out@)),
        decreases slots@.len() - i,
    {
        proof {
            lemma_traverse_push(all.take(i as int), all[i as int], f);
            assert(all.take(i + 1) =~= all.take(i as int).push(all[i as int]));
            assert(all[i as int] == slots@[i as int]@);
            assert(decreases_to!(*slots => slots[i as int]));
        }
        match deref_schema(&slots[i], schemas, referred) {
            Err(error) => {
                proof {
                    lemma_traverse_prefix_error(all, i + 1, f);
                }
                return Err(error);
            },
            Ok(child) => {
                assert(slots_tree(out@.push(child)) =~= slots_tree(out@).push(child@));
                out.push(child);
            },
        }
        i += 1;
    }
    assert(all.take(i as int) =~= all);
    Ok(out)
}

/// Resolves the schemas of a list of properties.
fn deref_properties(
    properties: &Vec<Property>,
    schemas: &ComponentTable<Schema>,
    referred: &Vec<String>,
) -> (resolved: Result<Vec<Property>, DerefError>)
    ensures
        match resolved {
            Ok(out) => traverse(
                property_trees(properties@),
                slot_resolver(schemas@, views(referred@)),
            ) == Ok::<_, DerefErrorView>(property_trees(out@)) && property_names(out@)
                == property_names(properties@),
            Err(error) => traverse(
                property_trees(properties@),
                slot_resolver(schemas@, views(referred@)),
            ) == Err::<Seq<RefOrView<SchemaView>>, _>(error@),
        },
    decreases unvisited(schemas@, views(referred@)).len(), *properties,
{
    let ghost f = slot_resolver(schemas@, views(referred@));
    let ghost all = property_trees(properties@);
    let mut out: Vec<Property> = Vec::new();
    let mut i: usize = 0;
    assert(all.take(0) =~= Seq::empty());
    assert(property_trees(out@) =~= Seq::empty());
    while i < properties.len()
        invariant
            i <= properties@.len(),
            out@.len() == i,
            all == property_trees(properties@),
            f == slot_resolver(schemas@, views(referred@)),
            traverse(all.take(i as int), f) == Ok::<_, DerefErrorView>(property_trees(out@)),
            forall|j: int| 0 <= j < i ==> out@[j].name@ == properties@[j].name@,
        decreases properties@.len() - i,
    {
        proof {
            lemma_traverse_push(all.take(i as int), all[i as int], f);
            assert(all.take(i + 1) =~= all.take(i as int).push(all[i as int]));
            assert(all[i as int] == properties@[i as int].schema@);
            assert(decreases_to!(*properties => properties[i as int]));
        }
        let property = &properties[i];
        match deref_schema(&property.schema, schemas, referred) {
            Err(error) => {
                proof {
                    lemma_traverse_prefix_error(all, i + 1, f);
                }
                return Err(error);
            },
            Ok(schema) => {
                let resolved = Property { name: property.name.clone(), schema };
                assert(property_trees(out@.push(resolved)) =~= property_trees(out@).push(
                    resolved.schema@,
                ));
                out.push(resolved);
            },
        }
        i += 1;
    }
    assert(all.take(i as int) =~= all);
    assert(property_names(out@) =~= property_names(properties@));
    Ok(out)
}

/// Resolves the declared items of an array, where it declares them.
fn deref_boxed(
    items: &Option<Box<RefOr<Schema>>>,
    schemas: &ComponentTable<Schema>,
    referred: &Vec<String>,
) -> (resolved: Result<Option<Box<RefOr<Schema>>>, DerefError>)
    ensures
        match resolved {
            Ok(out) => traverse(boxed_tree(*items), slot_resolver(schemas@, views(referred@)))
                == Ok::<_, DerefErrorView>(boxed_tree(out)) && out is Some == items is Some,
            Err(error) => traverse(boxed_tree(*items), slot_resolver(schemas@, views(referred@)))
                == Err::<Seq<RefOrView<SchemaView>>, _>(error@),
        },
    decreases unvisited(schemas@, views(referred@)).len(), *items,
{
    let ghost f = slot_resolver(schemas@, views(referred@));
    match items {
        None => Ok(None),
        Some(slot) => {
            proof {
                lemma_traverse_push(Seq::empty(), slot_tree(**slot), f);
                assert(Seq::empty().push(slot_tree(**slot)) =~= boxed_tree(*items));
            }
            match deref_schema(slot, schemas, referred) {
                Err(error) => Err(error),
                Ok(child) => {
                    assert(Seq::empty().push(child@) =~= boxed_tree(Some(Box::new(child))));
                    Ok(Some(Box::new(child)))
                },
            }
        },
    }
}

/// Resolves what a schema nests: see [`resolve_node`]. The result is a copy
/// of the schema in which each nested schema is resolved.
pub fn set_defer_schema_contents(
    schema: &Schema,
    schemas: &ComponentTable<Schema>,
    referred: &Vec<String>,
) -> (resolved: Result<Schema, DerefError>)
    ensures
        schemas@.dom().finite(),
        match resolved {
            Ok(out) => resolve_node(schema@, schemas@, views(referred@)) == Ok::<
                _,
                DerefErrorView,
            >(RefOrView::Item(out@)),
            Err(error) => resolve_node(schema@, schemas@, views(referred@)) == Err::<
                RefOrView<SchemaView>,
                _,
            >(error@),
        },
    decreases unvisited(schemas@, views(referred@)).len(), *schema,
{
    let ghost f = slot_resolver(schemas@, views(referred@));
    schemas.names_are_finite();
    assert(schemas@.dom() =~= schemas.names());
    proof {
        lemma_resolve_children(schema@.children, schemas@, views(referred@));
    }
    match &schema.schema_kind {
        SchemaKind::Type(Type::Object(object)) => {
            match deref_properties(&object.properties, schemas, referred) {
                Err(error) => Err(error),
                Ok(properties) => Ok(
                    Schema { schema_kind: SchemaKind::Type(Type::Object(ObjectType { properties })) },
                ),
            }
        },
        SchemaKind::Type(Type::Array(array)) => {
            match deref_boxed(&array.items, schemas, referred) {
                Err(error) => Err(error),
                Ok(items) => Ok(
                    Schema { schema_kind: SchemaKind::Type(Type::Array(ArrayType { items })) },
                ),
            }
        },
        SchemaKind::Type(_) => {
            Ok(copy_schema(schema))
        },
        SchemaKind::OneOf { one_of } => {
            match deref_slots(one_of, schemas, referred) {
                Err(error) => Err(error),
                Ok(one_of) => Ok(Schema { schema_kind: SchemaKind::OneOf { one_of } }),
            }
        },
        SchemaKind::AnyOf { any_of } => {
            match deref_slots(any_of, schemas, referred) {
                Err(error) => Err(error),
                Ok(any_of) => Ok(Schema { schema_kind: SchemaKind::AnyOf { any_of } }),
            }
        },
        SchemaKind::AllOf { all_of } => {
            match deref_slots(all_of, schemas, referred) {
                Err(error) => Err(error),
                Ok(all_of) => Ok(Schema { schema_kind: SchemaKind::AllOf { all_of } }),
            }
        },
        SchemaKind::Not { not } => {
            proof {
                lemma_traverse_push(Seq::empty(), slot_tree(**not), f);
                assert(Seq::empty().push(slot_tree(**not)) =~= schema_children(*schema));
            }
            match deref_schema(not, schemas, referred) {
                Err(error) => Err(error),
                Ok(child) => {
                    let out = Schema { schema_kind: SchemaKind::Not { not: Box::new(child) } };
                    assert(Seq::empty().push(child@) =~= schema_children(out));
                    Ok(out)
                },
            }
        },
        SchemaKind::Any(any) => {
            let ghost p = property_trees(any.properties@);
            let ghost b = boxed_tree(any.items);
            let ghost o = slots_tree(any.one_of@);
            let ghost n = slots_tree(any.any_of@);
            let ghost l = slots_tree(any.all_of@);
            proof {
                lemma_traverse_concat(p, b, f);
                lemma_traverse_concat(p + b, o, f);
                lemma_traverse_concat(p + b + o, n, f);
                lemma_traverse_concat(p + b + o + n, l, f);
            }
            let properties = match deref_properties(&any.properties, schemas, referred) {
                Err(error) => { return Err(error); },
                Ok(properties) => properties,
            };
            let items = match deref_boxed(&any.items, schemas, referred) {
                Err(error) => { return Err(error); },
                Ok(items) => items,
            };
            let one_of = match deref_slots(&any.one_of, schemas, referred) {
                Err(error) => { return Err(error); },
                Ok(one_of) => one_of,
            };
            let any_of = match deref_slots(&any.any_of, schemas, referred) {
                Err(error) => { return Err(error); },
                Ok(any_of) => any_of,
            };
            let all_of = match deref_slots(&any.all_of, schemas, referred) {
                Err(error) => { return Err(error); },
                Ok(all_of) => all_of,
            };
            Ok(
                Schema {
                    schema_kind: SchemaKind::Any(
                        AnySchema { properties, items, one_of, any_of, all_of },
                    ),
                },
            )
        },
    }
}

/// Resolves what describes a parameter's value: see [`resolve_format`].
fn deref_format(format: &ParameterSchemaOrContent, components: &Components) -> (resolved: Result<
    ParameterSchemaOrContent,
    DerefError,
>)
    ensures
        match resolved {
            Ok(out) => resolve_format(format@, components@) == Ok::<_, DerefErrorView>(out@),
            Err(error) => resolve_format(format@, components@) == Err::<FormatView, _>(error@),
        },
{
    match format {
        ParameterSchemaOrContent::Content => Ok(ParameterSchemaOrContent::Content),
        ParameterSchemaOrContent::Schema(slot) => {
            let referred: Vec<String> = Vec::new();
            assert(views(referred@) =~= Seq::empty());
            match deref_schema(slot, &components.schemas, &referred) {
                Err(error) => Err(error),
                Ok(schema) => Ok(ParameterSchemaOrContent::Schema(schema)),
            }
        },
    }
}

/// Resolves one parameter: see [`resolve_parameter`].
fn deref_parameter(slot: &RefOr<Parameter>, components: &Components) -> (resolved: Result<
    RefOr<Parameter>,
    DerefError,
>)
    ensures
        match resolved {
            Ok(out) => resolve_parameter(slot@, components@) == Ok::<_, DerefErrorView>(out@),
            Err(error) => resolve_parameter(slot@, components@) == Err::<
                RefOrView<ParameterView>,
                _,
            >(error@),
        },
{
    let mut referred: Vec<String> = Vec::new();
    assert(views(referred@) =~= Seq::empty());
    match set_deref(slot, &components.parameters, &mut referred) {
        Err(error) => Err(error),
        Ok(parameter) => {
            let data = parameter.parameter_data();
            match deref_format(&data.format, components) {
                Err(error) => Err(error),
                Ok(format) => Ok(
                    RefOr::Item(
                        Parameter::with_data(
                            parameter,
                            ParameterData {
                                name: data.name.clone(),
                                required: data.required,
                                format,
                            },
                        ),
                    ),
                ),
            }
        },
    }
}

/// Resolves a list of parameters in order; the first failure ends it.
pub fn set_deref_all_params(parameters: &Vec<RefOr<Parameter>>, components: &Components) -> (resolved:
    Result<Vec<RefOr<Parameter>>, DerefError>)
    ensures
        match resolved {
            Ok(out) => traverse(views(parameters@), parameter_resolver(components@)) == Ok::<
                _,
                DerefErrorView,
            >(views(out@)),
            Err(error) => traverse(views(parameters@), parameter_resolver(components@)) == Err::<
                Seq<RefOrView<ParameterView>>,
                _,
            >(error@),
        },
{
    let ghost f = parameter_resolver(components@);
    let ghost all = views(parameters@);
    let mut out: Vec<RefOr<Parameter>> = Vec::new();
    let mut i: usize = 0;
    assert(all.take(0) =~= Seq::empty());
    assert(views(out@) =~= Seq::empty());
    while i < parameters.len()
        invariant
            i <= parameters@.len(),
            out@.len() == i,
            all == views(parameters@),
            f == parameter_resolver(components@),
            traverse(all.take(i as int), f) == Ok::<_, DerefErrorView>(views(out@)),
        decreases parameters@.len() - i,
    {
        proof {
            lemma_traverse_push(all.take(i as int), all[i as int], f);
            assert(all.take(i + 1) =~= all.take(i as int).push(all[i as int]));
        }
        match deref_parameter(&parameters[i], components) {
            Err(error) => {
                proof {
                    lemma_traverse_prefix_error(all, i + 1, f);
                }
                return Err(error);
            },
            Ok(parameter) => {
                assert(views(out@.push(parameter)) =~= views(out@).push(parameter@));
                out.push(parameter);
            },
        }
        i += 1;
    }
    assert(all.take(i as int) =~= all);
    Ok(out)
}

/// Resolves the schema of one media type: see [`resolve_media`].
fn deref_media(media: &MediaType, components: &Components) -> (resolved: Result<
    MediaType,
    DerefError,
>)
    ensures
        match resolved {
            Ok(out) => resolve_media(media@, components@) == Ok::<_, DerefErrorView>(out@),
            Err(error) => resolve_media(media@, components@) == Err::<MediaTypeView, _>(error@),
        },
{
    match &media.schema {
        None => Ok(MediaType { name: media.name.clone(), schema: None }),
        Some(slot) => {
            let referred: Vec<String> = Vec::new();
            assert(views(referred@) =~= Seq::empty());
            match deref_schema(slot, &components.schemas, &referred) {
                Err(error) => Err(error),
                Ok(schema) => Ok(MediaType { name: media.name.clone(), schema: Some(schema) }),
            }
        },
    }
}

/// Resolves the media types of a body in order.
fn deref_content(content: &Vec<MediaType>, components: &Components) -> (resolved: Result<
    Vec<MediaType>,
    DerefError,
>)
    ensures
        match resolved {
            Ok(out) => traverse(views(content@), media_resolver(components@)) == Ok::<
                _,
                DerefErrorView,
            >(views(out@)),
            Err(error) => traverse(views(content@), media_resolver(components@)) == Err::<
                Seq<MediaTypeView>,
                _,
            >(error@),
        },
{
    let ghost f = media_resolver(components@);
    let ghost all = views(content@);
    let mut out: Vec<MediaType> = Vec::new();
    let mut i: usize = 0;
    assert(all.take(0) =~= Seq::empty());
    assert(views(out@) =~= Seq::empty());
    while i < content.len()
        invariant
            i <= content@.len(),
            out@.len() == i,
            all == views(content@),
            f == media_resolver(components@),
            traverse(all.take(i as int), f) == Ok::<_, DerefErrorView>(views(out@)),
        decreases content@.len() - i,
    {
        proof {
            lemma_traverse_push(all.take(i as int), all[i as int], f);
            assert(all.take(i + 1) =~= all.take(i as int).push(all[i as int]));
        }
        match deref_media(&content[i], components) {
            Err(error) => {
                proof {
                    lemma_traverse_prefix_error(all, i + 1, f);
                }
                return Err(error);
            },
            Ok(media) => {
                assert(views(out@.push(media)) =~= views(out@).push(media@));
                out.push(media);
            },
        }
        i += 1;
    }
    assert(all.take(i as int) =~= all);
    Ok(out)
}

/// Resolves a request body: see [`resolve_body`].
fn deref_body(slot: &RefOr<RequestBody>, components: &Components) -> (resolved: Result<
    RefOr<RequestBody>,
    DerefError,
>)
    ensures
        match resolved {
            Ok(out) => resolve_body(slot@, components@) == Ok::<_, DerefErrorView>(out@),
            Err(error) => resolve_body(slot@, components@) == Err::<
                RefOrView<RequestBodyView>,
                _,
            >(error@),
        },
{
    let mut referred: Vec<String> = Vec::new();
    assert(views(referred@) =~= Seq::empty());
    match set_deref(slot, &components.request_bodies, &mut referred) {
        Err(error) => Err(error),
        Ok(body) => match deref_content(&body.content, components) {
            Err(error) => Err(error),
            Ok(content) => Ok(RefOr::Item(RequestBody { required: body.required, content })),
        },
    }
}

/// Resolves one named header: see [`resolve_header`].
fn deref_header(header: &NamedHeader, components: &Components) -> (resolved: Result<
    NamedHeader,
    DerefError,
>)
    ensures
        match resolved {
            Ok(out) => resolve_header(header@, components@) == Ok::<_, DerefErrorView>(out@),
            Err(error) => resolve_header(header@, components@) == Err::<NamedHeaderView, _>(
                error@,
            ),
        },
{
    let mut referred: Vec<String> = Vec::new();
    assert(views(referred@) =~= Seq::empty());
    match set_deref(&header.header, &components.headers, &mut referred) {
        Err(error) => Err(error),
        Ok(found) => Ok(
            NamedHeader { name: header.name.clone(), header: RefOr::Item(found.copy()) },
        ),
    }
}

/// Resolves the headers of a response in order.
fn deref_headers(headers: &Vec<NamedHeader>, components: &Components) -> (resolved: Result<
    Vec<NamedHeader>,
    DerefError,
>)
    ensures
        match resolved {
            Ok(out) => traverse(views(headers@), header_resolver(components@)) == Ok::<
                _,
                DerefErrorView,
            >(views(out@)),
            Err(error) => traverse(views(headers@), header_resolver(components@)) == Err::<
                Seq<NamedHeaderView>,
                _,
            >(error@),
        },
{
    let ghost f = header_resolver(components@);
    let ghost all = views(headers@);
    let mut out: Vec<NamedHeader> = Vec::new();
    let mut i: usize = 0;
    assert(all.take(0) =~= Seq::empty());
    assert(views(out@) =~= Seq::empty());
    while i < headers.len()
        invariant
            i <= headers@.len(),
            out@.len() == i,
            all == views(headers@),
            f == header_resolver(components@),
            traverse(all.take(i as int), f) == Ok::<_, DerefErrorView>(views(out@)),
        decreases headers@.len() - i,
    {
        proof {
            lemma_traverse_push(all.take(i as int), all[i as int], f);
            assert(all.take(i + 1) =~= all.take(i as int).push(all[i as int]));
        }
        match deref_header(&headers[i], components) {
            Err(error) => {
                proof {
                    lemma_traverse_prefix_error(all, i + 1, f);
                }
                return Err(error);
            },
            Ok(header) => {
                assert(views(out@.push(header)) =~= views(out@).push(header@));
                out.push(header);
            },
        }
        i += 1;
    }
    assert(all.take(i as int) =~= all);
    Ok(out)
}

/// Resolves one response: see [`resolve_response`].
fn deref_response(response: &StatusResponse, components: &Components) -> (resolved: Result<
    StatusResponse,
    DerefError,
>)
    ensures
        match resolved {
            Ok(out) => resolve_response(response@, components@) == Ok::<_, DerefErrorView>(out@),
            Err(error) => resolve_response(response@, components@) == Err::<
                StatusResponseView,
                _,
            >(error@),
        },
{
    let mut referred: Vec<String> = Vec::new();
    assert(views(referred@) =~= Seq::empty());
    match set_deref(&response.response, &components.responses, &mut referred) {
        Err(error) => Err(error),
        Ok(found) => match deref_headers(&found.headers, components) {
            Err(error) => Err(error),
            Ok(headers) => match deref_content(&found.content, components) {
                Err(error) => Err(error),
                Ok(content) => Ok(
                    StatusResponse {
                        status: response.status,
                        response: RefOr::Item(
                            Response { description: found.description.clone(), headers, content },
                        ),
                    },
                ),
            },
        },
    }
}

/// Resolves the responses of an operation in order.
fn deref_responses(responses: &Vec<StatusResponse>, components: &Components) -> (resolved: Result<
    Vec<StatusResponse>,
    DerefError,
>)
    ensures
        match resolved {
            Ok(out) => traverse(views(responses@), response_resolver(components@)) == Ok::<
                _,
                DerefErrorView,
            >(views(out@)),
            Err(error) => traverse(views(responses@), response_resolver(components@)) == Err::<
                Seq<StatusResponseView>,
                _,
            >(error@),
        },
{
    let ghost f = response_resolver(components@);
    let ghost all = views(responses@);
    let mut out: Vec<StatusResponse> = Vec::new();
    let mut i: usize = 0;
    assert(all.take(0) =~= Seq::empty());
    assert(views(out@) =~= Seq::empty());
    while i < responses.len()
        invariant
            i <= responses@.len(),
            out@.len() == i,
            all == views(responses@),
            f == response_resolver(components@),
            traverse(all.take(i as int), f) == Ok::<_, DerefErrorView>(views(out@)),
        decreases responses@.len() - i,
    {
        proof {
            lemma_traverse_push(all.take(i as int), all[i as int], f);
            assert(all.take(i + 1) =~= all.take(i as int).push(all[i as int]));
        }
        match deref_response(&responses[i], components) {
            Err(error) => {
                proof {
                    lemma_traverse_prefix_error(all, i + 1, f);
                }
                return Err(error);
            },
            Ok(response) => {
                assert(views(out@.push(response)) =~= views(out@).push(response@));
                out.push(response);
            },
        }
        i += 1;
    }
    assert(all.take(i as int) =~= all);
    Ok(out)
}

/// Appends copies of `shared` to `parameters`.
fn append_parameters(parameters: &mut Vec<RefOr<Parameter>>, shared: &Vec<RefOr<Parameter>>)
    ensures
        views(final(parameters)@) == views(old(parameters)@) + views(shared@),
{
    let mut i: usize = 0;
    assert(views(parameters@) =~= views(old(parameters)@) + views(shared@).take(0));
    while i < shared.len()
        invariant
            i <= shared@.len(),
            views(parameters@) == views(old(parameters)@) + views(shared@).take(i as int),
        decreases shared@.len() - i,
    {
        let copy = match &shared[i] {
            RefOr::Reference { reference } => RefOr::Reference { reference: reference.clone() },
            RefOr::Item(parameter) => RefOr::Item(parameter.copy()),
        };
        assert(copy@ == shared@[i as int]@);
        assert(views(parameters@.push(copy)) =~= views(parameters@).push(copy@));
        assert(views(shared@).take(i + 1) =~= views(shared@).take(i as int).push(copy@));
        assert(views(parameters@.push(copy)) =~= views(old(parameters)@) + views(shared@).take(
            i + 1,
        ));
        parameters.push(copy);
        i += 1;
    }
    assert(views(shared@).take(i as int) =~= views(shared@));
}

/// Resolves one operation: see [`resolve_operation`].
fn deref_operation(
    operation: &Operation,
    shared: &Vec<RefOr<Parameter>>,
    components: &Components,
) -> (resolved: Result<Operation, DerefError>)
    ensures
        match resolved {
            Ok(out) => resolve_operation(operation@, views(shared@), components@) == Ok::<
                _,
                DerefErrorView,
            >(out@),
            Err(error) => resolve_operation(operation@, views(shared@), components@) == Err::<
                OperationView,
                _,
            >(error@),
        },
{
    let mut parameters = match set_deref_all_params(&operation.parameters, components) {
        Err(error) => { return Err(error); },
        Ok(parameters) => parameters,
    };
    append_parameters(&mut parameters, shared);
    let request_body = match &operation.request_body {
        None => None,
        Some(slot) => match deref_body(slot, components) {
            Err(error) => { return Err(error); },
            Ok(body) => Some(body),
        },
    };
    let responses = match deref_responses(&operation.responses, components) {
        Err(error) => { return Err(error); },
        Ok(responses) => responses,
    };
    Ok(Operation { parameters, request_body, responses })
}

/// Resolves the operation of one method, where the route has one.
fn deref_optional_operation(
    operation: &Option<Operation>,
    shared: &Vec<RefOr<Parameter>>,
    components: &Components,
) -> (resolved: Result<Option<Operation>, DerefError>)
    ensures
        match resolved {
            Ok(out) => operation_resolver(views(shared@), components@)(option_view(*operation))
                == Ok::<_, DerefErrorView>(option_view(out)),
            Err(error) => operation_resolver(views(shared@), components@)(option_view(*operation))
                == Err::<Option<OperationView>, _>(error@),
        },
{
    match operation {
        None => Ok(None),
        Some(operation) => match deref_operation(operation, shared, components) {
            Err(error) => Err(error),
            Ok(resolved) => Ok(Some(resolved)),
        },
    }
}

/// Resolves everything under one route: the parameters that its operations
/// share, then each operation in the order delete, get, head, options, patch,
/// post, put, trace. Each resolved operation ends with copies of the shared
/// parameters, so that a later lookup reads one list.
pub fn deref_everything_in_path(path_item: &PathItem, components: &Components) -> (resolved: Result<
    PathItem,
    DerefError,
>)
    ensures
        match resolved {
            Ok(out) => resolve_path_item(path_item@, components@) == Ok::<_, DerefErrorView>(out@),
            Err(error) => resolve_path_item(path_item@, components@) == Err::<PathItemView, _>(
                error@,
            ),
        },
{
    let parameters = match set_deref_all_params(&path_item.parameters, components) {
        Err(error) => { return Err(error); },
        Ok(parameters) => parameters,
    };
    let ghost f = operation_resolver(views(parameters@), components@);
    let ghost all = path_item@.operations;
    proof {
        let e = Seq::<Option<OperationView>>::empty();
        assert(all =~= e.push(all[0]).push(all[1]).push(all[2]).push(all[3]).push(all[4]).push(
            all[5],
        ).push(all[6]).push(all[7]));
        lemma_traverse_push(e, all[0], f);
        lemma_traverse_push(e.push(all[0]), all[1], f);
        lemma_traverse_push(e.push(all[0]).push(all[1]), all[2], f);
        lemma_traverse_push(e.push(all[0]).push(all[1]).push(all[2]), all[3], f);
        lemma_traverse_push(e.push(all[0]).push(all[1]).push(all[2]).push(all[3]), all[4], f);
        lemma_traverse_push(
            e.push(all[0]).push(all[1]).push(all[2]).push(all[3]).push(all[4]),
            all[5],
            f,
        );
        lemma_traverse_push(
            e.push(all[0]).push(all[1]).push(all[2]).push(all[3]).push(all[4]).push(all[5]),
            all[6],
            f,
        );
        lemma_traverse_push(
            e.push(all[0]).push(all[1]).push(all[2]).push(all[3]).push(all[4]).push(all[5]).push(
                all[6],
            ),
            all[7],
            f,
        );
    }
    let delete = match deref_optional_operation(&path_item.delete, &parameters, components) {
        Err(error) => { return Err(error); },
        Ok(operation) => operation,
    };
    let get = match deref_optional_operation(&path_item.get, &parameters, components) {
        Err(error) => { return Err(error); },
        Ok(operation) => operation,
    };
    let head = match deref_optional_operation(&path_item.head, &parameters, components) {
        Err(error) => { return Err(error); },
        Ok(operation) => operation,
    };
    let options = match deref_optional_operation(&path_item.options, &parameters, components) {
        Err(error) => { return Err(error); },
        Ok(operation) => operation,
    };
    let patch = match deref_optional_operation(&path_item.patch, &parameters, components) {
        Err(error) => { return Err(error); },
        Ok(operation) => operation,
    };
    let post = match deref_optional_operation(&path_item.post, &parameters, components) {
        Err(error) => { return Err(error); },
        Ok(operation) => operation,
    };
    let put = match deref_optional_operation(&path_item.put, &parameters, components) {
        Err(error) => { return Err(error); },
        Ok(operation) => operation,
    };
    let trace = match deref_optional_operation(&path_item.trace, &parameters, components) {
        Err(error) => { return Err(error); },
        Ok(operation) => operation,
    };
    let out = PathItem { get, put, post, delete, options, head, patch, trace, parameters };
    proof {
        let e = Seq::<Option<OperationView>>::empty();
        let got = out@.operations;
        assert(got =~= e.push(got[0]).push(got[1]).push(got[2]).push(got[3]).push(got[4]).push(
            got[5],
        ).push(got[6]).push(got[7]));
    }
    Ok(out)
}

/// Resolves every reference that can be reached from a route of the
/// document: see [`resolve_document`]. The servers and the components are
/// handed on as they are.
pub fn deref_all(spec: Document) -> (resolved: Result<Document, DerefError>)
    ensures
        match resolved {
            Ok(out) => resolve_document(spec@) == Ok::<_, DerefErrorView>(out@)
                && document_resolved(out@),
            Err(error) => resolve_document(spec@) == Err::<DocumentView, _>(error@),
        },
{
    let none = Components::new();
    let components = match &spec.components {
        Some(components) => components,
        None => &none,
    };
    let ghost f = route_resolver(components@);
    let ghost all = views(spec.paths@);
    let mut paths: Vec<Route> = Vec::new();
    let mut i: usize = 0;
    assert(all.take(0) =~= Seq::empty());
    assert(views(paths@) =~= Seq::empty());
    while i < spec.paths.len()
        invariant
            i <= spec.paths@.len(),
            paths@.len() == i,
            all == views(spec.paths@),
            f == route_resolver(components@),
            components@ == components_of(spec@),
            traverse(all.take(i as int), f) == Ok::<_, DerefErrorView>(views(paths@)),
        decreases spec.paths@.len() - i,
    {
        proof {
            lemma_traverse_push(all.take(i as int), all[i as int], f);
            assert(all.take(i + 1) =~= all.take(i as int).push(all[i as int]));
        }
        let route = &spec.paths[i];
        match deref_everything_in_path(&route.item, components) {
            Err(error) => {
                proof {
                    lemma_traverse_prefix_error(all, i + 1, f);
                }
                return Err(error);
            },
            Ok(item) => {
                let resolved = Route { template: route.template.clone(), item };
                assert(views(paths@.push(resolved)) =~= views(paths@).push(resolved@));
                paths.push(resolved);
            },
        }
        i += 1;
    }
    assert(all.take(i as int) =~= all);
    components.schemas.names_are_finite();
    proof {
        assert(components@.schemas.dom() =~= components.schemas.names());
        lemma_resolution_complete(spec@);
    }
    Ok(Document { servers: spec.servers, paths, components: spec.components })
}

} // verus!
