use oas_middleware::deref_error::DerefError;
use oas_middleware::dereferer::{
    deref_all, deref_everything_in_path, deref_schema, find_reference, set_deref,
    set_deref_all_params, set_defer_schema_contents,
};
use oas_middleware::document::{
    Components, Document, Header, MediaType, NamedHeader, Operation, Parameter, ParameterData,
    ParameterSchemaOrContent, PathItem, RequestBody, Response, Route, Server, StatusCode,
    StatusResponse,
};
use oas_middleware::reference::{name_of_reference, to_item, to_item_mut, to_item_ref, RefOr};
use oas_middleware::schema::{
    copy_schema, AnySchema, ArrayType, IntegerFormat, IntegerType, ObjectType, Property, Schema,
    SchemaKind, StringFormat, StringType, Type,
};
use oas_middleware::table::ComponentTable;

fn reference<T>(name: &str) -> RefOr<T> {
    RefOr::Reference { reference: name.to_string() }
}

fn string_schema() -> Schema {
    Schema { schema_kind: SchemaKind::Type(Type::String(StringType { format: StringFormat::Empty })) }
}

fn integer_schema() -> Schema {
    Schema {
        schema_kind: SchemaKind::Type(Type::Integer(IntegerType {
            format: IntegerFormat::Int32,
            minimum: Some(1),
            maximum: None,
            exclusive_minimum: false,
            exclusive_maximum: false,
            enumeration: vec![1, 2],
        })),
    }
}

fn object_schema(properties: Vec<(&str, RefOr<Schema>)>) -> Schema {
    Schema {
        schema_kind: SchemaKind::Type(Type::Object(ObjectType {
            properties: properties
                .into_iter()
                .map(|(name, schema)| Property { name: name.to_string(), schema })
                .collect(),
        })),
    }
}

fn array_schema(items: RefOr<Schema>) -> Schema {
    Schema { schema_kind: SchemaKind::Type(Type::Array(ArrayType { items: Some(Box::new(items)) })) }
}

fn query_parameter(name: &str, schema: RefOr<Schema>) -> Parameter {
    Parameter::Query {
        parameter_data: ParameterData {
            name: name.to_string(),
            required: false,
            format: ParameterSchemaOrContent::Schema(schema),
        },
    }
}

fn empty_operation() -> Operation {
    Operation { parameters: Vec::new(), request_body: None, responses: Vec::new() }
}

fn empty_item() -> PathItem {
    PathItem {
        get: None,
        put: None,
        post: None,
        delete: None,
        options: None,
        head: None,
        patch: None,
        trace: None,
        parameters: Vec::new(),
    }
}

fn document(paths: Vec<(&str, PathItem)>, components: Option<Components>) -> Document {
    Document {
        servers: vec![Server { url: "http://localhost/".to_string(), variables: None }],
        paths: paths
            .into_iter()
            .map(|(template, item)| Route { template: template.to_string(), item })
            .collect(),
        components,
    }
}

fn has_reference(schema: &Schema) -> bool {
    fn slot(slot: &RefOr<Schema>) -> bool {
        match slot {
            RefOr::Reference { .. } => true,
            RefOr::Item(schema) => has_reference(schema),
        }
    }
    match &schema.schema_kind {
        SchemaKind::Type(Type::Object(object)) => object.properties.iter().any(|p| slot(&p.schema)),
        SchemaKind::Type(Type::Array(array)) => array.items.iter().any(|s| slot(s)),
        SchemaKind::Type(_) => false,
        SchemaKind::OneOf { one_of } => one_of.iter().any(slot),
        SchemaKind::AnyOf { any_of } => any_of.iter().any(slot),
        SchemaKind::AllOf { all_of } => all_of.iter().any(slot),
        SchemaKind::Not { not } => slot(not),
        SchemaKind::Any(any) => {
            any.properties.iter().any(|p| slot(&p.schema))
                || any.items.iter().any(|s| slot(s))
                || any.one_of.iter().any(slot)
                || any.any_of.iter().any(slot)
                || any.all_of.iter().any(slot)
        }
    }
}

fn show<T: std::fmt::Debug>(value: &T) -> String {
    format!("{:?}", value)
}

#[test]
fn reference_name_is_what_follows_the_last_slash() {
    assert_eq!(name_of_reference("#/components/schemas/Pet"), "Pet");
    assert_eq!(name_of_reference("Pet"), "Pet");
    assert_eq!(name_of_reference("a/b/"), "");
    assert_eq!(name_of_reference(""), "");
}

#[test]
fn items_are_taken_out_of_slots() {
    assert_eq!(to_item(RefOr::Item(3)), 3);
    assert_eq!(to_item_ref(&RefOr::Item(3)), &3);
    let mut slot = RefOr::Item(3);
    *to_item_mut(&mut slot) = 4;
    assert_eq!(to_item(slot), 4);
}

#[test]
fn table_keeps_what_was_put_last_under_a_name() {
    let table = ComponentTable::new()
        .insert("A".to_string(), RefOr::Item(1))
        .insert("B".to_string(), RefOr::Item(2))
        .insert("A".to_string(), RefOr::Item(3));
    assert!(matches!(table.get("A"), Some(RefOr::Item(3))));
    assert!(matches!(table.get("B"), Some(RefOr::Item(2))));
    assert!(table.get("C").is_none());
}

#[test]
fn reference_to_an_item_is_found() {
    let table = ComponentTable::new().insert("A".to_string(), RefOr::Item(7));
    let mut referred = vec!["X".to_string()];
    assert_eq!(find_reference("#/components/schemas/A", &table, &mut referred), Ok(&7));
    assert_eq!(referred, vec!["X".to_string(), "A".to_string()]);
}

#[test]
fn references_between_components_are_followed() {
    let table = ComponentTable::new()
        .insert("A".to_string(), reference("#/components/schemas/B"))
        .insert("B".to_string(), reference("#/components/schemas/C"))
        .insert("C".to_string(), RefOr::Item(7));
    let mut referred = Vec::new();
    assert_eq!(find_reference("#/components/schemas/A", &table, &mut referred), Ok(&7));
    assert_eq!(referred, vec!["A".to_string(), "B".to_string(), "C".to_string()]);
}

#[test]
fn missing_component_is_a_reference_error() {
    let table = ComponentTable::new().insert("A".to_string(), reference::<i32>("#/x/B"));
    let mut referred = Vec::new();
    assert_eq!(
        find_reference("#/x/A", &table, &mut referred),
        Err(DerefError::ReferenceError { name: "B".to_string() })
    );
    let mut referred = Vec::new();
    assert_eq!(
        find_reference("#/x/Z", &table, &mut referred),
        Err(DerefError::ReferenceError { name: "Z".to_string() })
    );
}

#[test]
fn chain_that_leads_back_is_a_cycle() {
    let table = ComponentTable::new()
        .insert("A".to_string(), reference::<i32>("#/x/B"))
        .insert("B".to_string(), reference::<i32>("#/x/A"));
    let mut referred = Vec::new();
    assert_eq!(
        find_reference("#/x/A", &table, &mut referred),
        Err(DerefError::CyclicReference { name: "A".to_string() })
    );
    let mut referred = Vec::new();
    assert_eq!(
        find_reference("#/x/B", &table, &mut referred),
        Err(DerefError::CyclicReference { name: "B".to_string() })
    );
}

#[test]
fn component_that_refers_to_itself_is_a_cycle() {
    let table = ComponentTable::new().insert("A".to_string(), reference::<i32>("#/x/A"));
    let mut referred = Vec::new();
    assert_eq!(
        find_reference("#/x/A", &table, &mut referred),
        Err(DerefError::CyclicReference { name: "A".to_string() })
    );
}

#[test]
fn name_that_is_being_resolved_is_a_cycle() {
    let table = ComponentTable::new().insert("A".to_string(), RefOr::Item(1));
    let mut referred = vec!["A".to_string()];
    assert_eq!(
        find_reference("#/x/A", &table, &mut referred),
        Err(DerefError::CyclicReference { name: "A".to_string() })
    );
}

#[test]
fn slot_with_an_item_needs_no_table() {
    let table: ComponentTable<i32> = ComponentTable::new();
    let mut referred = Vec::new();
    assert_eq!(set_deref(&RefOr::Item(5), &table, &mut referred), Ok(&5));
    assert!(referred.is_empty());
}

#[test]
fn nested_schemas_are_resolved() {
    let schemas = ComponentTable::new()
        .insert("Name".to_string(), RefOr::Item(string_schema()))
        .insert("Id".to_string(), RefOr::Item(integer_schema()))
        .insert("Ids".to_string(), RefOr::Item(array_schema(reference("#/components/schemas/Id"))));
    let pet = object_schema(vec![
        ("name", reference("#/components/schemas/Name")),
        ("ids", reference("#/components/schemas/Ids")),
        ("plain", RefOr::Item(string_schema())),
    ]);
    let resolved = deref_schema(&RefOr::Item(pet), &schemas, &Vec::new()).unwrap();
    let expected = object_schema(vec![
        ("name", RefOr::Item(string_schema())),
        ("ids", RefOr::Item(array_schema(RefOr::Item(integer_schema())))),
        ("plain", RefOr::Item(string_schema())),
    ]);
    assert_eq!(show(&resolved), show(&RefOr::Item(expected)));
}

#[test]
fn every_kind_of_schema_is_resolved() {
    let schemas = ComponentTable::new().insert("S".to_string(), RefOr::Item(string_schema()));
    let r = || reference::<Schema>("#/components/schemas/S");
    let s = || RefOr::Item(string_schema());
    let kinds: Vec<(SchemaKind, SchemaKind)> = vec![
        (SchemaKind::OneOf { one_of: vec![r(), s()] }, SchemaKind::OneOf { one_of: vec![s(), s()] }),
        (SchemaKind::AnyOf { any_of: vec![r()] }, SchemaKind::AnyOf { any_of: vec![s()] }),
        (SchemaKind::AllOf { all_of: vec![s(), r()] }, SchemaKind::AllOf { all_of: vec![s(), s()] }),
        (SchemaKind::Not { not: Box::new(r()) }, SchemaKind::Not { not: Box::new(s()) }),
        (
            SchemaKind::Any(AnySchema {
                properties: vec![Property { name: "p".to_string(), schema: r() }],
                items: Some(Box::new(r())),
                one_of: vec![r()],
                any_of: vec![r(), r()],
                all_of: vec![r()],
            }),
            SchemaKind::Any(AnySchema {
                properties: vec![Property { name: "p".to_string(), schema: s() }],
                items: Some(Box::new(s())),
                one_of: vec![s()],
                any_of: vec![s(), s()],
                all_of: vec![s()],
            }),
        ),
    ];
    for (before, after) in kinds {
        let resolved =
            deref_schema(&RefOr::Item(Schema { schema_kind: before }), &schemas, &Vec::new())
                .unwrap();
        assert_eq!(show(&resolved), show(&RefOr::Item(Schema { schema_kind: after })));
    }
}

#[test]
fn schema_that_nests_itself_is_a_cycle() {
    let node = object_schema(vec![("children", RefOr::Item(array_schema(reference("#/s/Node"))))]);
    let schemas = ComponentTable::new().insert("Node".to_string(), RefOr::Item(node));
    assert_eq!(
        deref_schema(&reference("#/s/Node"), &schemas, &Vec::new()).map(|_| ()),
        Err(DerefError::CyclicReference { name: "Node".to_string() })
    );
}

#[test]
fn same_component_may_be_used_side_by_side() {
    let schemas = ComponentTable::new()
        .insert("A".to_string(), reference("#/s/B"))
        .insert("B".to_string(), RefOr::Item(string_schema()));
    let both = object_schema(vec![("one", reference("#/s/A")), ("two", reference("#/s/A"))]);
    let resolved = deref_schema(&RefOr::Item(both), &schemas, &Vec::new()).unwrap();
    match resolved {
        RefOr::Item(schema) => assert!(!has_reference(&schema)),
        RefOr::Reference { .. } => panic!("still a reference"),
    }
}

fn nested(levels: usize) -> Schema {
    let mut schema = string_schema();
    for _ in 0..levels {
        schema = array_schema(RefOr::Item(schema));
    }
    schema
}

#[test]
fn nesting_of_any_depth_is_followed() {
    let schemas: ComponentTable<Schema> = ComponentTable::new();
    for levels in [0, 1, 10, 11, 40] {
        let resolved = deref_schema(&RefOr::Item(nested(levels)), &schemas, &Vec::new()).unwrap();
        assert_eq!(show(&resolved), show(&RefOr::Item(nested(levels))));
    }
}

#[test]
fn references_below_deep_nesting_are_resolved() {
    let schemas = ComponentTable::new().insert("Leaf".to_string(), RefOr::Item(string_schema()));
    let mut deep = array_schema(reference("#/components/schemas/Leaf"));
    let mut expected = array_schema(RefOr::Item(string_schema()));
    for _ in 0..15 {
        deep = array_schema(RefOr::Item(deep));
        expected = array_schema(RefOr::Item(expected));
    }
    let resolved = set_defer_schema_contents(&deep, &schemas, &Vec::new()).unwrap();
    assert_eq!(show(&resolved), show(&expected));
    assert!(!has_reference(&resolved));
}

#[test]
fn document_with_deep_inline_schema_resolves() {
    let mut item = empty_item();
    item.get = Some(empty_operation());
    item.parameters =
        vec![RefOr::Item(query_parameter("deep", RefOr::Item(nested(11))))];
    let resolved = deref_all(document(vec![("/deep", item)], None)).unwrap();
    assert_eq!(resolved.paths[0].item.get.as_ref().unwrap().parameters.len(), 1);
}

#[test]
fn chain_of_components_of_any_length_resolves() {
    let mut schemas = ComponentTable::new().insert("S0".to_string(), RefOr::Item(string_schema()));
    for i in 1..30 {
        schemas = schemas.insert(
            format!("S{}", i),
            RefOr::Item(array_schema(reference(&format!("#/components/schemas/S{}", i - 1)))),
        );
    }
    let resolved =
        deref_schema(&reference("#/components/schemas/S29"), &schemas, &Vec::new()).unwrap();
    assert_eq!(show(&resolved), show(&RefOr::Item(nested(29))));
}

#[test]
fn copy_of_a_schema_is_the_same_schema() {
    let schema = object_schema(vec![
        ("a", reference("#/s/A")),
        ("b", RefOr::Item(array_schema(RefOr::Item(integer_schema())))),
    ]);
    assert_eq!(show(&copy_schema(&schema)), show(&schema));
}

fn components() -> Components {
    let mut components = Components::new();
    components.schemas = ComponentTable::new()
        .insert("Id".to_string(), RefOr::Item(integer_schema()))
        .insert("Pet".to_string(), RefOr::Item(object_schema(vec![("id", reference("#/components/schemas/Id"))])));
    components.parameters = ComponentTable::new()
        .insert("limit".to_string(), RefOr::Item(query_parameter("limit", reference("#/components/schemas/Id"))))
        .insert("alias".to_string(), reference("#/components/parameters/limit"));
    components.request_bodies = ComponentTable::new().insert(
        "PetBody".to_string(),
        RefOr::Item(RequestBody {
            required: true,
            content: vec![MediaType {
                name: "application/json".to_string(),
                schema: Some(reference("#/components/schemas/Pet")),
            }],
        }),
    );
    components.headers = ComponentTable::new().insert(
        "Rate".to_string(),
        RefOr::Item(Header { required: false, description: "calls left".to_string() }),
    );
    components.responses = ComponentTable::new().insert(
        "PetResponse".to_string(),
        RefOr::Item(Response {
            description: "a pet".to_string(),
            headers: vec![NamedHeader {
                name: "X-Rate".to_string(),
                header: reference("#/components/headers/Rate"),
            }],
            content: vec![
                MediaType {
                    name: "application/json".to_string(),
                    schema: Some(reference("#/components/schemas/Pet")),
                },
                MediaType { name: "text/plain".to_string(), schema: None },
            ],
        }),
    );
    components
}

fn referring_item() -> PathItem {
    let mut get = empty_operation();
    get.parameters = vec![
        reference("#/components/parameters/alias"),
        RefOr::Item(query_parameter("own", RefOr::Item(string_schema()))),
    ];
    get.request_body = Some(reference("#/components/requestBodies/PetBody"));
    get.responses = vec![StatusResponse {
        status: StatusCode::Code(200),
        response: reference("#/components/responses/PetResponse"),
    }];
    let mut item = empty_item();
    item.get = Some(get);
    item.post = Some(empty_operation());
    item.parameters = vec![RefOr::Item(query_parameter("shared", reference("#/components/schemas/Id")))];
    item
}

fn resolved_item() -> PathItem {
    let pet = || RefOr::Item(object_schema(vec![("id", RefOr::Item(integer_schema()))]));
    let shared = || RefOr::Item(query_parameter("shared", RefOr::Item(integer_schema())));
    let mut get = empty_operation();
    get.parameters = vec![
        RefOr::Item(query_parameter("limit", RefOr::Item(integer_schema()))),
        RefOr::Item(query_parameter("own", RefOr::Item(string_schema()))),
        shared(),
    ];
    get.request_body = Some(RefOr::Item(RequestBody {
        required: true,
        content: vec![MediaType { name: "application/json".to_string(), schema: Some(pet()) }],
    }));
    get.responses = vec![StatusResponse {
        status: StatusCode::Code(200),
        response: RefOr::Item(Response {
            description: "a pet".to_string(),
            headers: vec![NamedHeader {
                name: "X-Rate".to_string(),
                header: RefOr::Item(Header {
                    required: false,
                    description: "calls left".to_string(),
                }),
            }],
            content: vec![
                MediaType { name: "application/json".to_string(), schema: Some(pet()) },
                MediaType { name: "text/plain".to_string(), schema: None },
            ],
        }),
    }];
    let mut post = empty_operation();
    post.parameters = vec![shared()];
    let mut item = empty_item();
    item.get = Some(get);
    item.post = Some(post);
    item.parameters = vec![shared()];
    item
}

#[test]
fn everything_under_a_route_is_resolved() {
    let resolved = deref_everything_in_path(&referring_item(), &components()).unwrap();
    assert_eq!(show(&resolved), show(&resolved_item()));
}

#[test]
fn document_is_resolved_route_by_route() {
    let resolved =
        deref_all(document(vec![("/pets", referring_item()), ("/none", empty_item())], Some(components())))
            .unwrap();
    assert_eq!(resolved.paths.len(), 2);
    assert_eq!(resolved.paths[0].template, "/pets");
    assert_eq!(show(&resolved.paths[0].item), show(&resolved_item()));
    assert_eq!(show(&resolved.paths[1].item), show(&empty_item()));
    assert_eq!(resolved.servers.len(), 1);
    assert!(resolved.components.is_some());
    assert!(!show(&resolved.paths).contains("Reference"));
}

#[test]
fn resolving_twice_changes_nothing_without_shared_parameters() {
    let mut item = referring_item();
    item.parameters = Vec::new();
    let once = deref_all(document(vec![("/pets", item)], Some(components()))).unwrap();
    let shown = show(&once.paths);
    let twice = deref_all(once).unwrap();
    assert_eq!(show(&twice.paths), shown);
}

#[test]
fn resolving_twice_changes_nothing_where_shared_parameters_meet_no_operation() {
    let mut item = empty_item();
    item.parameters = vec![reference("#/components/parameters/alias")];
    let once = deref_all(document(vec![("/pets", item)], Some(components()))).unwrap();
    let shown = show(&once.paths);
    assert_eq!(once.paths[0].item.parameters.len(), 1);
    let twice = deref_all(once).unwrap();
    assert_eq!(show(&twice.paths), shown);
}

#[test]
fn resolving_twice_copies_shared_parameters_again() {
    let once = deref_all(document(vec![("/pets", referring_item())], Some(components()))).unwrap();
    let first = once.paths[0].item.post.as_ref().unwrap().parameters.len();
    let twice = deref_all(once).unwrap();
    let second = twice.paths[0].item.post.as_ref().unwrap().parameters.len();
    assert_eq!(first, 1);
    assert_eq!(second, 2);
}

#[test]
fn reference_without_components_fails() {
    let mut item = empty_item();
    let mut get = empty_operation();
    get.parameters = vec![reference("#/components/parameters/limit")];
    item.get = Some(get);
    assert_eq!(
        deref_all(document(vec![("/pets", item)], None)).map(|_| ()),
        Err(DerefError::ReferenceError { name: "limit".to_string() })
    );
}

#[test]
fn document_without_references_needs_no_components() {
    let mut item = empty_item();
    let mut get = empty_operation();
    get.parameters = vec![RefOr::Item(query_parameter("q", RefOr::Item(string_schema())))];
    item.get = Some(get);
    let shown = show(&item);
    let resolved = deref_all(document(vec![("/pets", item)], None)).unwrap();
    assert_eq!(show(&resolved.paths[0].item), shown);
}

#[test]
fn first_failure_in_document_order_is_reported() {
    let mut first = empty_item();
    let mut delete = empty_operation();
    delete.parameters = vec![reference("#/p/missing_in_delete")];
    let mut get = empty_operation();
    get.parameters = vec![reference("#/p/missing_in_get")];
    first.get = Some(get);
    first.delete = Some(delete);
    let mut second = empty_item();
    second.parameters = vec![reference("#/p/missing_in_second")];
    assert_eq!(
        deref_all(document(vec![("/a", first), ("/b", second)], Some(Components::new()))).map(|_| ()),
        Err(DerefError::ReferenceError { name: "missing_in_delete".to_string() })
    );
}

#[test]
fn cycle_among_parameters_fails_the_document() {
    let mut components = Components::new();
    components.parameters = ComponentTable::new()
        .insert("A".to_string(), reference("#/components/parameters/B"))
        .insert("B".to_string(), reference("#/components/parameters/A"));
    let mut item = empty_item();
    item.parameters = vec![reference("#/components/parameters/A")];
    assert_eq!(
        deref_all(document(vec![("/a", item)], Some(components))).map(|_| ()),
        Err(DerefError::CyclicReference { name: "A".to_string() })
    );
}

#[test]
fn parameters_are_resolved_in_order() {
    let resolved = set_deref_all_params(
        &vec![
            reference("#/components/parameters/limit"),
            RefOr::Item(query_parameter("own", RefOr::Item(string_schema()))),
        ],
        &components(),
    )
    .unwrap();
    assert_eq!(
        show(&resolved),
        show(&vec![
            RefOr::Item(query_parameter("limit", RefOr::Item(integer_schema()))),
            RefOr::Item(query_parameter("own", RefOr::Item(string_schema()))),
        ])
    );
}

#[test]
fn deref_errors_in_words() {
    let missing = DerefError::ReferenceError { name: "Pet".to_string() };
    assert_eq!(missing.message(), "The reference Pet could not be dereferenced");
    assert_eq!(
        missing.description(),
        "It was not possible to resolve all references in the file."
    );
    assert_eq!(
        DerefError::CyclicReference { name: "Pet".to_string() }.message(),
        "The reference Pet refers back to itself"
    );
}
