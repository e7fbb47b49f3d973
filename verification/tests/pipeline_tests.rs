use oas_middleware::deref_error::DerefError;
use oas_middleware::document::{
    Components, Document, Location, MediaType, Operation, Parameter, ParameterData,
    ParameterSchemaOrContent, PathItem, Response, Route, Server, StatusCode, StatusResponse,
};
use oas_middleware::error::{Category, E};
use oas_middleware::middleware::{refusal, Decision, Diagnostic, OASMiddleware};
use oas_middleware::parts::OpenAPIParts;
use oas_middleware::path_finder::PathFinder;
use oas_middleware::reference::RefOr;
use oas_middleware::request::{Attribute, RequestParts};
use oas_middleware::schema::{
    IntegerFormat, IntegerType, Schema, SchemaKind, StringFormat, StringType, Type,
};
use oas_middleware::spec_utils::{
    is_used, operation_list, path_to_operation, used, Method, UsageMark, UsageTable,
};
use oas_middleware::table::ComponentTable;
use oas_middleware::usage_report::{usage_summary, UsedMethod, UsedParam, UsedRoute};
use oas_middleware::validator::{
    check_format, find_param, validate, validate_variables, Failure,
};

fn schema(the_type: Type) -> RefOr<Schema> {
    RefOr::Item(Schema { schema_kind: SchemaKind::Type(the_type) })
}

fn int32_from_one() -> Type {
    Type::Integer(IntegerType {
        format: IntegerFormat::Int32,
        minimum: Some(1),
        maximum: None,
        exclusive_minimum: false,
        exclusive_maximum: false,
        enumeration: Vec::new(),
    })
}

fn data(name: &str, required: bool, schema: RefOr<Schema>) -> ParameterData {
    ParameterData {
        name: name.to_string(),
        required,
        format: ParameterSchemaOrContent::Schema(schema),
    }
}

fn operation(parameters: Vec<RefOr<Parameter>>) -> Operation {
    Operation { parameters, request_body: None, responses: Vec::new() }
}

fn empty_item() -> PathItem {
    PathItem {
        get: None,
        put: None,
        post: None,
        delete: None,
        options: None,
        head: None,
        patch: None,
        trace: None,
        parameters: Vec::new(),
    }
}

fn items_operation() -> Operation {
    operation(vec![
        RefOr::Item(Parameter::Path { parameter_data: data("id", true, schema(int32_from_one())) }),
        RefOr::Item(Parameter::Query {
            parameter_data: data("active", false, schema(Type::Boolean)),
        }),
    ])
}

fn items_document() -> Document {
    let mut item = empty_item();
    item.get = Some(items_operation());
    Document {
        servers: vec![Server { url: "http://localhost:3000".to_string(), variables: None }],
        paths: vec![Route { template: "/items/{id}".to_string(), item }],
        components: None,
    }
}

fn middleware() -> OASMiddleware {
    OASMiddleware::new(items_document()).unwrap()
}

fn mark(parameter: Option<usize>) -> UsageMark {
    UsageMark { route: 0, method: Method::Get, parameter }
}

fn texts(list: &[&str]) -> Vec<String> {
    list.iter().map(|text| text.to_string()).collect()
}

#[test]
fn request_that_agrees_is_passed_on() {
    let decision = middleware().before_request(&Method::Get, "/items/42", &Some("active=true"));
    assert_eq!(decision, Decision::Forward { used: vec![mark(None), mark(Some(0)), mark(Some(1))] });
}

#[test]
fn request_without_query_is_passed_on() {
    let decision = middleware().before_request(&Method::Get, "/items/42", &None);
    assert_eq!(decision, Decision::Forward { used: vec![mark(None), mark(Some(0))] });
}

#[test]
fn value_below_the_minimum_is_refused() {
    let decision = middleware().before_request(&Method::Get, "/items/0", &Some("active=true"));
    assert_eq!(
        decision,
        Decision::Reject {
            diagnostic: Diagnostic {
                failed_url: "/items/0".to_string(),
                causes: texts(&[
                    "Failed validation of request variables.",
                    "Failure in a path variable.",
                    "The contract specifies `id` to have a minimum of 1 but got 0.",
                ]),
                category: Category::ContractViolated,
            },
            used: vec![mark(None), mark(Some(0)), mark(Some(1))],
        }
    );
}

#[test]
fn value_of_the_wrong_type_is_refused() {
    let decision = middleware().before_request(&Method::Get, "/items/42", &Some("active=maybe"));
    assert_eq!(
        decision,
        Decision::Reject {
            diagnostic: Diagnostic {
                failed_url: "/items/42".to_string(),
                causes: texts(&[
                    "Failed validation of request variables.",
                    "Failure in a query parameter.",
                    "The contract specifies `active` as boolean but got `maybe`.",
                ]),
                category: Category::ContractViolated,
            },
            used: vec![mark(None), mark(Some(0)), mark(Some(1))],
        }
    );
}

#[test]
fn path_that_is_not_described_is_refused() {
    let decision = middleware().before_request(&Method::Get, "/unknown/42", &None);
    assert_eq!(
        decision,
        Decision::Reject {
            diagnostic: Diagnostic {
                failed_url: "/unknown/42".to_string(),
                causes: texts(&["The path `/unknown/42` is not described in the OpenAPI file."]),
                category: Category::PathNotDescribed,
            },
            used: Vec::new(),
        }
    );
}

#[test]
fn method_that_is_not_described_is_refused() {
    let decision = middleware().before_request(&Method::Post, "/items/42", &None);
    assert_eq!(
        decision,
        refusal("/items/42", &E::MethodError("POST".to_string()))
    );
    match decision {
        Decision::Reject { diagnostic, used } => {
            assert_eq!(diagnostic.category, Category::MethodNotDescribed);
            assert_eq!(
                diagnostic.causes,
                texts(&["The method `POST` is not described in the OpenAPI file."])
            );
            assert!(used.is_empty());
        }
        other => panic!("{:?}", other),
    }
}

#[test]
fn parameter_that_is_not_described_is_refused() {
    let decision = middleware().before_request(&Method::Get, "/items/42", &Some("colour=red"));
    match decision {
        Decision::Reject { diagnostic, used } => {
            assert_eq!(diagnostic.category, Category::ParameterNotDescribed);
            assert_eq!(
                diagnostic.causes,
                texts(&[
                    "Failed validation of request variables.",
                    "Failure in a query parameter.",
                    "The parameter `colour` is not described in the OpenAPI file.",
                ])
            );
            assert_eq!(used, vec![mark(None), mark(Some(0))]);
        }
        other => panic!("{:?}", other),
    }
}

#[test]
fn both_groups_are_checked_and_reported() {
    let decision =
        middleware().before_request(&Method::Get, "/items/abc", &Some("active=maybe&active=true"));
    match decision {
        Decision::Reject { diagnostic, used } => {
            assert_eq!(
                diagnostic.causes,
                texts(&[
                    "Failed validation of request variables.",
                    "Failure in a path variable.",
                    "The contract specifies `id` as integer int32 but got `abc`.",
                    "Failure in a query parameter.",
                    "The contract specifies `active` as boolean but got `maybe`.",
                ])
            );
            assert_eq!(diagnostic.category, Category::ContractViolated);
            assert_eq!(used, vec![mark(None), mark(Some(0)), mark(Some(1))]);
        }
        other => panic!("{:?}", other),
    }
}

#[test]
fn every_occurrence_of_a_repeated_query_name_is_checked() {
    let passed = middleware().before_request(&Method::Get, "/items/1", &Some("active=true&active=false"));
    assert!(matches!(passed, Decision::Forward { .. }));
    let failed = middleware().before_request(&Method::Get, "/items/1", &Some("active=true&active=no"));
    assert!(matches!(failed, Decision::Reject { .. }));
}

#[test]
fn report_is_asked_for_by_its_path() {
    assert_eq!(middleware().before_request(&Method::Get, "/report", &None), Decision::Report);
    assert_eq!(OASMiddleware::name(), "OpenAPI Validator Middleware");
}

#[test]
fn description_that_cannot_be_resolved_is_refused() {
    let mut document = items_document();
    document.paths[0].item.parameters =
        vec![RefOr::Reference { reference: "#/components/parameters/none".to_string() }];
    assert_eq!(
        OASMiddleware::new(document).map(|_| ()),
        Err(DerefError::ReferenceError { name: "none".to_string() })
    );
}

#[test]
fn references_in_parameters_are_resolved_before_requests_are_checked() {
    let mut components = Components::new();
    components.schemas = ComponentTable::new().insert("Id".to_string(), schema(int32_from_one()));
    components.parameters = ComponentTable::new().insert(
        "id".to_string(),
        RefOr::Item(Parameter::Path {
            parameter_data: data(
                "id",
                true,
                RefOr::Reference { reference: "#/components/schemas/Id".to_string() },
            ),
        }),
    );
    let mut item = empty_item();
    item.get = Some(operation(Vec::new()));
    item.parameters = vec![RefOr::Reference { reference: "#/components/parameters/id".to_string() }];
    let document = Document {
        servers: vec![Server { url: "http://localhost/base/".to_string(), variables: None }],
        paths: vec![Route { template: "/items/{id}".to_string(), item }],
        components: Some(components),
    };
    let middleware = OASMiddleware::new(document).unwrap();
    assert!(matches!(
        middleware.before_request(&Method::Get, "/base/items/7", &None),
        Decision::Forward { .. }
    ));
    assert!(matches!(
        middleware.before_request(&Method::Get, "/base/items/0", &None),
        Decision::Reject { .. }
    ));
    assert!(matches!(
        middleware.before_request(&Method::Get, "/items/7", &None),
        Decision::Reject { .. }
    ));
}

#[test]
fn operation_is_found_by_method() {
    let mut item = empty_item();
    item.get = Some(items_operation());
    item.delete = Some(operation(Vec::new()));
    assert_eq!(path_to_operation(&item, &Method::Get).unwrap().parameters.len(), 2);
    assert_eq!(path_to_operation(&item, &Method::Delete).unwrap().parameters.len(), 0);
    for method in [Method::Head, Method::Options, Method::Patch, Method::Post, Method::Put] {
        assert_eq!(
            path_to_operation(&item, &method).map(|_| ()),
            Err(E::MethodError(method.text().to_string()))
        );
    }
    assert!(OpenAPIParts::new(&item, &Method::Get).is_ok());
    assert_eq!(
        OpenAPIParts::new(&item, &Method::Put).map(|_| ()),
        Err(E::MethodError("PUT".to_string()))
    );
}

#[test]
fn operations_are_listed_in_a_fixed_order() {
    let mut item = empty_item();
    item.put = Some(operation(Vec::new()));
    item.get = Some(items_operation());
    item.trace = Some(operation(Vec::new()));
    item.delete = Some(operation(Vec::new()));
    let listed: Vec<Method> = operation_list(&item).into_iter().map(|(method, _)| method).collect();
    assert_eq!(listed, vec![Method::Delete, Method::Get, Method::Put]);
    assert_eq!(operation_list(&empty_item()).len(), 0);
    assert_eq!(Method::Options.key(), "options");
    assert_eq!(Method::Options.text(), "OPTIONS");
}

#[test]
fn parameter_is_found_by_name() {
    let mut operation = items_operation();
    operation.parameters.insert(0, RefOr::Reference { reference: "#/p/active".to_string() });
    operation.parameters.push(RefOr::Item(Parameter::Header {
        parameter_data: data("active", false, schema(int32_from_one())),
    }));
    let (place, found) = find_param(&operation, "active").unwrap();
    assert_eq!(place, 2);
    assert_eq!(found.name, "active");
    assert!(matches!(found.format, ParameterSchemaOrContent::Schema(RefOr::Item(_))));
    assert_eq!(
        find_param(&operation, "missing").map(|_| ()),
        Err(E::ParamError("missing".to_string()))
    );
}

#[test]
fn only_schemas_with_a_type_are_checked() {
    let value = Attribute::new("p", "1");
    let content = ParameterData {
        name: "p".to_string(),
        required: false,
        format: ParameterSchemaOrContent::Content,
    };
    assert_eq!(
        check_format(&content, &value),
        Err(E::FunctionalityNotsupported(
            "Parameters described by content are not supported".to_string()
        ))
    );
    let referring = data("p", false, RefOr::Reference { reference: "#/s/X".to_string() });
    assert_eq!(
        check_format(&referring, &value),
        Err(E::FunctionalityNotsupported(
            "References inside schemas are not supported".to_string()
        ))
    );
    let one_of = data(
        "p",
        false,
        RefOr::Item(Schema { schema_kind: SchemaKind::OneOf { one_of: Vec::new() } }),
    );
    assert_eq!(
        check_format(&one_of, &value),
        Err(E::FunctionalityNotsupported("OneOf not supported".to_string()))
    );
    assert_eq!(check_format(&data("p", false, schema(int32_from_one())), &value), Ok(()));
}

#[test]
fn group_stops_at_its_first_failure() {
    let operation = items_operation();
    let variables = vec![
        Attribute::new("id", "5"),
        Attribute::new("active", "no"),
        Attribute::new("id", "0"),
    ];
    let mut used = vec![9];
    assert_eq!(
        validate_variables(&variables, &operation, &mut used),
        Err(E::TypeError {
            expected_type: "boolean".to_string(),
            param_name: "active".to_string(),
            param_value: "no".to_string(),
        })
    );
    assert_eq!(used, vec![9, 0, 1]);
}

#[test]
fn validation_keeps_the_failure_of_each_group() {
    let operation = items_operation();
    let parts = OpenAPIParts { operation: &operation };
    let request = RequestParts {
        path_variables: vec![Attribute::new("id", "0")],
        query_variables: vec![Attribute::new("other", "x")],
    };
    let mut used = Vec::new();
    let failure = validate(&parts, &request, &mut used).unwrap_err();
    assert_eq!(
        failure,
        Failure {
            path: Some(E::ValueLimit {
                param_name: "id".to_string(),
                limit_name: "minimum".to_string(),
                limit_value: "1".to_string(),
                param_value: "0".to_string(),
            }),
            query: Some(E::ParamError("other".to_string())),
        }
    );
    assert_eq!(failure.category(), Category::ContractViolated);
    assert_eq!(failure.causes().len(), 5);
    assert_eq!(used, vec![0]);
    let only_query = Failure { path: None, query: Some(E::ParamError("other".to_string())) };
    assert_eq!(only_query.category(), Category::ParameterNotDescribed);
    assert_eq!(
        only_query.causes(),
        texts(&[
            "Failed validation of request variables.",
            "Failure in a query parameter.",
            "The parameter `other` is not described in the OpenAPI file.",
        ])
    );
}

#[test]
fn uses_are_kept_once() {
    let mut table = UsageTable::new();
    assert!(!is_used(&table, &mark(None)));
    used(&mut table, mark(None));
    used(&mut table, mark(Some(1)));
    used(&mut table, mark(None));
    assert!(is_used(&table, &mark(None)));
    assert!(is_used(&table, &mark(Some(1))));
    assert!(!is_used(&table, &mark(Some(0))));
    assert!(!is_used(&table, &UsageMark { route: 1, method: Method::Get, parameter: None }));
    assert!(!is_used(&table, &UsageMark { route: 0, method: Method::Put, parameter: None }));
    assert_eq!(table.marks.len(), 2);
}

#[test]
fn summary_lists_routes_operations_and_parameters() {
    let mut item = empty_item();
    item.get = Some(items_operation());
    item.delete = Some(operation(vec![RefOr::Reference { reference: "#/p/x".to_string() }]));
    let finder = PathFinder::with_base(
        Document {
            servers: Vec::new(),
            paths: vec![
                Route { template: "/items/{id}".to_string(), item },
                Route { template: "/none".to_string(), item: empty_item() },
            ],
            components: None,
        },
        "/v1",
    );
    let mut table = UsageTable::new();
    used(&mut table, mark(None));
    used(&mut table, mark(Some(1)));
    let summary = usage_summary(&finder, &table);
    assert_eq!(
        summary.spec,
        vec![
            UsedRoute {
                route: "/v1/items/{id}".to_string(),
                methods: vec![
                    UsedMethod { used: false, method: "delete".to_string(), parameters: Vec::new() },
                    UsedMethod {
                        used: true,
                        method: "get".to_string(),
                        parameters: vec![
                            UsedParam {
                                used: false,
                                name: "id".to_string(),
                                location: "path".to_string(),
                            },
                            UsedParam {
                                used: true,
                                name: "active".to_string(),
                                location: "query".to_string(),
                            },
                        ],
                    },
                ],
            },
            UsedRoute { route: "/v1/none".to_string(), methods: Vec::new() },
        ]
    );
}

#[test]
fn accessors_of_operations_and_parameters() {
    let mut operation = items_operation();
    operation.parameters.push(RefOr::Reference { reference: "#/p/x".to_string() });
    operation.responses = vec![
        StatusResponse {
            status: StatusCode::Range(2),
            response: RefOr::Item(Response {
                description: "any success".to_string(),
                headers: Vec::new(),
                content: Vec::new(),
            }),
        },
        StatusResponse {
            status: StatusCode::Code(200),
            response: RefOr::Item(Response {
                description: "ok".to_string(),
                headers: Vec::new(),
                content: vec![
                    MediaType { name: "text/plain".to_string(), schema: None },
                    MediaType {
                        name: "application/json".to_string(),
                        schema: Some(schema(Type::Boolean)),
                    },
                ],
            }),
        },
        StatusResponse {
            status: StatusCode::Code(404),
            response: RefOr::Reference { reference: "#/r/NotFound".to_string() },
        },
    ];
    let required: Vec<&str> = operation.required_parameters().iter().map(|p| p.name()).collect();
    let optional: Vec<&str> = operation.optional_parameters().iter().map(|p| p.name()).collect();
    assert_eq!(required, vec!["id"]);
    assert_eq!(optional, vec!["active"]);
    let ok = operation.response(200).unwrap();
    assert_eq!(ok.description, "ok");
    assert!(ok.json_schema().unwrap().is_type_defined());
    assert!(ok.json_schema().unwrap().get_type().is_bool());
    assert!(operation.response(404).is_none());
    assert!(operation.response(201).is_none());
    assert!(operation.response(2).is_none());
    match &mut operation.parameters[0] {
        RefOr::Item(parameter) => {
            assert_eq!(parameter.location_string(), "path");
            assert_eq!(parameter.copy().name(), "id");
            assert!(parameter.parameter_data().is_type_defined());
            assert!(parameter.parameter_data().get_type().is_integer());
            assert!(parameter.parameter_data().format.has_item());
            parameter.parameter_data_mut().required = false;
            assert!(!parameter.parameter_data().required);
        }
        RefOr::Reference { .. } => panic!("a reference"),
    }
    assert_eq!(Location::Cookie, Location::Cookie);
    let text = Type::String(StringType { format: StringFormat::Date });
    assert!(text.is_string() && !text.is_number() && !text.is_bool() && !text.is_integer());
}
