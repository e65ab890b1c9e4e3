use geoengine::api::examples::{
    can_run_examples, check_for_deserialization_error, get_default_parameter_value,
    insert_parameters, resolve_schema, ExampleError, ExampleStep, RunnableExample,
};
use geoengine::api::openapi::{
    ArraySchema, Components, Content, Example, ObjectSchema, OpenApi, Operation, Parameter,
    PathItem, PathItemType, Ref, RefOr, RequestBody, Response, Schema, SchemaFormat, SchemaType,
};
use geoengine::api::resolve::{
    can_resolve_api, can_resolve_schema, get_schema_name_from_ref, throw_if_invalid_ref,
    ResolveError,
};
use geoengine::util::string_map::StringMap;

fn default_schema() -> Schema {
    Schema::Object(ObjectSchema {
        schema_type: SchemaType::Object,
        format: None,
        properties: vec![],
        additional_properties: None,
    })
}

fn value_schema(schema_type: SchemaType, format: Option<SchemaFormat>) -> Schema {
    Schema::Object(ObjectSchema {
        schema_type,
        format,
        properties: vec![],
        additional_properties: None,
    })
}

fn reference(name: &str) -> RefOr<Schema> {
    RefOr::Ref(Ref::from_schema_name(name))
}

fn schemas(names: &[&str]) -> StringMap<RefOr<Schema>> {
    let mut schemas = StringMap::new();
    for name in names {
        schemas.insert(name.to_string(), RefOr::T(default_schema()));
    }
    schemas
}

fn content(schema: RefOr<Schema>) -> Content<String> {
    Content {
        schema,
        example: None,
        examples: vec![],
    }
}

fn operation() -> Operation<String> {
    Operation {
        request_body: None,
        parameters: None,
        responses: vec![],
        has_security: false,
    }
}

fn api(operation: Operation<String>) -> OpenApi<String> {
    OpenApi {
        paths: vec![(
            "asdf".to_string(),
            PathItem {
                operations: vec![(PathItemType::Post, operation)],
            },
        )],
        components: Some(Components {
            schemas: schemas(&["Schema1", "Schema2", "Schema3"]),
        }),
    }
}

fn parameter(schema: RefOr<Schema>) -> Parameter {
    Parameter {
        name: String::new(),
        schema: Some(schema),
    }
}

fn request_body(schema: RefOr<Schema>) -> RequestBody<String> {
    RequestBody {
        content: vec![("application/json".to_string(), content(schema))],
    }
}

fn response(schema: RefOr<Schema>) -> (String, RefOr<Response<String>>) {
    (
        "200".to_string(),
        RefOr::T(Response {
            content: vec![("application/json".to_string(), content(schema))],
        }),
    )
}

/// Fails with the message of the error.
fn expect_resolved(result: Result<(), ResolveError>) {
    if let Err(error) = result {
        panic!("{}", error.message());
    }
}

#[test]
#[should_panic(expected = "MissingSchema")]
fn throws_because_of_invalid_ref() {
    expect_resolved(throw_if_invalid_ref(
        &Ref::from_schema_name("MissingSchema"),
        &StringMap::new(),
    ));
}

#[test]
fn finds_ref() {
    expect_resolved(throw_if_invalid_ref(
        &Ref::from_schema_name("ExistingSchema"),
        &schemas(&["ExistingSchema"]),
    ));
}

#[test]
#[should_panic(expected = "MissingSchema")]
fn detects_missing_array_ref() {
    expect_resolved(can_resolve_schema(
        &RefOr::T(Schema::Array(ArraySchema {
            items: Box::new(reference("MissingSchema")),
        })),
        &StringMap::new(),
    ));
}

#[test]
#[should_panic(expected = "MissingSchema")]
fn detects_missing_object_ref() {
    expect_resolved(can_resolve_schema(
        &RefOr::T(Schema::Object(ObjectSchema {
            schema_type: SchemaType::Object,
            format: None,
            properties: vec![("Prop".to_string(), reference("MissingSchema"))],
            additional_properties: None,
        })),
        &StringMap::new(),
    ));
}

#[test]
#[should_panic(expected = "MissingSchema")]
fn detects_missing_oneof_ref() {
    expect_resolved(can_resolve_schema(
        &RefOr::T(Schema::OneOf(vec![reference("MissingSchema")])),
        &StringMap::new(),
    ));
}

#[test]
#[should_panic(expected = "MissingSchema")]
fn detects_missing_allof_ref() {
    expect_resolved(can_resolve_schema(
        &RefOr::T(Schema::AllOf(vec![reference("MissingSchema")])),
        &StringMap::new(),
    ));
}

#[test]
fn successfull_api_validation() {
    expect_resolved(can_resolve_api(&api(Operation {
        parameters: Some(vec![parameter(reference("Schema1"))]),
        request_body: Some(request_body(reference("Schema2"))),
        responses: vec![response(reference("Schema3"))],
        ..operation()
    })));
}

#[test]
#[should_panic(expected = "MissingSchema")]
fn detect_unresolvable_request_body() {
    expect_resolved(can_resolve_api(&api(Operation {
        request_body: Some(request_body(reference("MissingSchema"))),
        ..operation()
    })));
}

#[test]
#[should_panic(expected = "MissingSchema")]
fn detect_unresolvable_parameter() {
    expect_resolved(can_resolve_api(&api(Operation {
        parameters: Some(vec![parameter(reference("MissingSchema"))]),
        ..operation()
    })));
}

#[test]
#[should_panic(expected = "MissingSchema")]
fn detect_unresolvable_response() {
    expect_resolved(can_resolve_api(&api(Operation {
        responses: vec![response(reference("MissingSchema"))],
        ..operation()
    })));
}

#[test]
fn the_message_names_the_missing_schema() {
    let error = throw_if_invalid_ref(&Ref::from_schema_name("A"), &schemas(&["B"])).unwrap_err();
    assert_eq!(
        error.message(),
        "Referenced the unknown schema `#/components/schemas/A`"
    );
}

#[test]
fn references_have_the_names_that_they_were_made_of() {
    for name in ["A", "", "with/slash", "ä"] {
        let reference = Ref::from_schema_name(name);
        assert_eq!(get_schema_name_from_ref(&reference), Some(name));
    }
}

#[test]
fn a_short_reference_is_malformed() {
    let reference = Ref {
        ref_location: "#/components".to_string(),
    };
    assert_eq!(get_schema_name_from_ref(&reference), None);
    assert_eq!(
        throw_if_invalid_ref(&reference, &schemas(&["A"])),
        Err(ResolveError::MalformedRef {
            ref_location: "#/components".to_string()
        })
    );
}

#[test]
fn additional_properties_are_resolved() {
    let schema = RefOr::T(Schema::Object(ObjectSchema {
        schema_type: SchemaType::Object,
        format: None,
        properties: vec![("known".to_string(), reference("A"))],
        additional_properties: Some(Box::new(reference("B"))),
    }));
    assert_eq!(can_resolve_schema(&schema, &schemas(&["A", "B"])), Ok(()));
    assert_eq!(
        can_resolve_schema(&schema, &schemas(&["A"])),
        Err(ResolveError::UnknownSchema {
            ref_location: "#/components/schemas/B".to_string()
        })
    );
}

#[test]
fn unknown_schema_types_are_rejected() {
    assert_eq!(
        can_resolve_schema(&RefOr::T(Schema::Unknown), &schemas(&[])),
        Err(ResolveError::UnknownSchemaType)
    );
}

#[test]
fn an_api_needs_components() {
    let mut without = api(operation());
    without.components = None;
    assert_eq!(
        can_resolve_api(&without),
        Err(ResolveError::MissingComponents)
    );
}

#[test]
fn a_response_may_be_a_reference() {
    let with_response = |name: &str| {
        api(Operation {
            responses: vec![(
                "200".to_string(),
                RefOr::Ref(Ref::from_schema_name(name)),
            )],
            ..operation()
        })
    };
    assert_eq!(can_resolve_api(&with_response("Schema1")), Ok(()));
    assert!(can_resolve_api(&with_response("Schema4")).is_err());
}

#[test]
fn parameters_have_default_values() {
    let default = |schema_type, format| get_default_parameter_value(&value_schema(schema_type, format));
    assert_eq!(default(SchemaType::Text, None), Ok("asdf".to_string()));
    assert_eq!(default(SchemaType::Integer, None), Ok("42".to_string()));
    assert_eq!(
        default(SchemaType::Number, Some(SchemaFormat::Custom)),
        Ok("42".to_string())
    );
    assert_eq!(default(SchemaType::Boolean, None), Ok("false".to_string()));
    let uuid = default(SchemaType::Text, Some(SchemaFormat::Uuid)).unwrap();
    assert_eq!(uuid::Uuid::parse_str(&uuid).unwrap().to_string(), uuid);
    assert_ne!(
        uuid,
        default(SchemaType::Text, Some(SchemaFormat::Uuid)).unwrap()
    );
    for (schema_type, format) in [
        (SchemaType::Text, Some(SchemaFormat::Custom)),
        (SchemaType::Text, Some(SchemaFormat::OtherKnownFormat)),
        (SchemaType::Object, None),
        (SchemaType::Value, None),
        (SchemaType::Array, None),
    ] {
        assert_eq!(
            default(schema_type, format),
            Err(ExampleError::UnsupportedParameter)
        );
    }
    assert_eq!(
        get_default_parameter_value(&Schema::OneOf(vec![])),
        Err(ExampleError::UnsupportedParameter)
    );
}

#[test]
fn schemas_of_parameters_are_resolved_once() {
    let mut known = schemas(&["Object"]);
    known.insert("Alias".to_string(), reference("Object"));
    assert!(matches!(
        resolve_schema(&reference("Object"), &known),
        Ok(Schema::Object(_))
    ));
    assert!(matches!(
        resolve_schema(&reference("Alias"), &known),
        Err(ExampleError::RecursiveRef)
    ));
    assert!(matches!(
        resolve_schema(&reference("Missing"), &known),
        Err(ExampleError::UnknownSchema)
    ));
    assert!(matches!(
        resolve_schema(&RefOr::T(Schema::Unknown), &known),
        Ok(Schema::Unknown)
    ));
}

#[test]
fn all_parameters_get_values() {
    let values = insert_parameters(
        &vec![
            parameter(RefOr::T(value_schema(SchemaType::Integer, None))),
            parameter(RefOr::T(value_schema(SchemaType::Boolean, None))),
        ],
        &schemas(&[]),
    );
    assert_eq!(values, Ok(vec!["42".to_string(), "false".to_string()]));
    let without_schema = Parameter {
        name: "name".to_string(),
        schema: None,
    };
    assert_eq!(
        insert_parameters(&vec![without_schema], &schemas(&[])),
        Err(ExampleError::MissingParameterSchema)
    );
}

#[test]
fn requests_are_built_from_examples() {
    let uri = "/project".to_string();
    let parameters = None;
    let body = "{}".to_string();
    let example = RunnableExample {
        http_method: PathItemType::Post,
        uri: &uri,
        parameters: &parameters,
        body: &body,
        with_auth: true,
    };
    let request = match example.build_request(
        0x1234_5678_9abc_def0_1234_5678_9abc_def0,
        &schemas(&[]),
    ) {
        Ok(request) => request,
        Err(_) => unreachable!(),
    };
    assert_eq!(request.method, "POST");
    assert_eq!(request.uri, Some(&uri));
    assert_eq!(
        request.bearer_token.as_deref(),
        Some("12345678-9abc-def0-1234-56789abcdef0")
    );
    assert_eq!(request.content_type, "application/json");
    assert_eq!(request.body, "{}");

    let parameters = Some(vec![parameter(RefOr::T(value_schema(
        SchemaType::Integer,
        None,
    )))]);
    let example = RunnableExample {
        http_method: PathItemType::Connect,
        uri: &uri,
        parameters: &parameters,
        body: &body,
        with_auth: false,
    };
    let request = match example.build_request(1, &schemas(&[])) {
        Ok(request) => request,
        Err(_) => unreachable!(),
    };
    assert_eq!(request.method, "CONNECT");
    assert_eq!(request.uri, None);
    assert_eq!(request.bearer_token, None);
}

#[test]
fn broken_examples_are_reported() {
    assert_eq!(
        check_for_deserialization_error(400, "BodyDeserializeError", "POST", "/project"),
        Some("The example at POST /project threw an BodyDeserializeError".to_string())
    );
    assert_eq!(
        check_for_deserialization_error(400, "Unauthorized", "POST", "/project"),
        None
    );
    assert_eq!(
        check_for_deserialization_error(500, "BodyDeserializeError", "POST", "/project"),
        None
    );
}

#[test]
fn examples_are_collected() {
    let mut with_one = content(reference("Schema1"));
    with_one.example = Some("one".to_string());
    with_one.examples = vec![(
        "ignored".to_string(),
        RefOr::T(Example {
            value: Some("ignored".to_string()),
        }),
    )];
    let mut with_more = content(reference("Schema1"));
    with_more.examples = vec![
        (
            "inline".to_string(),
            RefOr::T(Example {
                value: Some("two".to_string()),
            }),
        ),
        ("outside".to_string(), RefOr::T(Example { value: None })),
        (
            "reference".to_string(),
            RefOr::Ref(Ref::from_schema_name("Example")),
        ),
    ];
    let api = api(Operation {
        request_body: Some(RequestBody {
            content: vec![
                ("application/json".to_string(), with_one),
                ("text/json".to_string(), with_more),
            ],
        }),
        has_security: true,
        ..operation()
    });
    let steps = can_run_examples(&api);
    assert_eq!(steps.len(), 3);
    let bodies: Vec<Option<String>> = steps
        .iter()
        .map(|step| match step {
            ExampleStep::Run(example) => {
                assert_eq!(example.uri, "asdf");
                assert_eq!(example.http_method, PathItemType::Post);
                assert!(example.with_auth);
                Some(example.body.clone())
            }
            ExampleStep::UnsupportedReference => None,
        })
        .collect();
    assert_eq!(
        bodies,
        vec![Some("one".to_string()), Some("two".to_string()), None]
    );
}
