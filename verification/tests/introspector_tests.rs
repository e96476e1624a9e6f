use gql_introspector::model::Field;
use gql_introspector::model::IntrospectionResult;
use gql_introspector::model::Schema;
use gql_introspector::model::Type;
use gql_introspector::model::Value;
use gql_introspector::GQLError;
use gql_introspector::GQLIntrospector;
use gql_introspector::GraphQLClientError;

fn bare_type(kind: Option<&str>, name: Option<&str>) -> Type {
    Type {
        kind: kind.map(|k| k.to_string()),
        name: name.map(|n| n.to_string()),
        description: None,
        fields: None,
        input_fields: None,
        interfaces: None,
        enum_values: None,
        possible_types: None,
        of_type: None,
    }
}

fn wrapper(kind: &str, inner: Type) -> Type {
    let mut t = bare_type(Some(kind), None);
    t.of_type = Some(Box::new(inner));
    t
}

fn simple_field(name: &str, field_type: Type) -> Field {
    Field {
        name: Some(name.to_string()),
        description: None,
        field_type: Some(field_type),
        default_value: None,
        is_deprecated: None,
        deprecation_reason: None,
        args: None,
    }
}

fn enum_value(name: &str) -> Value {
    Value {
        name: Some(name.to_string()),
        description: None,
        is_deprecated: None,
        deprecation_reason: None,
    }
}

fn introspector_with(types: Vec<Type>) -> GQLIntrospector {
    GQLIntrospector {
        headers: Vec::new(),
        introspection_result: Some(IntrospectionResult { schema: Schema { types } }),
        schema: String::new(),
    }
}

#[test]
fn test_add() {
    let introspector = GQLIntrospector::new().add("Authorization", "Bearer token");
    assert_eq!(introspector.headers.len(), 1);
    assert_eq!(introspector.headers[0].0, "Authorization".to_string());
    assert_eq!(introspector.headers[0].1, "Bearer token".to_string());
}

#[test]
fn test_add_replaces_same_header() {
    let introspector = GQLIntrospector::new()
        .add("Authorization", "Bearer one")
        .add("User-Agent", "agent")
        .add("Authorization", "Bearer two");
    assert_eq!(introspector.headers.len(), 2);
    assert_eq!(introspector.headers[0].0, "Authorization".to_string());
    assert_eq!(introspector.headers[0].1, "Bearer two".to_string());
    assert_eq!(introspector.headers[1].0, "User-Agent".to_string());
}

#[test]
fn test_build() {
    let introspection_result = IntrospectionResult {
        schema: Schema {
            types: vec![
                Type {
                    kind: Some("OBJECT".to_string()),
                    name: Some("Content".to_string()),
                    description: None,
                    fields: Some(vec![simple_field(
                        "viewer",
                        bare_type(Some("OBJECT"), Some("User")),
                    )]),
                    input_fields: None,
                    interfaces: None,
                    enum_values: None,
                    possible_types: None,
                    of_type: None,
                },
                Type {
                    kind: Some("OBJECT".to_string()),
                    name: Some("User".to_string()),
                    description: None,
                    fields: Some(vec![simple_field(
                        "name",
                        bare_type(Some("SCALAR"), Some("String")),
                    )]),
                    input_fields: None,
                    interfaces: None,
                    enum_values: None,
                    possible_types: None,
                    of_type: None,
                },
            ],
        },
    };

    let introspector = GQLIntrospector {
        headers: Vec::new(),
        introspection_result: Some(introspection_result),
        schema: String::new(),
    };

    let result = introspector.build();

    assert!(result.is_ok());
    let built_introspector = result.unwrap();
    assert!(built_introspector.schema.contains("type Content"));
    assert!(built_introspector.schema.contains("type User"));
}

#[test]
fn test_build_scenario_two_objects() {
    let mut content = bare_type(Some("OBJECT"), Some("Content"));
    content.fields = Some(vec![simple_field("viewer", bare_type(Some("OBJECT"), Some("User")))]);
    let mut user = bare_type(Some("OBJECT"), Some("User"));
    user.fields = Some(vec![simple_field("name", bare_type(Some("SCALAR"), Some("String")))]);

    let built = introspector_with(vec![content, user]).build().unwrap();
    assert_eq!(
        built.schema,
        "type Content {\n  viewer: User\n}\n\ntype User {\n  name: String\n}\n\n"
    );
}

#[test]
fn test_build_enum() {
    let mut color = bare_type(Some("ENUM"), Some("Color"));
    color.enum_values = Some(vec![enum_value("RED"), enum_value("GREEN")]);
    let built = introspector_with(vec![color]).build().unwrap();
    assert_eq!(built.schema, "enum Color {\n  RED\n  GREEN\n}\n\n");
}

#[test]
fn test_build_union() {
    let mut search = bare_type(Some("UNION"), Some("SearchResult"));
    search.possible_types = Some(vec![
        bare_type(Some("OBJECT"), Some("Post")),
        bare_type(Some("OBJECT"), Some("Comment")),
    ]);
    let built = introspector_with(vec![search]).build().unwrap();
    assert_eq!(built.schema, "union SearchResult = Post | Comment\n\n");
}

#[test]
fn test_build_scalar() {
    let built = introspector_with(vec![bare_type(Some("SCALAR"), Some("DateTime"))])
        .build()
        .unwrap();
    assert_eq!(built.schema, "scalar DateTime\n\n");
}

#[test]
fn test_build_interface() {
    let mut named = bare_type(Some("INTERFACE"), Some("Named"));
    named.fields = Some(vec![simple_field("name", bare_type(Some("SCALAR"), Some("String")))]);
    let built = introspector_with(vec![named]).build().unwrap();
    assert_eq!(built.schema, "interface Named {\n  name: String\n}\n\n");
}

#[test]
fn test_build_input_object() {
    let mut point = bare_type(Some("INPUT_OBJECT"), Some("Point"));
    point.input_fields = Some(vec![
        simple_field("x", bare_type(Some("SCALAR"), Some("Int"))),
        simple_field("y", bare_type(Some("SCALAR"), Some("Int"))),
    ]);
    let built = introspector_with(vec![point]).build().unwrap();
    assert_eq!(built.schema, "input Point {\n  x: Int\n  y: Int\n}\n\n");
}

#[test]
fn test_build_implements_clause_in_declaration_order() {
    let mut dog = bare_type(Some("OBJECT"), Some("Dog"));
    dog.interfaces = Some(vec![
        bare_type(Some("INTERFACE"), Some("Animal")),
        bare_type(Some("INTERFACE"), Some("Pet")),
    ]);
    let built = introspector_with(vec![dog]).build().unwrap();
    assert_eq!(built.schema, "type Dog implements Animal & Pet {\n}\n\n");
}

#[test]
fn test_build_skips_internal_types() {
    let mut internal = bare_type(Some("OBJECT"), Some("__Schema"));
    internal.fields = Some(vec![simple_field(
        "types",
        bare_type(Some("SCALAR"), Some("String")),
    )]);
    let built = introspector_with(vec![internal]).build().unwrap();
    assert_eq!(built.schema, "");
}

#[test]
fn test_build_skips_unknown_kind() {
    let built = introspector_with(vec![bare_type(Some("FUTURE_KIND"), Some("Odd"))])
        .build()
        .unwrap();
    assert_eq!(built.schema, "");
}

#[test]
fn test_build_without_result_fails() {
    let result = GQLIntrospector::new().build();
    assert!(result.is_err());
    assert_eq!(result.err().unwrap().message(), "Introspection result is missing");
}

#[test]
fn test_build_twice_is_byte_identical() {
    let make = || {
        let mut color = bare_type(Some("ENUM"), Some("Color"));
        color.enum_values = Some(vec![enum_value("RED"), enum_value("GREEN")]);
        let mut dog = bare_type(Some("OBJECT"), Some("Dog"));
        dog.interfaces = Some(vec![bare_type(Some("INTERFACE"), Some("Animal"))]);
        introspector_with(vec![color, dog])
    };
    let first = make().build().unwrap().schema;
    let second = make().build().unwrap().schema;
    assert_eq!(first, second);
}

#[test]
fn test_format_type_named_scalar() {
    let t = bare_type(Some("SCALAR"), Some("Int"));
    assert_eq!(GQLIntrospector::format_type(&t), "Int");
}

#[test]
fn test_format_type_wrapped_list() {
    let t = wrapper(
        "NON_NULL",
        wrapper("LIST", wrapper("NON_NULL", bare_type(Some("SCALAR"), Some("String")))),
    );
    assert_eq!(GQLIntrospector::format_type(&t), "[String!]!");
}

#[test]
fn test_format_type_truncated_wrapper_is_empty() {
    // A wrapper cut off at the introspection query's depth limit carries
    // neither an inner reference nor a name.
    let truncated = bare_type(Some("LIST"), None);
    assert_eq!(GQLIntrospector::format_type(&truncated), "");
    let deep = wrapper("NON_NULL", wrapper("LIST", wrapper("NON_NULL", bare_type(Some("LIST"), None))));
    assert_eq!(GQLIntrospector::format_type(&deep), "[!]!");
}

#[test]
fn test_field_argument_uses_field_type() {
    // The renderer shows each argument with the enclosing field's type
    // reference, not the argument's declared one.
    let mut items = simple_field("items", bare_type(Some("SCALAR"), Some("Int")));
    items.args = Some(vec![simple_field("first", bare_type(Some("SCALAR"), Some("String")))]);
    let mut query = bare_type(Some("OBJECT"), Some("Query"));
    query.fields = Some(vec![items]);
    let built = introspector_with(vec![query]).build().unwrap();
    assert_eq!(built.schema, "type Query {\n  items(first: Int): Int\n}\n\n");
}

#[test]
fn test_get_schema_stores_result() {
    let response: Result<IntrospectionResult, GQLError> =
        Ok(IntrospectionResult { schema: Schema { types: vec![bare_type(Some("SCALAR"), Some("Int"))] } });
    let introspector = GQLIntrospector::new().get_schema(response).unwrap();
    assert!(introspector.introspection_result.is_some());
    let built = introspector.build().unwrap();
    assert_eq!(built.schema, "scalar Int\n\n");
}

#[test]
fn test_get_schema_surfaces_error() {
    let response: Result<IntrospectionResult, GQLError> =
        Err(GQLError { message: "bad endpoint".to_string() });
    let result = GQLIntrospector::new().get_schema(response);
    assert!(result.is_err());
    assert_eq!(result.err().unwrap().message, "bad endpoint".to_string());
}

#[test]
fn test_schema_text_of_empty_schema_fails() {
    let introspector = GQLIntrospector::new();
    let result = introspector.schema_text();
    assert!(result.is_err());
    assert_eq!(
        result.err().unwrap().message(),
        "No introspection result available to write"
    );
}

#[test]
fn test_schema_text_hands_out_built_schema() {
    let built = introspector_with(vec![bare_type(Some("SCALAR"), Some("Int"))]).build().unwrap();
    assert_eq!(built.schema_text().unwrap(), "scalar Int\n\n");
}

#[test]
fn test_get_schema_surfaces_client_error() {
    let response: Result<IntrospectionResult, GraphQLClientError> = Err(GraphQLClientError {
        errors: vec![
            GQLError { message: "first".to_string() },
            GQLError { message: "second".to_string() },
        ],
    });
    let result = GQLIntrospector::new().get_schema(response);
    let err = result.err().unwrap();
    assert_eq!(err.errors.len(), 2);
    assert_eq!(err.errors[0].message, "first".to_string());
    assert_eq!(err.errors[1].message, "second".to_string());
}

#[test]
fn test_build_appends_to_accumulated_schema() {
    let once = introspector_with(vec![bare_type(Some("SCALAR"), Some("Int"))]).build().unwrap();
    assert_eq!(once.schema, "scalar Int\n\n");
    let twice = once.build().unwrap();
    assert_eq!(twice.schema, "scalar Int\n\nscalar Int\n\n");
}

#[test]
fn test_build_skips_nameless_and_kindless_types() {
    let built = introspector_with(vec![
        bare_type(Some("OBJECT"), None),
        bare_type(None, Some("Mystery")),
    ])
    .build()
    .unwrap();
    assert_eq!(built.schema, "");
}
