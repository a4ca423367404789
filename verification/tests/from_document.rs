use tailcall::ast::{
    BaseType, ConstDirective, EnumType, FieldDefinition, InputObjectType, InputValueDefinition,
    InterfaceType, ObjectType, SchemaDefinition, ServiceDocument, Type, TypeDefinition, TypeKind,
    TypeSystemDefinition, UnionType,
};
use tailcall::config;
use tailcall::config::from_document::{
    from_document, graphql, schema_definition, server, to_arg, to_args, to_batch, to_common_field,
    to_enum, to_field, to_fields, to_inline, to_input_object, to_input_object_field,
    to_input_object_fields, to_modify, to_object_type, to_resolver, to_root_schema,
    to_scalar_type, to_type_of, to_types, to_union, to_union_types, to_unsafe_operation,
    upstream,
};
use tailcall::config::{
    Call, ConstField, GroupBy, InlineType, IntrospectionResult, Method, ModifyField, Resolver,
    RootSchema, Server, Union, Unsafe, Upstream,
};
use tailcall::json::Value;
use tailcall::name_map::NameMap;
use tailcall::valid::{Cause, Valid};

fn text(value: &str) -> String {
    value.to_string()
}

fn string(value: &str) -> Value {
    Value::String(text(value))
}

fn cause(message: &str, trace: &[&str]) -> Cause {
    Cause {
        message: text(message),
        description: None,
        trace: trace.iter().map(|label| text(label)).collect(),
    }
}

fn directive(name: &str, arguments: Vec<(&str, Value)>) -> ConstDirective {
    ConstDirective {
        name: text(name),
        arguments: arguments.into_iter().map(|(name, value)| (text(name), value)).collect(),
    }
}

fn named(name: &str) -> Type {
    Type { base: BaseType::Named(text(name)), nullable: true }
}

fn required(name: &str) -> Type {
    Type { base: BaseType::Named(text(name)), nullable: false }
}

fn list_of(item: Type, nullable: bool) -> Type {
    Type { base: BaseType::List(Box::new(item)), nullable }
}

fn argument(name: &str, ty: Type) -> InputValueDefinition {
    InputValueDefinition {
        description: None,
        name: text(name),
        ty,
        default_value: None,
        directives: vec![],
    }
}

fn field(name: &str, ty: Type, directives: Vec<ConstDirective>) -> FieldDefinition {
    FieldDefinition { description: None, name: text(name), arguments: vec![], ty, directives }
}

fn object(name: &str, fields: Vec<FieldDefinition>) -> TypeDefinition {
    TypeDefinition {
        description: None,
        name: text(name),
        directives: vec![],
        kind: TypeKind::Object(ObjectType { implements: vec![], fields }),
    }
}

fn schema(directives: Vec<ConstDirective>) -> SchemaDefinition {
    SchemaDefinition { directives, query: Some(text("Query")), mutation: None, subscription: None }
}

fn http(url: &str) -> ConstDirective {
    directive("http", vec![("url", string(url))])
}

fn document(definitions: Vec<TypeSystemDefinition>) -> ServiceDocument {
    ServiceDocument { definitions }
}

#[test]
fn type_of_names_the_item_of_a_list() {
    assert_eq!(to_type_of(&named("Post")), "Post");
    assert_eq!(to_type_of(&list_of(required("Post"), true)), "Post");
    assert_eq!(to_type_of(&list_of(list_of(named("Post"), true), true)), "");
}

#[test]
fn scalar_type_is_only_scalar() {
    let scalar = to_scalar_type();
    assert!(scalar.scalar);
    assert_eq!(scalar.fields.len(), 0);
    assert_eq!(scalar.variants, None);
    assert!(!scalar.interface);
    assert_eq!(scalar.doc, None);
    assert!(scalar.implements.is_empty());
}

#[test]
fn enum_keeps_its_values_in_order() {
    let lowered = to_enum(&EnumType { values: vec![text("B"), text("A")] });
    assert_eq!(lowered.variants, Some(vec![text("B"), text("A")]));
    assert!(!lowered.scalar);
    assert_eq!(lowered.fields.len(), 0);
}

#[test]
fn union_keeps_members_and_doc() {
    let lowered =
        to_union(&UnionType { members: vec![text("A"), text("B")] }, &Some(text("either")));
    assert_eq!(lowered, Union { types: vec![text("A"), text("B")], doc: Some(text("either")) });
}

#[test]
fn root_schema_copies_the_operation_names() {
    let definition = SchemaDefinition {
        directives: vec![],
        query: Some(text("Q")),
        mutation: Some(text("M")),
        subscription: None,
    };
    assert_eq!(
        to_root_schema(&definition),
        RootSchema { query: Some(text("Q")), mutation: Some(text("M")), subscription: None }
    );
}

#[test]
fn argument_is_lowered_with_default_and_modify() {
    let definition = InputValueDefinition {
        description: Some(text("the id")),
        name: text("id"),
        ty: list_of(required("ID"), false),
        default_value: Some(Value::List(vec![Value::Int(1)])),
        directives: vec![directive("modify", vec![("name", string("key"))])],
    };
    let arg = to_arg(&definition).to_result().expect("lowers");
    assert_eq!(arg.type_of, "ID");
    assert!(arg.list);
    assert!(arg.required);
    assert_eq!(arg.doc, Some(text("the id")));
    assert_eq!(arg.modify, Some(ModifyField { name: Some(text("key")), omit: false }));
    assert_eq!(arg.default_value, Some(Value::List(vec![Value::Int(1)])));
}

#[test]
fn arguments_are_kept_in_declared_order() {
    let mut definition = field("posts", named("Post"), vec![]);
    definition.arguments =
        vec![argument("page", named("Int")), argument("after", named("ID"))];
    let args = to_args(&definition).to_result().expect("lowers");
    assert_eq!(args.keys(), vec![text("page"), text("after")]);
}

#[test]
fn argument_failures_are_traced_with_the_argument() {
    let mut definition = field("posts", named("Post"), vec![]);
    let mut bad = argument("page", named("Int"));
    bad.directives = vec![directive("modify", vec![("omit", string("yes"))])];
    let mut worse = argument("after", named("ID"));
    worse.directives = vec![directive("modify", vec![("name", Value::Int(1))])];
    definition.arguments = vec![bad, argument("fine", named("Int")), worse];
    assert_eq!(
        to_args(&definition).to_result(),
        Err(vec![
            cause("expected a boolean", &["page", "modify", "omit"]),
            cause("expected a string", &["after", "modify", "name"]),
        ])
    );
}

#[test]
fn modify_and_batch_are_optional() {
    assert_eq!(to_modify(&vec![]).to_result(), Ok(None));
    assert_eq!(to_batch(&vec![http("/a")]).to_result(), Ok(None));
    let directives = vec![
        directive("groupBy", vec![("path", Value::List(vec![string("data"), string("id")]))]),
        directive("groupBy", vec![("key", string("ignored"))]),
    ];
    assert_eq!(
        to_batch(&directives).to_result(),
        Ok(Some(GroupBy { path: vec![text("data"), text("id")], key: None }))
    );
}

#[test]
fn last_resolver_directive_wins() {
    let directives = vec![
        http("/first"),
        directive("modify", vec![]),
        directive("const", vec![("data", Value::Int(1))]),
        directive("groupBy", vec![]),
    ];
    assert_eq!(
        to_resolver(&directives).to_result(),
        Ok(Some(Resolver::Const(ConstField { data: Value::Int(1) })))
    );
    assert_eq!(to_resolver(&vec![directive("modify", vec![])]).to_result(), Ok(None));
}

#[test]
fn earlier_resolver_directives_are_decoded_too() {
    let directives = vec![directive("http", vec![]), http("/second")];
    assert_eq!(
        to_resolver(&directives).to_result(),
        Err(vec![cause("expected a value", &["http", "url"])])
    );
    let shadowed = vec![directive("http", vec![]), directive("const", vec![("data", Value::Int(1))])];
    assert_eq!(
        to_resolver(&shadowed).to_result(),
        Err(vec![cause("expected a value", &["http", "url"])])
    );
    let in_order = vec![http("/first"), http("/second")];
    match to_resolver(&in_order).to_result() {
        Ok(Some(Resolver::Http(http))) => assert_eq!(http.url, "/second"),
        other => panic!("not an http resolver: {:?}", other),
    }
}

#[test]
fn defects_of_http_and_graphql_are_both_reported_http_first() {
    let bad_http = directive("http", vec![("method", string("FETCH"))]);
    let bad_graphql = directive("graphql", vec![("batch", string("no"))]);
    let expected = Err(vec![
        cause("expected a value", &["http", "url"]),
        cause("expected an HTTP method", &["http", "method"]),
        cause("expected a value", &["graphql", "name"]),
        cause("expected a boolean", &["graphql", "batch"]),
    ]);
    let written_first = vec![
        directive("http", vec![("method", string("FETCH"))]),
        directive("modify", vec![]),
        directive("graphql", vec![("batch", string("no"))]),
    ];
    assert_eq!(to_resolver(&written_first).to_result(), expected);
    let written_last = vec![bad_graphql, bad_http];
    assert_eq!(to_resolver(&written_last).to_result(), expected);
    let definition = field("post", named("Post"), written_first);
    assert_eq!(
        to_field(&definition).to_result(),
        Err(vec![
            cause("expected a value", &["http", "url"]),
            cause("expected an HTTP method", &["http", "method"]),
            cause("expected a value", &["graphql", "name"]),
            cause("expected a boolean", &["graphql", "batch"]),
        ])
    );
}

#[test]
fn defects_of_every_kind_of_resolver_are_reported_by_kind() {
    let directives = vec![
        directive("const", vec![]),
        directive("call", vec![("args", Value::Int(1))]),
        directive("grpc", vec![("service", string("s"))]),
        directive("graphql", vec![]),
        directive("http", vec![]),
        directive("const", vec![("data", Value::Null)]),
        directive("http", vec![("url", Value::Int(1))]),
    ];
    assert_eq!(
        to_resolver(&directives).to_result(),
        Err(vec![
            cause("expected a value", &["http", "url"]),
            cause("expected a string", &["http", "url"]),
            cause("expected a value", &["graphql", "name"]),
            cause("expected a value", &["grpc", "method"]),
            cause("expected an object of strings", &["call", "args"]),
            cause("expected a value", &["const", "data"]),
        ])
    );
}

#[test]
fn each_resolver_kind_is_decoded_by_its_name() {
    let call = directive(
        "call",
        vec![("query", string("post")), ("args", Value::Object(vec![(text("id"), string("1"))]))],
    );
    let mut args = NameMap::new();
    args.insert(text("id"), text("1"));
    assert_eq!(
        to_resolver(&vec![call]).to_result(),
        Ok(Some(Resolver::Call(Call { query: Some(text("post")), mutation: None, args })))
    );
    let graphql = directive("graphql", vec![("name", string("posts"))]);
    match to_resolver(&vec![graphql]).to_result() {
        Ok(Some(Resolver::GraphQL(source))) => assert_eq!(source.name, "posts"),
        other => panic!("not a graphql resolver: {:?}", other),
    }
    let grpc =
        directive("grpc", vec![("service", string("s.S")), ("method", string("Get"))]);
    match to_resolver(&vec![grpc]).to_result() {
        Ok(Some(Resolver::Grpc(grpc))) => {
            assert_eq!(grpc.service, "s.S");
            assert_eq!(grpc.method, "Get");
        }
        other => panic!("not a grpc resolver: {:?}", other),
    }
}

#[test]
fn field_is_lowered_with_type_flags() {
    let mut definition = field("posts", list_of(required("Post"), false), vec![http("/posts")]);
    definition.description = Some(text("all posts"));
    definition.arguments = vec![argument("page", named("Int"))];
    let lowered = to_field(&definition).to_result().expect("lowers");
    assert_eq!(lowered.type_of, "Post");
    assert!(lowered.list);
    assert!(lowered.required);
    assert!(lowered.list_type_required);
    assert_eq!(lowered.doc, Some(text("all posts")));
    assert_eq!(lowered.args.keys(), vec![text("page")]);
    assert_eq!(lowered.modify, None);
    assert_eq!(lowered.group_by, None);
    match lowered.resolver {
        Some(Resolver::Http(http)) => {
            assert_eq!(http.url, "/posts");
            assert_eq!(http.method, Method::Get);
        }
        other => panic!("not an http resolver: {:?}", other),
    }
}

#[test]
fn nullable_field_of_a_nullable_list() {
    let definition = field("tags", list_of(named("String"), true), vec![]);
    let lowered = to_field(&definition).to_result().expect("lowers");
    assert!(lowered.list);
    assert!(!lowered.required);
    assert!(!lowered.list_type_required);
    assert_eq!(lowered.resolver, None);
}

#[test]
fn field_reports_the_failures_of_all_its_directives() {
    let mut definition = field(
        "post",
        named("Post"),
        vec![
            directive("http", vec![("method", string("FETCH"))]),
            directive("groupBy", vec![("path", string("id"))]),
            directive("unsafe", vec![]),
            directive("inline", vec![("path", Value::Int(1))]),
            directive("modify", vec![("omit", Value::Int(1))]),
        ],
    );
    let mut bad = argument("id", named("ID"));
    bad.directives = vec![directive("modify", vec![("name", Value::Bool(true))])];
    definition.arguments = vec![bad];
    assert_eq!(
        to_field(&definition).to_result(),
        Err(vec![
            cause("expected a string", &["id", "modify", "name"]),
            cause("expected a value", &["http", "url"]),
            cause("expected an HTTP method", &["http", "method"]),
            cause("expected a boolean", &["modify", "omit"]),
            cause("expected a list of strings", &["inline", "path"]),
            cause("expected a value", &["unsafe", "script"]),
            cause("expected a list of strings", &["groupBy", "path"]),
        ])
    );
}

#[test]
fn inline_and_unsafe_are_optional() {
    assert_eq!(to_inline(&vec![]).to_result(), Ok(None));
    assert_eq!(to_unsafe_operation(&vec![http("/a")]).to_result(), Ok(None));
    let directives = vec![
        directive("unsafe", vec![("script", string("value * 2"))]),
        directive("inline", vec![("path", Value::List(vec![string("user"), string("name")]))]),
        directive("inline", vec![("path", Value::Int(1))]),
    ];
    assert_eq!(
        to_inline(&directives).to_result(),
        Ok(Some(InlineType { path: vec![text("user"), text("name")] }))
    );
    assert_eq!(
        to_unsafe_operation(&directives).to_result(),
        Ok(Some(Unsafe { script: text("value * 2") }))
    );
    let lowered =
        to_field(&field("name", named("String"), directives)).to_result().expect("lowers");
    assert_eq!(lowered.inline, Some(InlineType { path: vec![text("user"), text("name")] }));
    assert_eq!(lowered.unsafe_operation, Some(Unsafe { script: text("value * 2") }));
}

#[test]
fn common_field_passes_on_failed_arguments() {
    let args: Valid<NameMap<config::Arg>> = Valid::fail(text("bad arguments"));
    let result = to_common_field(
        &named("Post"),
        args,
        &None,
        &vec![directive("const", vec![])],
    );
    assert_eq!(
        result.to_result(),
        Err(vec![cause("bad arguments", &[]), cause("expected a value", &["const", "data"])])
    );
}

#[test]
fn input_field_has_no_arguments() {
    let definition = argument("title", required("String"));
    let lowered = to_input_object_field(&definition).to_result().expect("lowers");
    assert_eq!(lowered.type_of, "String");
    assert!(lowered.required);
    assert_eq!(lowered.args.len(), 0);
}

#[test]
fn fields_are_traced_with_their_names() {
    let fields = vec![
        field("a", named("A"), vec![directive("const", vec![])]),
        field("b", named("B"), vec![http("/b")]),
        field("c", named("C"), vec![directive("http", vec![])]),
    ];
    assert_eq!(
        to_fields(&fields).to_result(),
        Err(vec![
            cause("expected a value", &["a", "const", "data"]),
            cause("expected a value", &["c", "http", "url"]),
        ])
    );
}

#[test]
fn repeated_field_keeps_its_place_and_last_definition() {
    let fields = vec![
        field("a", named("First"), vec![]),
        field("b", named("B"), vec![]),
        field("a", named("Second"), vec![]),
    ];
    let lowered = to_fields(&fields).to_result().expect("lowers");
    assert_eq!(lowered.keys(), vec![text("a"), text("b")]);
    assert_eq!(lowered.get("a").expect("a").type_of, "Second");
}

#[test]
fn input_object_fields_are_lowered() {
    let fields = vec![argument("title", named("String")), argument("body", named("String"))];
    let lowered = to_input_object_fields(&fields).to_result().expect("lowers");
    assert_eq!(lowered.keys(), vec![text("title"), text("body")]);
    let lowered = to_input_object(&InputObjectType { fields }).to_result().expect("lowers");
    assert_eq!(lowered.fields.len(), 2);
    assert!(!lowered.scalar);
    assert_eq!(lowered.variants, None);
}

#[test]
fn object_type_keeps_doc_interface_and_implements() {
    let fields = vec![field("id", required("ID"), vec![])];
    let lowered = to_object_type(&fields, &Some(text("a node")), true, &vec![text("Node")])
        .to_result()
        .expect("lowers");
    assert_eq!(lowered.doc, Some(text("a node")));
    assert!(lowered.interface);
    assert_eq!(lowered.implements, vec![text("Node")]);
    assert_eq!(lowered.fields.keys(), vec![text("id")]);
    assert!(!lowered.scalar);
    assert_eq!(lowered.variants, None);
}

fn sample_types() -> Vec<TypeDefinition> {
    vec![
        object("Query", vec![field("post", named("Post"), vec![http("/post")])]),
        TypeDefinition {
            description: Some(text("either")),
            name: text("SearchResult"),
            directives: vec![],
            kind: TypeKind::Union(UnionType { members: vec![text("Post"), text("User")] }),
        },
        TypeDefinition {
            description: None,
            name: text("Node"),
            directives: vec![],
            kind: TypeKind::Interface(InterfaceType {
                implements: vec![],
                fields: vec![field("id", required("ID"), vec![])],
            }),
        },
        TypeDefinition {
            description: None,
            name: text("Color"),
            directives: vec![],
            kind: TypeKind::Enum(EnumType { values: vec![text("RED"), text("BLUE")] }),
        },
        TypeDefinition {
            description: None,
            name: text("PostInput"),
            directives: vec![],
            kind: TypeKind::InputObject(InputObjectType {
                fields: vec![argument("title", required("String"))],
            }),
        },
        TypeDefinition {
            description: None,
            name: text("Date"),
            directives: vec![],
            kind: TypeKind::Scalar,
        },
    ]
}

#[test]
fn types_are_lowered_by_kind_and_unions_are_left_out() {
    let definitions = sample_types();
    let references: Vec<&TypeDefinition> = definitions.iter().collect();
    let types = to_types(&references).to_result().expect("lowers");
    assert_eq!(
        types.keys(),
        vec![text("Query"), text("Node"), text("Color"), text("PostInput"), text("Date")]
    );
    assert!(types.get("Node").expect("Node").interface);
    assert_eq!(
        types.get("Color").expect("Color").variants,
        Some(vec![text("RED"), text("BLUE")])
    );
    assert!(types.get("Date").expect("Date").scalar);
    assert_eq!(types.get("PostInput").expect("PostInput").fields.len(), 1);
    assert_eq!(types.get("SearchResult"), None);
}

#[test]
fn unions_are_kept_beside_the_types() {
    let definitions = sample_types();
    let references: Vec<&TypeDefinition> = definitions.iter().collect();
    let unions = to_union_types(&references);
    assert_eq!(
        unions.into_entries(),
        vec![(
            text("SearchResult"),
            Union { types: vec![text("Post"), text("User")], doc: Some(text("either")) }
        )]
    );
}

#[test]
fn every_defect_of_a_document_is_reported() {
    let definitions = vec![
        object(
            "Query",
            vec![
                field("a", named("A"), vec![directive("http", vec![])]),
                field("b", named("B"), vec![http("/b")]),
                field("c", named("C"), vec![directive("grpc", vec![("service", string("s"))])]),
            ],
        ),
        object("Fine", vec![field("id", named("ID"), vec![])]),
        object("Post", vec![field("user", named("User"), vec![directive("call", vec![("args", string("x"))])])]),
    ];
    let references: Vec<&TypeDefinition> = definitions.iter().collect();
    assert_eq!(
        to_types(&references).to_result(),
        Err(vec![
            cause("expected a value", &["Query", "a", "http", "url"]),
            cause("expected a value", &["Query", "c", "grpc", "method"]),
            cause("expected an object of strings", &["Post", "user", "call", "args"]),
        ])
    );
}

#[test]
fn schema_definition_is_the_first_one() {
    let doc = document(vec![
        TypeSystemDefinition::Directive(text("http")),
        TypeSystemDefinition::Type(object("Query", vec![])),
        TypeSystemDefinition::Schema(SchemaDefinition {
            directives: vec![],
            query: Some(text("First")),
            mutation: None,
            subscription: None,
        }),
        TypeSystemDefinition::Schema(schema(vec![])),
    ]);
    let found = schema_definition(&doc).to_result().expect("found");
    assert_eq!(found.query, Some(text("First")));
}

#[test]
fn document_without_schema_fails() {
    let doc = document(vec![TypeSystemDefinition::Type(object("Query", vec![]))]);
    assert_eq!(
        schema_definition(&doc).to_result(),
        Err(vec![cause("schema not found", &["schema"])])
    );
    assert_eq!(
        from_document(&doc, None).to_result(),
        Err(vec![cause("schema not found", &["schema"])])
    );
}

#[test]
fn server_directives_merge_setting_by_setting() {
    let definition = schema(vec![
        directive(
            "server",
            vec![("port", Value::Int(8000)), ("enableGraphiql", Value::Bool(true))],
        ),
        directive("upstream", vec![("baseURL", string("http://a"))]),
        directive(
            "server",
            vec![("port", Value::Int(9000)), ("hostname", string("localhost"))],
        ),
    ]);
    assert_eq!(
        server(&definition).to_result(),
        Ok(Server {
            enable_graphiql: Some(true),
            enable_batch_requests: None,
            enable_cache_control_header: None,
            enable_query_validation: None,
            hostname: Some(text("localhost")),
            port: Some(9000),
        })
    );
}

#[test]
fn upstream_directives_merge_setting_by_setting() {
    let definition = schema(vec![
        directive(
            "upstream",
            vec![
                ("baseURL", string("http://a")),
                ("allowedHeaders", Value::List(vec![string("authorization")])),
            ],
        ),
        directive("upstream", vec![("baseURL", string("http://b"))]),
    ]);
    assert_eq!(
        upstream(&definition).to_result(),
        Ok(Upstream {
            base_url: Some(text("http://b")),
            allowed_headers: Some(vec![text("authorization")]),
        })
    );
}

#[test]
fn schema_without_directives_has_unset_settings() {
    let definition = schema(vec![]);
    assert_eq!(server(&definition).to_result(), Ok(Server::default()));
    assert_eq!(upstream(&definition).to_result(), Ok(Upstream::default()));
}

#[test]
fn failures_of_every_server_directive_are_reported() {
    let definition = schema(vec![
        directive("server", vec![("port", Value::Int(70000))]),
        directive("server", vec![("hostname", Value::Int(1)), ("port", Value::Int(-1))]),
    ]);
    assert_eq!(
        server(&definition).to_result(),
        Err(vec![
            cause("expected a port number", &["server", "port"]),
            cause("expected a string", &["server", "hostname"]),
            cause("expected a port number", &["server", "port"]),
        ])
    );
}

#[test]
fn graphql_holds_root_names_types_and_unions() {
    let mut definitions: Vec<TypeSystemDefinition> =
        sample_types().into_iter().map(TypeSystemDefinition::Type).collect();
    definitions.insert(1, TypeSystemDefinition::Schema(schema(vec![])));
    let doc = document(definitions);
    let lowered = graphql(&doc, &schema(vec![])).to_result().expect("lowers");
    assert_eq!(lowered.schema.query, Some(text("Query")));
    assert_eq!(lowered.types.len(), 5);
    assert_eq!(lowered.unions.len(), 1);
}

#[test]
fn document_is_lowered_to_a_configuration() {
    let doc = document(vec![
        TypeSystemDefinition::Schema(schema(vec![
            directive("server", vec![("port", Value::Int(8000))]),
            directive("upstream", vec![("baseURL", string("http://jsonplaceholder"))]),
        ])),
        TypeSystemDefinition::Type(object(
            "Query",
            vec![field("posts", list_of(named("Post"), true), vec![http("/posts")])],
        )),
        TypeSystemDefinition::Type(object("Post", vec![field("id", required("Int"), vec![])])),
    ]);
    let config = from_document(&doc, None).to_result().expect("lowers");
    assert_eq!(config.server.port, Some(8000));
    assert_eq!(config.upstream.base_url, Some(text("http://jsonplaceholder")));
    assert_eq!(config.graphql.types.keys(), vec![text("Query"), text("Post")]);
    assert_eq!(config.introspection_cache.len(), 0);
    assert_eq!(config.find_type("Post").expect("Post").fields.len(), 1);
    assert_eq!(config.find_type("User"), None);
}

#[test]
fn document_takes_the_cache_that_is_handed_in() {
    let doc = document(vec![TypeSystemDefinition::Schema(schema(vec![]))]);
    let mut cache = NameMap::new();
    cache.insert(text("http://a"), IntrospectionResult { schema: text("type Query") });
    let config = from_document(&doc, Some(cache)).to_result().expect("lowers");
    assert_eq!(
        config.introspection_cache.get("http://a"),
        Some(&IntrospectionResult { schema: text("type Query") })
    );
}

#[test]
fn document_reports_settings_and_type_failures_together() {
    let doc = document(vec![
        TypeSystemDefinition::Schema(schema(vec![
            directive("server", vec![("enableGraphiql", string("yes"))]),
            directive("upstream", vec![("allowedHeaders", Value::List(vec![Value::Int(1)]))]),
        ])),
        TypeSystemDefinition::Type(object(
            "Query",
            vec![field("posts", named("Post"), vec![directive("const", vec![])])],
        )),
    ]);
    assert_eq!(
        from_document(&doc, None).to_result(),
        Err(vec![
            cause("expected a boolean", &["server", "enableGraphiql"]),
            cause("expected a list of strings", &["upstream", "allowedHeaders"]),
            cause("expected a value", &["Query", "posts", "const", "data"]),
        ])
    );
}
