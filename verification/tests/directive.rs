use tailcall::ast::ConstDirective;
use tailcall::config::{
    Call, ConstField, GraphQLSource, GroupBy, Grpc, Http, InlineType, Method, ModifyField,
    Server, Unsafe, Upstream,
};
use tailcall::directive::{
    argument, decode_call, decode_const, decode_graphql, decode_group_by, decode_grpc,
    decode_http, decode_inline, decode_modify, decode_server, decode_unsafe, decode_upstream,
    find_directive, flag, member,
    method, optional_bool, optional_text, optional_texts, pairs, port, required_text,
    required_value, text_map, texts,
};
use tailcall::json::Value;
use tailcall::name_map::NameMap;
use tailcall::valid::Cause;

fn text(value: &str) -> String {
    value.to_string()
}

fn string(value: &str) -> Value {
    Value::String(text(value))
}

fn cause(message: &str, trace: &[&str]) -> Cause {
    Cause {
        message: text(message),
        description: None,
        trace: trace.iter().map(|label| text(label)).collect(),
    }
}

fn directive(name: &str, arguments: Vec<(&str, Value)>) -> ConstDirective {
    ConstDirective {
        name: text(name),
        arguments: arguments.into_iter().map(|(name, value)| (text(name), value)).collect(),
    }
}

fn key_value(key: &str, value: &str) -> Value {
    Value::Object(vec![(text("key"), string(key)), (text("value"), string(value))])
}

#[test]
fn find_directive_takes_the_first_of_a_name() {
    let directives = vec![
        directive("a", vec![("n", Value::Int(1))]),
        directive("b", vec![]),
        directive("a", vec![("n", Value::Int(2))]),
    ];
    assert_eq!(find_directive(&directives, "a"), Some(&directives[0]));
    assert_eq!(find_directive(&directives, "b"), Some(&directives[1]));
    assert_eq!(find_directive(&directives, "c"), None);
    assert_eq!(find_directive(&vec![], "a"), None);
}

#[test]
fn argument_takes_the_last_of_a_name() {
    let subject = directive("x", vec![("a", Value::Int(1)), ("b", Value::Null), ("a", Value::Int(2))]);
    assert_eq!(argument(&subject, "a"), Some(&Value::Int(2)));
    assert_eq!(argument(&subject, "b"), Some(&Value::Null));
    assert_eq!(argument(&subject, "c"), None);
    assert_eq!(member(&subject.arguments, "a"), Some(&Value::Int(2)));
}

#[test]
fn required_text_needs_a_string() {
    let subject = directive("x", vec![("a", string("v")), ("n", Value::Int(1)), ("z", Value::Null)]);
    assert_eq!(required_text(&subject, "a").to_result(), Ok(text("v")));
    assert_eq!(
        required_text(&subject, "n").to_result(),
        Err(vec![cause("expected a string", &["n"])])
    );
    assert_eq!(
        required_text(&subject, "z").to_result(),
        Err(vec![cause("expected a string", &["z"])])
    );
    assert_eq!(
        required_text(&subject, "missing").to_result(),
        Err(vec![cause("expected a value", &["missing"])])
    );
}

#[test]
fn optional_text_may_be_left_out_or_null() {
    let subject = directive("x", vec![("a", string("v")), ("n", Value::Bool(true)), ("z", Value::Null)]);
    assert_eq!(optional_text(&subject, "a").to_result(), Ok(Some(text("v"))));
    assert_eq!(optional_text(&subject, "z").to_result(), Ok(None));
    assert_eq!(optional_text(&subject, "missing").to_result(), Ok(None));
    assert_eq!(
        optional_text(&subject, "n").to_result(),
        Err(vec![cause("expected a string", &["n"])])
    );
}

#[test]
fn booleans_and_flags() {
    let subject = directive("x", vec![("t", Value::Bool(true)), ("s", string("true")), ("z", Value::Null)]);
    assert_eq!(optional_bool(&subject, "t").to_result(), Ok(Some(true)));
    assert_eq!(optional_bool(&subject, "z").to_result(), Ok(None));
    assert_eq!(optional_bool(&subject, "missing").to_result(), Ok(None));
    assert_eq!(
        optional_bool(&subject, "s").to_result(),
        Err(vec![cause("expected a boolean", &["s"])])
    );
    assert_eq!(flag(&subject, "t").to_result(), Ok(true));
    assert_eq!(flag(&subject, "missing").to_result(), Ok(false));
    assert_eq!(flag(&subject, "s").to_result(), Err(vec![cause("expected a boolean", &["s"])]));
}

#[test]
fn required_value_copies_any_value() {
    let nested = Value::Object(vec![(text("a"), Value::List(vec![Value::Int(1), Value::Null]))]);
    let subject = directive("x", vec![("data", nested.clone()), ("nothing", Value::Null)]);
    assert_eq!(required_value(&subject, "data").to_result(), Ok(nested));
    assert_eq!(required_value(&subject, "nothing").to_result(), Ok(Value::Null));
    assert_eq!(
        required_value(&subject, "missing").to_result(),
        Err(vec![cause("expected a value", &["missing"])])
    );
}

#[test]
fn port_is_a_whole_number_of_sixteen_bits() {
    let subject = directive(
        "x",
        vec![
            ("low", Value::Int(0)),
            ("high", Value::Int(65535)),
            ("over", Value::Int(65536)),
            ("under", Value::Int(-1)),
            ("text", string("80")),
            ("fraction", Value::Number(text("80.5"))),
        ],
    );
    assert_eq!(port(&subject, "low").to_result(), Ok(Some(0)));
    assert_eq!(port(&subject, "high").to_result(), Ok(Some(65535)));
    assert_eq!(port(&subject, "missing").to_result(), Ok(None));
    for name in ["over", "under", "text", "fraction"] {
        assert_eq!(
            port(&subject, name).to_result(),
            Err(vec![cause("expected a port number", &[name])])
        );
    }
}

#[test]
fn texts_are_a_list_of_strings() {
    let subject = directive(
        "x",
        vec![
            ("good", Value::List(vec![string("a"), string("b")])),
            ("empty", Value::List(vec![])),
            ("mixed", Value::List(vec![string("a"), Value::Int(1)])),
            ("single", string("a")),
        ],
    );
    assert_eq!(texts(&subject, "good").to_result(), Ok(vec![text("a"), text("b")]));
    assert_eq!(texts(&subject, "empty").to_result(), Ok(vec![]));
    assert_eq!(texts(&subject, "missing").to_result(), Ok(vec![]));
    assert_eq!(optional_texts(&subject, "missing").to_result(), Ok(None));
    assert_eq!(optional_texts(&subject, "empty").to_result(), Ok(Some(vec![])));
    for name in ["mixed", "single"] {
        assert_eq!(
            texts(&subject, name).to_result(),
            Err(vec![cause("expected a list of strings", &[name])])
        );
    }
}

#[test]
fn pairs_are_a_list_of_key_and_value() {
    let subject = directive(
        "x",
        vec![
            ("good", Value::List(vec![key_value("a", "1"), key_value("b", "2"), key_value("a", "3")])),
            ("no_value", Value::List(vec![Value::Object(vec![(text("key"), string("a"))])])),
            ("number", Value::List(vec![Value::Object(vec![
                (text("key"), string("a")),
                (text("value"), Value::Int(1)),
            ])])),
            ("object", key_value("a", "1")),
        ],
    );
    assert_eq!(
        pairs(&subject, "good").to_result(),
        Ok(vec![(text("a"), text("1")), (text("b"), text("2")), (text("a"), text("3"))])
    );
    assert_eq!(pairs(&subject, "missing").to_result(), Ok(vec![]));
    for name in ["no_value", "number", "object"] {
        assert_eq!(
            pairs(&subject, name).to_result(),
            Err(vec![cause("expected a list of key and value", &[name])])
        );
    }
}

#[test]
fn text_map_is_an_object_of_strings() {
    let subject = directive(
        "x",
        vec![
            (
                "good",
                Value::Object(vec![
                    (text("b"), string("1")),
                    (text("a"), string("2")),
                    (text("b"), string("3")),
                ]),
            ),
            ("number", Value::Object(vec![(text("a"), Value::Int(1))])),
            ("list", Value::List(vec![])),
        ],
    );
    let map = text_map(&subject, "good").to_result().expect("decodes");
    assert_eq!(map.into_entries(), vec![(text("b"), text("3")), (text("a"), text("2"))]);
    assert_eq!(text_map(&subject, "missing").to_result(), Ok(NameMap::new()));
    for name in ["number", "list"] {
        assert_eq!(
            text_map(&subject, name).to_result(),
            Err(vec![cause("expected an object of strings", &[name])])
        );
    }
}

#[test]
fn method_is_named_in_capitals() {
    let names = [
        ("GET", Method::Get),
        ("POST", Method::Post),
        ("PUT", Method::Put),
        ("PATCH", Method::Patch),
        ("DELETE", Method::Delete),
        ("HEAD", Method::Head),
        ("OPTIONS", Method::Options),
        ("CONNECT", Method::Connect),
        ("TRACE", Method::Trace),
    ];
    for (name, expected) in names {
        let subject = directive("x", vec![("method", string(name))]);
        assert_eq!(method(&subject, "method").to_result(), Ok(expected));
    }
    assert_eq!(method(&directive("x", vec![]), "method").to_result(), Ok(Method::Get));
    for wrong in [string("get"), string(""), Value::Int(1)] {
        let subject = directive("x", vec![("method", wrong)]);
        assert_eq!(
            method(&subject, "method").to_result(),
            Err(vec![cause("expected an HTTP method", &["method"])])
        );
    }
}

#[test]
fn http_is_decoded_with_all_its_arguments() {
    let subject = directive(
        "http",
        vec![
            ("url", string("/posts/{{args.id}}")),
            ("method", string("POST")),
            ("baseURL", string("http://upstream")),
            ("query", Value::List(vec![key_value("page", "1")])),
            ("headers", Value::List(vec![key_value("x-a", "b")])),
            ("body", string("{{args.input}}")),
            ("unknown", Value::Int(1)),
        ],
    );
    assert_eq!(
        decode_http(&subject).to_result(),
        Ok(Http {
            url: text("/posts/{{args.id}}"),
            method: Method::Post,
            base_url: Some(text("http://upstream")),
            query: vec![(text("page"), text("1"))],
            headers: vec![(text("x-a"), text("b"))],
            body: Some(text("{{args.input}}")),
        })
    );
}

#[test]
fn http_with_only_a_url_takes_the_defaults() {
    assert_eq!(
        decode_http(&directive("http", vec![("url", string("/a"))])).to_result(),
        Ok(Http {
            url: text("/a"),
            method: Method::Get,
            base_url: None,
            query: vec![],
            headers: vec![],
            body: None,
        })
    );
}

#[test]
fn http_reports_every_wrong_argument() {
    let subject = directive(
        "http",
        vec![
            ("method", string("FETCH")),
            ("baseURL", Value::Int(1)),
            ("query", string("a=b")),
            ("headers", Value::List(vec![string("a")])),
            ("body", Value::Bool(true)),
        ],
    );
    assert_eq!(
        decode_http(&subject).to_result(),
        Err(vec![
            cause("expected a value", &["http", "url"]),
            cause("expected an HTTP method", &["http", "method"]),
            cause("expected a string", &["http", "baseURL"]),
            cause("expected a list of key and value", &["http", "query"]),
            cause("expected a list of key and value", &["http", "headers"]),
            cause("expected a string", &["http", "body"]),
        ])
    );
}

#[test]
fn graphql_is_decoded() {
    let subject = directive(
        "graphql",
        vec![
            ("name", string("posts")),
            ("args", Value::List(vec![key_value("id", "{{value.id}}")])),
            ("baseURL", string("http://upstream/graphql")),
            ("headers", Value::List(vec![key_value("x-a", "b")])),
            ("batch", Value::Bool(true)),
        ],
    );
    assert_eq!(
        decode_graphql(&subject).to_result(),
        Ok(GraphQLSource {
            name: text("posts"),
            args: vec![(text("id"), text("{{value.id}}"))],
            base_url: Some(text("http://upstream/graphql")),
            headers: vec![(text("x-a"), text("b"))],
            batch: true,
            introspection: None,
        })
    );
    assert_eq!(
        decode_graphql(&directive("graphql", vec![("batch", string("no"))])).to_result(),
        Err(vec![
            cause("expected a value", &["graphql", "name"]),
            cause("expected a boolean", &["graphql", "batch"]),
        ])
    );
}

#[test]
fn grpc_is_decoded() {
    let subject = directive(
        "grpc",
        vec![
            ("service", string("news.NewsService")),
            ("method", string("GetNews")),
            ("baseURL", string("http://grpc")),
            ("body", string("{{args.id}}")),
            ("headers", Value::List(vec![key_value("x-a", "b")])),
        ],
    );
    assert_eq!(
        decode_grpc(&subject).to_result(),
        Ok(Grpc {
            service: text("news.NewsService"),
            method: text("GetNews"),
            base_url: Some(text("http://grpc")),
            body: Some(text("{{args.id}}")),
            headers: vec![(text("x-a"), text("b"))],
        })
    );
    assert_eq!(
        decode_grpc(&directive("grpc", vec![])).to_result(),
        Err(vec![
            cause("expected a value", &["grpc", "service"]),
            cause("expected a value", &["grpc", "method"]),
        ])
    );
}

#[test]
fn call_is_decoded() {
    let subject = directive(
        "call",
        vec![
            ("mutation", string("createPost")),
            ("args", Value::Object(vec![(text("title"), string("{{args.title}}"))])),
        ],
    );
    let mut args = NameMap::new();
    args.insert(text("title"), text("{{args.title}}"));
    assert_eq!(
        decode_call(&subject).to_result(),
        Ok(Call { query: None, mutation: Some(text("createPost")), args })
    );
    assert_eq!(
        decode_call(&directive("call", vec![])).to_result(),
        Ok(Call { query: None, mutation: None, args: NameMap::new() })
    );
    assert_eq!(
        decode_call(&directive("call", vec![("query", Value::Int(1)), ("args", Value::Int(2))]))
            .to_result(),
        Err(vec![
            cause("expected a string", &["call", "query"]),
            cause("expected an object of strings", &["call", "args"]),
        ])
    );
}

#[test]
fn const_is_decoded() {
    let data = Value::Object(vec![(text("a"), Value::Number(text("1.5")))]);
    assert_eq!(
        decode_const(&directive("const", vec![("data", data.clone())])).to_result(),
        Ok(ConstField { data })
    );
    assert_eq!(
        decode_const(&directive("const", vec![])).to_result(),
        Err(vec![cause("expected a value", &["const", "data"])])
    );
}

#[test]
fn group_by_and_modify_are_decoded() {
    assert_eq!(
        decode_group_by(&directive(
            "groupBy",
            vec![("path", Value::List(vec![string("id")])), ("key", string("userId"))]
        ))
        .to_result(),
        Ok(GroupBy { path: vec![text("id")], key: Some(text("userId")) })
    );
    assert_eq!(
        decode_group_by(&directive("groupBy", vec![])).to_result(),
        Ok(GroupBy { path: vec![], key: None })
    );
    assert_eq!(
        decode_modify(&directive("modify", vec![("name", string("n")), ("omit", Value::Bool(true))]))
            .to_result(),
        Ok(ModifyField { name: Some(text("n")), omit: true })
    );
    assert_eq!(
        decode_modify(&directive("modify", vec![])).to_result(),
        Ok(ModifyField { name: None, omit: false })
    );
}

#[test]
fn server_and_upstream_are_decoded() {
    let subject = directive(
        "server",
        vec![
            ("enableGraphiql", Value::Bool(true)),
            ("enableBatchRequests", Value::Bool(false)),
            ("enableCacheControlHeader", Value::Bool(true)),
            ("enableQueryValidation", Value::Bool(false)),
            ("hostname", string("0.0.0.0")),
            ("port", Value::Int(8000)),
        ],
    );
    assert_eq!(
        decode_server(&subject).to_result(),
        Ok(Server {
            enable_graphiql: Some(true),
            enable_batch_requests: Some(false),
            enable_cache_control_header: Some(true),
            enable_query_validation: Some(false),
            hostname: Some(text("0.0.0.0")),
            port: Some(8000),
        })
    );
    assert_eq!(decode_server(&directive("server", vec![])).to_result(), Ok(Server::default()));
    assert_eq!(
        decode_upstream(&directive(
            "upstream",
            vec![
                ("baseURL", string("http://a")),
                ("allowedHeaders", Value::List(vec![string("authorization")])),
            ]
        ))
        .to_result(),
        Ok(Upstream {
            base_url: Some(text("http://a")),
            allowed_headers: Some(vec![text("authorization")]),
        })
    );
    assert_eq!(
        decode_upstream(&directive("upstream", vec![])).to_result(),
        Ok(Upstream::default())
    );
}

#[test]
fn inline_and_unsafe_are_decoded() {
    assert_eq!(
        decode_inline(&directive("inline", vec![("path", Value::List(vec![string("a")]))]))
            .to_result(),
        Ok(InlineType { path: vec![text("a")] })
    );
    assert_eq!(
        decode_inline(&directive("inline", vec![])).to_result(),
        Ok(InlineType { path: vec![] })
    );
    assert_eq!(
        decode_inline(&directive("inline", vec![("path", string("a"))])).to_result(),
        Err(vec![cause("expected a list of strings", &["inline", "path"])])
    );
    assert_eq!(
        decode_unsafe(&directive("unsafe", vec![("script", string("x"))])).to_result(),
        Ok(Unsafe { script: text("x") })
    );
    assert_eq!(
        decode_unsafe(&directive("unsafe", vec![])).to_result(),
        Err(vec![cause("expected a value", &["unsafe", "script"])])
    );
}
