use tailcall::config;
use tailcall::config::introspection::{
    record_introspection, update_introspection, update_introspection_results, IntrospectionStep,
};
use tailcall::config::{
    Config, Field, GraphQLSource, IntrospectionResult, Method, Resolver, RootSchema, Server, Type,
    Upstream,
};
use tailcall::name_map::NameMap;
use tailcall::valid::{Cause, Valid};

fn text(value: &str) -> String {
    value.to_string()
}

fn cause(message: &str, trace: &[&str]) -> Cause {
    Cause {
        message: text(message),
        description: None,
        trace: trace.iter().map(|label| text(label)).collect(),
    }
}

fn source(name: &str, base_url: Option<&str>) -> GraphQLSource {
    GraphQLSource {
        name: text(name),
        args: vec![(text("id"), text("{{args.id}}"))],
        base_url: base_url.map(text),
        headers: vec![(text("x"), text("y"))],
        batch: true,
        introspection: None,
    }
}

fn field(resolver: Option<Resolver>) -> Field {
    Field {
        type_of: text("Post"),
        list: false,
        required: false,
        list_type_required: false,
        args: NameMap::new(),
        doc: None,
        modify: None,
        inline: None,
        resolver,
        unsafe_operation: None,
        group_by: None,
    }
}

fn graphql_field(name: &str, base_url: Option<&str>) -> Field {
    field(Some(Resolver::GraphQL(source(name, base_url))))
}

fn http_field() -> Field {
    field(Some(Resolver::Http(config::Http {
        url: text("/a"),
        method: Method::Get,
        base_url: None,
        query: vec![],
        headers: vec![],
        body: None,
    })))
}

fn object(fields: Vec<(&str, Field)>) -> Type {
    let mut map = NameMap::new();
    for (name, field) in fields {
        map.insert(text(name), field);
    }
    Type {
        fields: map,
        doc: None,
        interface: false,
        implements: vec![],
        variants: None,
        scalar: false,
    }
}

fn config(types: Vec<(&str, Type)>) -> Config {
    let mut map = NameMap::new();
    for (name, type_) in types {
        map.insert(text(name), type_);
    }
    Config {
        server: Server::default(),
        upstream: Upstream::default(),
        graphql: config::GraphQL {
            schema: RootSchema { query: Some(text("Query")), mutation: None, subscription: None },
            types: map,
            unions: NameMap::new(),
        },
        introspection_cache: NameMap::new(),
    }
}

fn schema_of(url: &str) -> IntrospectionResult {
    IntrospectionResult { schema: format!("schema of {}", url) }
}

fn introspection_of(config: &Config, owner: &str, name: &str) -> Option<IntrospectionResult> {
    let field = config.find_type(owner).expect("type").fields.get(name).expect("field");
    match &field.resolver {
        Some(Resolver::GraphQL(source)) => source.introspection.clone(),
        _ => None,
    }
}

/// Runs the walk to its end; every fetch is counted and answered by `answer`.
fn run(
    config: Config,
    fetched: &mut Vec<String>,
    answer: fn(&str) -> Result<IntrospectionResult, String>,
) -> Valid<Config> {
    let mut step = update_introspection_results(config);
    loop {
        match step {
            IntrospectionStep::Done(result) => return result,
            IntrospectionStep::Fetch(state, url) => {
                fetched.push(url.clone());
                let answered = answer(&url);
                match record_introspection(state, url, answered).to_result() {
                    Ok(state) => step = update_introspection_results(state),
                    Err(causes) => return Valid::from_causes(causes),
                }
            }
        }
    }
}

#[test]
fn walk_goes_by_the_names_of_types_and_fields() {
    let subject = config(vec![
        ("b", object(vec![("y", graphql_field("y", Some("http://by"))), ("x", graphql_field("x", Some("http://bx")))])),
        ("a", object(vec![("z", graphql_field("z", Some("http://az")))])),
    ]);
    let mut fetched = vec![];
    run(subject, &mut fetched, |url| Ok(schema_of(url))).to_result().expect("resolved");
    assert_eq!(fetched, vec![text("http://az"), text("http://bx"), text("http://by")]);
}

#[test]
fn fields_that_share_a_base_url_are_fetched_once() {
    let subject = config(vec![
        (
            "Query",
            object(vec![
                ("posts", graphql_field("posts", Some("http://a"))),
                ("local", http_field()),
                ("users", graphql_field("users", Some("http://a"))),
            ]),
        ),
        ("Post", object(vec![("author", graphql_field("user", Some("http://b")))])),
    ]);
    let mut fetched = vec![];
    let resolved = run(subject, &mut fetched, |url| Ok(schema_of(url))).to_result().expect("resolved");
    assert_eq!(fetched, vec![text("http://b"), text("http://a")]);
    assert_eq!(introspection_of(&resolved, "Query", "posts"), Some(schema_of("http://a")));
    assert_eq!(introspection_of(&resolved, "Query", "users"), Some(schema_of("http://a")));
    assert_eq!(introspection_of(&resolved, "Post", "author"), Some(schema_of("http://b")));
    assert_eq!(introspection_of(&resolved, "Query", "local"), None);
    assert_eq!(
        resolved.introspection_cache.keys(),
        vec![text("http://b"), text("http://a")]
    );
    assert_eq!(resolved.graphql.types.keys(), vec![text("Query"), text("Post")]);
}

#[test]
fn what_the_cache_holds_is_not_fetched() {
    let mut subject = config(vec![(
        "Query",
        object(vec![
            ("posts", graphql_field("posts", Some("http://a"))),
            ("users", graphql_field("users", Some("http://b"))),
        ]),
    )]);
    subject.introspection_cache.insert(text("http://a"), schema_of("seeded"));
    let mut fetched = vec![];
    let resolved = run(subject, &mut fetched, |url| Ok(schema_of(url))).to_result().expect("resolved");
    assert_eq!(fetched, vec![text("http://b")]);
    assert_eq!(introspection_of(&resolved, "Query", "posts"), Some(schema_of("seeded")));
    assert_eq!(introspection_of(&resolved, "Query", "users"), Some(schema_of("http://b")));
}

#[test]
fn configuration_without_graphql_fields_is_done_at_once() {
    let subject = config(vec![("Query", object(vec![("local", http_field()), ("plain", field(None))]))]);
    let mut fetched = vec![];
    let resolved = run(subject, &mut fetched, |url| Ok(schema_of(url))).to_result().expect("resolved");
    assert!(fetched.is_empty());
    assert_eq!(resolved.graphql.types.len(), 1);
    assert_eq!(resolved.find_type("Query").expect("Query").fields.keys(), vec![text("local"), text("plain")]);
}

#[test]
fn graphql_field_without_base_url_fails() {
    let subject = config(vec![(
        "Query",
        object(vec![
            ("posts", graphql_field("posts", Some("http://a"))),
            ("users", graphql_field("users", None)),
            ("more", graphql_field("more", Some("http://c"))),
        ]),
    )]);
    let mut fetched = vec![];
    let result = run(subject, &mut fetched, |url| Ok(schema_of(url)));
    assert_eq!(
        result.to_result(),
        Err(vec![cause("No base url found for graphql directive", &["introspection"])])
    );
    assert_eq!(fetched, vec![text("http://c"), text("http://a")]);
}

#[test]
fn failed_fetch_fails_the_configuration() {
    let subject = config(vec![(
        "Query",
        object(vec![
            ("posts", graphql_field("posts", Some("http://a"))),
            ("users", graphql_field("users", Some("http://b"))),
        ]),
    )]);
    let mut fetched = vec![];
    let result = run(subject, &mut fetched, |url| Err(format!("cannot reach {}", url)));
    assert_eq!(
        result.to_result(),
        Err(vec![cause("cannot reach http://a", &["introspection"])])
    );
    assert_eq!(fetched, vec![text("http://a")]);
}

#[test]
fn step_hands_the_configuration_back_unchanged() {
    let subject = config(vec![("Query", object(vec![("posts", graphql_field("posts", Some("http://a")))]))]);
    let same = config(vec![("Query", object(vec![("posts", graphql_field("posts", Some("http://a")))]))]);
    match update_introspection_results(subject) {
        IntrospectionStep::Fetch(state, url) => {
            assert_eq!(url, "http://a");
            assert_eq!(state, same);
        }
        IntrospectionStep::Done(_) => panic!("a fetch was due"),
    }
}

#[test]
fn one_resolver_is_resolved_from_the_cache() {
    let mut cache = NameMap::new();
    cache.insert(text("http://a"), schema_of("http://a"));
    match update_introspection(&source("posts", Some("http://a")), &cache) {
        IntrospectionStep::Done(updated) => {
            let mut expected = source("posts", Some("http://a"));
            expected.introspection = Some(schema_of("http://a"));
            assert_eq!(updated.to_result(), Ok(expected));
        }
        IntrospectionStep::Fetch(_, _) => panic!("the schema was in the cache"),
    }
    match update_introspection(&source("posts", Some("http://b")), &cache) {
        IntrospectionStep::Fetch(_, url) => assert_eq!(url, "http://b"),
        IntrospectionStep::Done(_) => panic!("a fetch was due"),
    }
    match update_introspection(&source("posts", None), &cache) {
        IntrospectionStep::Done(failed) => assert_eq!(
            failed.to_result(),
            Err(vec![cause("No base url found for graphql directive", &["introspection"])])
        ),
        IntrospectionStep::Fetch(_, _) => panic!("there is nothing to fetch"),
    }
}

#[test]
fn recording_a_schema_puts_it_in_the_cache() {
    let subject = config(vec![]);
    let recorded = record_introspection(subject, text("http://a"), Ok(schema_of("http://a")))
        .to_result()
        .expect("recorded");
    assert_eq!(recorded.introspection_cache.get("http://a"), Some(&schema_of("http://a")));
    let failed = record_introspection(recorded, text("http://b"), Err(text("timeout")));
    assert_eq!(failed.to_result(), Err(vec![cause("timeout", &["introspection"])]));
}
