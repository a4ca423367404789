use tailcall::config::Method;
use tailcall::http::server::{
    cache_control, create_allowed_headers, route, BatchRequestExecutor, Executor, Route,
    SingleRequestExecutor,
};

fn text(value: &str) -> String {
    value.to_string()
}

#[test]
fn batch_requests_select_the_batch_executor() {
    assert_eq!(Executor::select(true), Executor::Batch(BatchRequestExecutor {}));
    assert_eq!(Executor::select(false), Executor::Single(SingleRequestExecutor {}));
}

#[test]
fn get_goes_to_the_playground_where_enabled() {
    assert_eq!(route(Method::Get, "/", true), Route::Graphiql);
    assert_eq!(route(Method::Get, "/graphql", true), Route::Graphiql);
    assert_eq!(route(Method::Get, "/", false), Route::NotFound);
}

#[test]
fn post_of_the_endpoint_goes_to_graphql() {
    assert_eq!(route(Method::Post, "/graphql", false), Route::GraphQL);
    assert_eq!(route(Method::Post, "/graphql", true), Route::GraphQL);
    assert_eq!(route(Method::Post, "/graphql/", true), Route::NotFound);
    assert_eq!(route(Method::Post, "/", true), Route::NotFound);
}

#[test]
fn other_methods_are_not_found() {
    for method in [Method::Put, Method::Patch, Method::Delete, Method::Head, Method::Options] {
        assert_eq!(route(method, "/graphql", true), Route::NotFound);
    }
}

#[test]
fn only_allowed_headers_are_passed_on() {
    let headers = vec![
        (text("authorization"), text("token")),
        (text("cookie"), text("secret")),
        (text("x-trace"), text("1")),
        (text("authorization"), text("other")),
    ];
    let allowed = vec![text("x-trace"), text("authorization")];
    let passed = create_allowed_headers(&headers, &allowed);
    assert_eq!(
        passed.into_entries(),
        vec![(text("authorization"), text("other")), (text("x-trace"), text("1"))]
    );
}

#[test]
fn nothing_allowed_passes_nothing() {
    let headers = vec![(text("a"), text("1"))];
    assert_eq!(create_allowed_headers(&headers, &vec![]).into_entries(), vec![]);
    assert_eq!(create_allowed_headers(&vec![], &vec![text("a")]).into_entries(), vec![]);
}

#[test]
fn cache_control_announces_the_smallest_age() {
    assert_eq!(cache_control(true, Some(300)), Some(300));
    assert_eq!(cache_control(true, Some(0)), Some(0));
    assert_eq!(cache_control(true, None), None);
    assert_eq!(cache_control(false, Some(300)), None);
    assert_eq!(cache_control(false, None), None);
}

#[test]
fn cache_control_keeps_the_low_bits_of_a_large_age() {
    assert_eq!(cache_control(true, Some(2147483647)), Some(i32::MAX));
    assert_eq!(cache_control(true, Some(2147483648)), Some(i32::MIN));
    assert_eq!(cache_control(true, Some(4294967295)), Some(-1));
    assert_eq!(cache_control(true, Some(4294967296)), Some(0));
    assert_eq!(cache_control(true, Some(u64::MAX)), Some(-1));
    for age in [1u64 << 31, (1u64 << 40) + 17, u64::MAX - 5, 123456789012345] {
        assert_eq!(cache_control(true, Some(age)), Some(age as i32));
    }
}
