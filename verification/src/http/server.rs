//! The decisions of the gateway's HTTP server: which handler a request goes
//! to, which of its headers are passed on, which executor takes its body and
//! what the response says of caching. Listening, reading and writing are not
//! done here.

use vstd::prelude::*;
use crate::config::Method;
use crate::name_map::{with_entry, Entries, NameMap};
use crate::text::same_text;

verus! {

/// Takes the body of a request as one GraphQL request.
#[derive(Clone, Copy, Debug, PartialEq, Eq, Structural)]
pub struct SingleRequestExecutor {}

/// Takes the body of a request as a batch of GraphQL requests.
#[derive(Clone, Copy, Debug, PartialEq, Eq, Structural)]
pub struct BatchRequestExecutor {}

/// The executor that a server uses for every request.
#[derive(Clone, Copy, Debug, PartialEq, Eq, Structural)]
pub enum Executor {
    Single(SingleRequestExecutor),
    Batch(BatchRequestExecutor),
}

impl Executor {
    /// The batch executor where batch requests are enabled, else the single
    /// one.
    pub fn select(enable_batch_requests: bool) -> (r: Executor)
        ensures
            r == if enable_batch_requests {
                Executor::Batch(BatchRequestExecutor {  })
            } else {
                Executor::Single(SingleRequestExecutor {  })
            },
    {
        if enable_batch_requests {
            Executor::Batch(BatchRequestExecutor {  })
        } else {
            Executor::Single(SingleRequestExecutor {  })
        }
    }
}

/// Where a request goes.
#[derive(Clone, Copy, Debug, PartialEq, Eq, Structural)]
pub enum Route {
    /// The playground page.
    Graphiql,
    /// The GraphQL endpoint.
    GraphQL,
    /// Nowhere: the answer is "not found".
    NotFound,
}

/// Where a request with this method and path goes: a `GET` to the
/// playground where it is enabled, a `POST` of `/graphql` to the endpoint.
pub open spec fn routed(method: Method, path: Seq<char>, enable_graphiql: bool) -> Route {
    if method == Method::Get && enable_graphiql {
        Route::Graphiql
    } else if method == Method::Post && path == "/graphql"@ {
        Route::GraphQL
    } else {
        Route::NotFound
    }
}

/// Where a request with this method and path goes.
pub fn route(method: Method, path: &str, enable_graphiql: bool) -> (r: Route)
    ensures
        r == routed(method, path@, enable_graphiql),
{
    match method {
        Method::Get => if enable_graphiql {
            Route::Graphiql
        } else {
            Route::NotFound
        },
        Method::Post => if same_text(path, "/graphql") {
            Route::GraphQL
        } else {
            Route::NotFound
        },
        _ => Route::NotFound,
    }
}

/// Whether `names` holds `name`.
pub open spec fn is_allowed(names: Seq<Seq<char>>, name: Seq<char>) -> bool {
    names.contains(name)
}

/// The headers that are passed on: those whose name is allowed. A name keeps
/// its first place and its last value.
pub open spec fn allowed_headers(headers: Entries<Seq<char>>, allowed: Seq<Seq<char>>) -> Entries<
    Seq<char>,
>
    decreases headers.len(),
{
    if headers.len() == 0 {
        Seq::empty()
    } else if is_allowed(allowed, headers.last().0) {
        with_entry(
            allowed_headers(headers.drop_last(), allowed),
            headers.last().0,
            headers.last().1,
        )
    } else {
        allowed_headers(headers.drop_last(), allowed)
    }
}

fn contains_name(names: &Vec<String>, name: &str) -> (r: bool)
    ensures
        r == is_allowed(crate::model::deep(names@), name@),
{
    let mut i: usize = 0;
    while i < names.len()
        invariant
            i <= names.len(),
            forall|k: int| 0 <= k < i ==> crate::model::deep(names@)[k] != name@,
        decreases names.len() - i,
    {
        if same_text(names[i].as_str(), name) {
            assert(crate::model::deep(names@)[i as int] == name@);
            return true;
        }
        i += 1;
    }
    false
}

/// The headers of a request that are passed on to upstreams.
pub fn create_allowed_headers(headers: &Vec<(String, String)>, allowed: &Vec<String>) -> (r:
    NameMap<String>)
    ensures
        r@ == allowed_headers(crate::model::deep(headers@), crate::model::deep(allowed@)),
{
    let ghost all = crate::model::deep(headers@);
    let mut new_headers: NameMap<String> = NameMap::new();
    let mut i: usize = 0;
    while i < headers.len()
        invariant
            i <= headers.len(),
            all == crate::model::deep(headers@),
            new_headers@ == allowed_headers(all.take(i as int), crate::model::deep(allowed@)),
        decreases headers.len() - i,
    {
        proof {
            assert(all.take(i as int + 1).drop_last() =~= all.take(i as int));
            assert(all.take(i as int + 1).last() == all[i as int]);
            assert(all[i as int] == headers@[i as int].deep_view());
        }
        if contains_name(allowed, headers[i].0.as_str()) {
            new_headers.insert(headers[i].0.clone(), headers[i].1.clone());
        }
        i += 1;
    }
    proof {
        assert(all.take(headers.len() as int) =~= all);
    }
    new_headers
}

/// The value of a 64-bit age as a 32-bit signed number keeps its low 32
/// bits.
pub open spec fn low_bits(age: u64) -> int {
    let low = age as int % 0x1_0000_0000;
    if low < 0x8000_0000 {
        low
    } else {
        low - 0x1_0000_0000
    }
}

/// The `max-age` that the response announces: the smallest age that the
/// request's upstream responses allow, where the header is enabled and such
/// an age is known.
pub fn cache_control(enable_cache_control_header: bool, min_max_age: Option<u64>) -> (r: Option<
    i32,
>)
    ensures
        r is Some <==> enable_cache_control_header && min_max_age is Some,
        r matches Some(ttl) ==> ttl == low_bits(min_max_age->0),
{
    if !enable_cache_control_header {
        return None;
    }
    match min_max_age {
        Some(age) => {
            let low: u64 = age % 0x1_0000_0000;
            if low < 0x8000_0000 {
                Some(low as i32)
            } else {
                let high: i64 = low as i64 - 0x1_0000_0000;
                Some(high as i32)
            }
        },
        None => None,
    }
}

} // verus!
