use tailcall::valid::{Cause, Valid};

fn cause(message: &str, trace: &[&str]) -> Cause {
    Cause {
        message: message.to_string(),
        description: None,
        trace: trace.iter().map(|label| label.to_string()).collect(),
    }
}

fn fail<A>(message: &str) -> Valid<A> {
    Valid::fail(message.to_string())
}

#[test]
fn succeed_holds_the_value() {
    assert_eq!(Valid::succeed(7).to_result(), Ok(7));
    assert!(Valid::succeed(7).is_succeed());
}

#[test]
fn fail_holds_one_cause() {
    let result: Valid<i32> = fail("broken");
    assert!(!result.is_succeed());
    assert_eq!(result.to_result(), Err(vec![cause("broken", &[])]));
}

#[test]
fn fail_with_keeps_the_description() {
    let result: Valid<i32> = Valid::fail_with("broken".to_string(), "because".to_string());
    assert_eq!(
        result.to_result(),
        Err(vec![Cause {
            message: "broken".to_string(),
            description: Some("because".to_string()),
            trace: vec![],
        }])
    );
}

#[test]
fn from_option_some_and_none() {
    assert_eq!(Valid::from_option(Some(1), "none".to_string()).to_result(), Ok(1));
    assert_eq!(
        Valid::<i32>::from_option(None, "none".to_string()).to_result(),
        Err(vec![cause("none", &[])])
    );
}

#[test]
fn from_causes_keeps_them() {
    let causes = vec![cause("a", &["x"]), cause("b", &[])];
    assert_eq!(Valid::<i32>::from_causes(causes.clone()).to_result(), Err(causes));
}

#[test]
fn map_applies_to_a_success_only() {
    assert_eq!(Valid::succeed(2).map(|n| n * 10).to_result(), Ok(20));
    assert_eq!(
        fail::<i32>("broken").map(|n| n * 10).to_result(),
        Err(vec![cause("broken", &[])])
    );
}

#[test]
fn and_then_short_circuits() {
    let next = |n: i32| if n > 0 { Valid::succeed(n + 1) } else { fail("not positive") };
    assert_eq!(Valid::succeed(1).and_then(next).to_result(), Ok(2));
    assert_eq!(
        Valid::succeed(0).and_then(next).to_result(),
        Err(vec![cause("not positive", &[])])
    );
    let mut called = false;
    let result = fail::<i32>("first").and_then(|n| {
        called = true;
        Valid::succeed(n)
    });
    assert_eq!(result.to_result(), Err(vec![cause("first", &[])]));
    assert!(!called);
}

#[test]
fn zip_keeps_the_failures_of_both_sides() {
    assert_eq!(Valid::succeed(1).zip(Valid::succeed("a")).to_result(), Ok((1, "a")));
    assert_eq!(
        Valid::succeed(1).zip(fail::<i32>("right")).to_result(),
        Err(vec![cause("right", &[])])
    );
    assert_eq!(
        fail::<i32>("left").zip(Valid::succeed(1)).to_result(),
        Err(vec![cause("left", &[])])
    );
    assert_eq!(
        fail::<i32>("left").zip(fail::<i32>("right")).to_result(),
        Err(vec![cause("left", &[]), cause("right", &[])])
    );
}

#[test]
fn and_keeps_the_right_value() {
    assert_eq!(Valid::succeed(1).and(Valid::succeed("a")).to_result(), Ok("a"));
    assert_eq!(
        fail::<i32>("left").and(fail::<i32>("right")).to_result(),
        Err(vec![cause("left", &[]), cause("right", &[])])
    );
}

#[test]
fn fuse_adds_a_third_result() {
    assert_eq!(
        Valid::succeed(1).zip(Valid::succeed(2)).fuse(Valid::succeed(3)).to_result(),
        Ok((1, 2, 3))
    );
    assert_eq!(
        Valid::succeed(1).zip(fail::<i32>("b")).fuse(fail::<i32>("c")).to_result(),
        Err(vec![cause("b", &[]), cause("c", &[])])
    );
}

#[test]
fn trace_prepends_to_every_cause() {
    let result = fail::<i32>("a").zip(fail::<i32>("b")).trace("field").trace("Type");
    assert_eq!(
        result.to_result(),
        Err(vec![cause("a", &["Type", "field"]), cause("b", &["Type", "field"])])
    );
}

#[test]
fn trace_leaves_a_success_alone() {
    assert_eq!(Valid::succeed(5).trace("label").to_result(), Ok(5));
}

#[test]
fn some_and_none() {
    assert_eq!(Valid::succeed(5).some().to_result(), Ok(Some(5)));
    assert_eq!(Valid::<Option<i32>>::none().to_result(), Ok(None));
    assert_eq!(fail::<i32>("x").some().to_result(), Err(vec![cause("x", &[])]));
}

#[test]
fn collect_gathers_all_values() {
    let results = vec![Valid::succeed(1), Valid::succeed(2), Valid::succeed(3)];
    assert_eq!(Valid::collect(results).to_result(), Ok(vec![1, 2, 3]));
    assert_eq!(Valid::<i32>::collect(vec![]).to_result(), Ok(vec![]));
}

#[test]
fn collect_reports_every_failure_in_order() {
    let results = vec![
        fail::<i32>("first"),
        Valid::succeed(2),
        fail::<i32>("second").trace("x"),
        Valid::succeed(4),
        fail::<i32>("third"),
    ];
    assert_eq!(
        Valid::collect(results).to_result(),
        Err(vec![cause("first", &[]), cause("second", &["x"]), cause("third", &[])])
    );
}

#[test]
fn from_iter_calls_every_item_and_accumulates() {
    let items = vec![1, -2, 3, -4];
    let mut seen = std::cell::Cell::new(0);
    let result = Valid::from_iter(&items, |n: &i32| {
        seen.set(seen.get() + 1);
        if *n > 0 {
            Valid::succeed(*n * 2)
        } else {
            Valid::fail(format!("{} is negative", n))
        }
    });
    assert_eq!(
        result.to_result(),
        Err(vec![cause("-2 is negative", &[]), cause("-4 is negative", &[])])
    );
    assert_eq!(seen.get_mut().clone(), 4);
    let doubled = Valid::from_iter(&vec![1, 2], |n: &i32| Valid::succeed(*n * 2));
    assert_eq!(doubled.to_result(), Ok(vec![2, 4]));
}
