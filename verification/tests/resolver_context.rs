use indexmap::IndexMap;
use tailcall::json::Value;
use tailcall::lambda::resolver_context_like::{
    merge_args, EmptyResolverContext, ResolverContextLike, ResolverContextWithArgs, SelectionField,
    ServerError,
};

fn text(value: &str) -> String {
    value.to_string()
}

fn pairs(items: &[(&str, &str)]) -> Vec<(String, String)> {
    items.iter().map(|(name, value)| (text(name), text(value))).collect()
}

fn entries(map: &IndexMap<String, Value>) -> Vec<(String, Value)> {
    map.iter().map(|(name, value)| (name.clone(), value.clone())).collect()
}

struct Fixed {
    value: Value,
    args: IndexMap<String, Value>,
    errors: std::cell::RefCell<Vec<String>>,
}

impl ResolverContextLike for Fixed {
    fn value(&self) -> Option<&Value> {
        Some(&self.value)
    }

    fn args(&self) -> Option<IndexMap<String, Value>> {
        Some(self.args.clone())
    }

    fn field(&self) -> Option<SelectionField> {
        Some(SelectionField { name: text("post") })
    }

    fn add_error(&self, error: ServerError) {
        self.errors.borrow_mut().push(error.message);
    }
}

fn fixed() -> Fixed {
    let mut args = IndexMap::new();
    args.insert(text("id"), Value::Int(1));
    args.insert(text("lang"), Value::String(text("en")));
    Fixed { value: Value::Bool(true), args, errors: std::cell::RefCell::new(vec![]) }
}

#[test]
fn empty_context_has_nothing() {
    let context = EmptyResolverContext;
    assert_eq!(context.value(), None);
    assert_eq!(context.args(), None);
    assert_eq!(context.field(), None);
    context.add_error(ServerError { message: text("dropped") });
}

#[test]
fn extra_arguments_over_an_empty_context() {
    let source = EmptyResolverContext;
    let extra = pairs(&[("b", "2"), ("a", "\"x\"")]);
    let context = ResolverContextWithArgs::new(&source, &extra);
    let args = context.args().expect("arguments");
    assert_eq!(
        entries(&args),
        vec![(text("b"), Value::String(text("2"))), (text("a"), Value::String(text("\"x\"")))]
    );
    assert_eq!(context.value(), None);
    assert_eq!(context.field(), None);
}

#[test]
fn arguments_of_the_wrapped_context_override_in_place() {
    let source = fixed();
    let extra = pairs(&[("lang", "\"de\""), ("page", "3")]);
    let context = ResolverContextWithArgs::new(&source, &extra);
    let args = context.args().expect("arguments");
    assert_eq!(
        entries(&args),
        vec![
            (text("lang"), Value::String(text("en"))),
            (text("page"), Value::String(text("3"))),
            (text("id"), Value::Int(1)),
        ]
    );
}

#[test]
fn value_field_and_errors_go_to_the_wrapped_context() {
    let source = fixed();
    let extra = pairs(&[]);
    let context = ResolverContextWithArgs::new(&source, &extra);
    assert_eq!(context.value(), Some(&Value::Bool(true)));
    assert_eq!(context.field(), Some(SelectionField { name: text("post") }));
    context.add_error(ServerError { message: text("failed") });
    assert_eq!(source.errors.borrow().clone(), vec![text("failed")]);
}

#[test]
fn contexts_with_extra_arguments_nest() {
    let source = fixed();
    let inner_extra = pairs(&[("a", "1")]);
    let inner = ResolverContextWithArgs::new(&source, &inner_extra);
    let outer_extra = pairs(&[("a", "2"), ("z", "9")]);
    let outer = ResolverContextWithArgs::new(&inner, &outer_extra);
    let args = outer.args().expect("arguments");
    assert_eq!(
        entries(&args),
        vec![
            (text("a"), Value::String(text("1"))),
            (text("z"), Value::String(text("9"))),
            (text("id"), Value::Int(1)),
            (text("lang"), Value::String(text("en"))),
        ]
    );
}

#[test]
fn merge_args_keeps_the_last_of_a_repeated_extra_argument() {
    let merged = merge_args(&pairs(&[("a", "1"), ("b", "2"), ("a", "3")]), None);
    assert_eq!(
        entries(&merged),
        vec![(text("a"), Value::String(text("3"))), (text("b"), Value::String(text("2")))]
    );
}

#[test]
fn merge_args_copies_nested_values() {
    let nested = Value::Object(vec![(
        text("items"),
        Value::List(vec![Value::Null, Value::Number(text("1.5")), Value::Bool(false)]),
    )]);
    let mut source = IndexMap::new();
    source.insert(text("filter"), nested.clone());
    let merged = merge_args(&pairs(&[]), Some(source));
    assert_eq!(entries(&merged), vec![(text("filter"), nested)]);
}
