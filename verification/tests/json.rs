use tailcall::json::Value;

fn text(value: &str) -> String {
    value.to_string()
}

#[test]
fn copy_is_deep_and_equal() {
    let value = Value::Object(vec![
        (text("null"), Value::Null),
        (text("flag"), Value::Bool(true)),
        (text("whole"), Value::Int(-7)),
        (text("number"), Value::Number(text("2.50"))),
        (text("text"), Value::String(text("caf\u{e9}"))),
        (
            text("list"),
            Value::List(vec![
                Value::List(vec![]),
                Value::Object(vec![(text("a"), Value::Int(1)), (text("a"), Value::Int(2))]),
            ]),
        ),
    ]);
    assert_eq!(value.copy(), value);
    assert_eq!(value.clone(), value);
}

#[test]
fn number_is_kept_as_written() {
    assert_eq!(Value::Number(text("1e10")).copy(), Value::Number(text("1e10")));
    assert_ne!(Value::Number(text("1.0")), Value::Number(text("1.00")));
    assert_ne!(Value::Number(text("1")), Value::Int(1));
}
