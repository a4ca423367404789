use tailcall::mustache::{Mustache, Segment};

fn literal(text: &str) -> Segment {
    Segment::Literal(text.to_string())
}

fn expression(path: &[&str]) -> Segment {
    Segment::Expression(path.iter().map(|part| part.to_string()).collect())
}

#[test]
fn parse_plain_text_is_one_literal() {
    let template = Mustache::parse("hello world");
    assert_eq!(template.segments, vec![literal("hello world")]);
}

#[test]
fn parse_empty_text_is_one_empty_literal() {
    let template = Mustache::parse("");
    assert_eq!(template.segments, vec![literal("")]);
}

#[test]
fn parse_literal_then_expression() {
    let template = Mustache::parse("/posts/{{args.id}}");
    assert_eq!(template.segments, vec![literal("/posts/"), expression(&["args", "id"])]);
}

#[test]
fn parse_expression_with_blanks() {
    let template = Mustache::parse("{{ value . user_1 . name }}!");
    assert_eq!(
        template.segments,
        vec![expression(&["value", "user_1", "name"]), literal("!")]
    );
}

#[test]
fn parse_two_expressions_with_text_between() {
    let template = Mustache::parse("{{a}} and {{b.c}}");
    assert_eq!(
        template.segments,
        vec![expression(&["a"]), literal(" and "), expression(&["b", "c"])]
    );
}

#[test]
fn parse_adjacent_expressions() {
    let template = Mustache::parse("{{a}}{{b}}");
    assert_eq!(template.segments, vec![expression(&["a"]), expression(&["b"])]);
}

#[test]
fn parse_malformed_expressions_are_literal() {
    for text in ["{{}}", "{{a.}}", "{{.a}}", "{{a", "a{b", "{{1a}}", "{{a b}}", "{ {a}}", "{{a}"] {
        let template = Mustache::parse(text);
        assert_eq!(template.segments, vec![literal(text)], "{}", text);
    }
}

#[test]
fn parse_brace_before_expression() {
    let template = Mustache::parse("{{{a}}");
    assert_eq!(template.segments, vec![literal("{"), expression(&["a"])]);
}

#[test]
fn parse_keeps_text_that_is_not_ascii() {
    let template = Mustache::parse("caf\u{e9} {{x}} \u{1f680}");
    assert_eq!(
        template.segments,
        vec![literal("caf\u{e9} "), expression(&["x"]), literal(" \u{1f680}")]
    );
}

#[test]
fn literal_template_round_trips() {
    for text in ["", "plain", "http://example.com/a?b=c", "{{a", "a{b}c"] {
        assert_eq!(Mustache::parse(text).to_string(), text);
    }
}

#[test]
fn to_string_writes_expressions_without_blanks() {
    let template = Mustache::parse("/users/{{ args . id }}/posts");
    assert_eq!(template.to_string(), "/users/{{args.id}}/posts");
}

#[test]
fn to_string_of_built_template() {
    let template = Mustache {
        segments: vec![literal("a"), expression(&["x", "y"]), literal("b"), literal("c")],
    };
    assert_eq!(template.to_string(), "a{{x.y}}bc");
}

#[test]
fn is_const_tells_literal_templates() {
    assert!(Mustache::parse("no placeholders").is_const());
    assert!(Mustache::parse("").is_const());
    assert!(!Mustache::parse("a {{b}}").is_const());
    assert!(Mustache { segments: vec![] }.is_const());
}
