use tailcall::text::{
    chars_of, copy_pairs, copy_text, copy_texts, is_text_before, join, same_text, sort_texts,
};

fn texts(items: &[&str]) -> Vec<String> {
    items.iter().map(|item| item.to_string()).collect()
}

#[test]
fn same_text_compares_characters() {
    assert!(same_text("abc", "abc"));
    assert!(same_text("", ""));
    assert!(!same_text("abc", "abd"));
    assert!(!same_text("abc", "ab"));
    assert!(!same_text("A", "a"));
}

#[test]
fn chars_of_gives_every_character() {
    assert_eq!(chars_of("a\u{e9}\u{1f680}"), vec!['a', '\u{e9}', '\u{1f680}']);
    assert_eq!(chars_of(""), Vec::<char>::new());
}

#[test]
fn join_puts_the_separator_between_neighbours() {
    assert_eq!(join(&texts(&["a", "b", "c"]), ", "), "a, b, c");
    assert_eq!(join(&texts(&["a"]), ", "), "a");
    assert_eq!(join(&texts(&[]), ", "), "");
    assert_eq!(join(&texts(&["", ""]), "-"), "-");
}

#[test]
fn copies_are_equal() {
    assert_eq!(copy_text(&Some("a".to_string())), Some("a".to_string()));
    assert_eq!(copy_text(&None), None);
    assert_eq!(copy_texts(&texts(&["a", "b"])), texts(&["a", "b"]));
    let pairs = vec![("a".to_string(), "1".to_string()), ("b".to_string(), "2".to_string())];
    assert_eq!(copy_pairs(&pairs), pairs);
}

#[test]
fn text_order_agrees_with_the_order_of_strings() {
    let samples =
        ["", "a", "A", "ab", "abc", "abd", "b", "_", "a1", "\u{e9}", "z\u{1f680}", "zz", "0"];
    for left in samples {
        for right in samples {
            assert_eq!(is_text_before(left, right), left < right, "{:?} {:?}", left, right);
        }
    }
}

#[test]
fn sort_texts_orders_and_keeps_every_text() {
    assert_eq!(
        sort_texts(&texts(&["pear", "apple", "fig", "apple", "Fig", ""])),
        texts(&["", "Fig", "apple", "apple", "fig", "pear"])
    );
    assert_eq!(sort_texts(&texts(&[])), texts(&[]));
    let mut expected = texts(&["d", "c", "b", "a", "ab", "aa"]);
    let sorted = sort_texts(&expected);
    expected.sort();
    assert_eq!(sorted, expected);
}
