use gcp_logging::text::{
    join_texts, less_text, same_text, sort_pairs_by_key, trim, trim_quotes, trim_trailing_commas,
};

#[test]
fn trims_white_space_at_both_ends() {
    assert_eq!(trim("  {  \n"), "{");
    assert_eq!(trim("\t\u{a0} a b \u{3000}"), "a b");
    assert_eq!(trim("   "), "");
    assert_eq!(trim(""), "");
}

#[test]
fn trims_quotes_and_commas() {
    assert_eq!(trim_quotes("\"POST\""), "POST");
    assert_eq!(trim_quotes("no quotes"), "no quotes");
    assert_eq!(trim_trailing_commas("{\"a\": 1},,"), "{\"a\": 1}");
    assert_eq!(trim_trailing_commas(",x"), ",x");
}

#[test]
fn compares_texts() {
    assert!(same_text("héllo", "héllo"));
    assert!(!same_text("hello", "hell"));
    assert!(less_text("abc", "abd"));
    assert!(less_text("ab", "abc"));
    assert!(!less_text("abc", "abc"));
    assert!(!less_text("b", "abc"));
    assert!(less_text("Z", "a"));
    assert!(less_text("z", "é"));
}

#[test]
fn joins_texts() {
    let parts = vec!["a=1".to_owned(), "b=2".to_owned(), "c=3".to_owned()];
    assert_eq!(join_texts(&parts, ", "), "a=1, b=2, c=3");
    assert_eq!(join_texts(&Vec::new(), ", "), "");
    assert_eq!(join_texts(&vec!["only".to_owned()], ", "), "only");
}

#[test]
fn sorts_pairs_stably_by_key() {
    let pairs = vec![
        ("foo".to_owned(), "bar".to_owned()),
        ("baz".to_owned(), "qux".to_owned()),
        ("foo".to_owned(), "second".to_owned()),
        ("a".to_owned(), "first".to_owned()),
    ];
    let sorted = sort_pairs_by_key(pairs);
    let expected: Vec<(String, String)> = vec![
        ("a".to_owned(), "first".to_owned()),
        ("baz".to_owned(), "qux".to_owned()),
        ("foo".to_owned(), "bar".to_owned()),
        ("foo".to_owned(), "second".to_owned()),
    ];
    assert_eq!(sorted, expected);
}
