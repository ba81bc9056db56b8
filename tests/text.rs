use tynkerbase_client::text::{contains, split, split_once};

#[test]
fn split_like_str_split() {
    assert_eq!(split("a|||b|||c", "|||"), vec!["a", "b", "c"]);
    assert_eq!(split("|||x|||", "|||"), vec!["", "x", ""]);
    assert_eq!(split("none", "|||"), vec!["none"]);
    assert_eq!(split("", "\n"), vec![""]);
    assert_eq!(split("a\nb\n", "\n"), "a\nb\n".split('\n').collect::<Vec<_>>());
}

#[test]
fn split_once_first_occurrence() {
    assert_eq!(split_once("k=v=w", "="), Some(("k".to_string(), "v=w".to_string())));
    assert_eq!(split_once("kv", "="), None);
    assert!(contains("abc Incorrect password", "Incorrect password"));
    assert!(!contains("abc", "abcd"));
}
