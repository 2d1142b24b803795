use swagterm::text::{
    chars_of, concat_str, replace, split_char, split_once, str_contains, str_eq, str_starts_with,
    strip_prefix, to_lowercase, to_uppercase,
};

#[test]
fn replace_swaps_every_placeholder() {
    assert_eq!(replace("/pet/{id}/owner/{id}", "{id}", "7"), "/pet/7/owner/7");
    assert_eq!(replace("/pet", "{id}", "7"), "/pet");
    assert_eq!(replace("aaa", "aa", "b"), "ba");
}

#[test]
fn split_once_cuts_at_the_first_separator() {
    assert_eq!(split_once("X-Key=a=b", '='), Some(("X-Key".to_string(), "a=b".to_string())));
    assert_eq!(split_once("user:", ':'), Some(("user".to_string(), String::new())));
    assert_eq!(split_once("nothing", '='), None);
}

#[test]
fn split_char_keeps_empty_pieces() {
    assert_eq!(split_char("/pet/{id}", '/'), vec!["", "pet", "{id}"]);
    assert_eq!(split_char("", '/'), vec![""]);
    assert_eq!(split_char("a//b/", '/'), vec!["a", "", "b", ""]);
}

#[test]
fn substring_search() {
    assert!(str_contains("/store/order", "ore/o"));
    assert!(str_contains("anything", ""));
    assert!(!str_contains("pet", "pets"));
    assert!(str_starts_with("#/definitions/Pet", "#/definitions/"));
    assert!(!str_starts_with("#/def", "#/definitions/"));
}

#[test]
fn strip_prefix_removes_only_a_leading_match() {
    assert_eq!(strip_prefix("#/definitions/Pet", "#/definitions/"), Some("Pet".to_string()));
    assert_eq!(strip_prefix("Pet", "#/definitions/"), None);
}

#[test]
fn case_and_equality() {
    assert_eq!(to_lowercase("GET /Pet"), "get /pet");
    assert_eq!(to_uppercase("patch"), "PATCH");
    assert_eq!(to_lowercase(""), "");
    assert!(str_eq("héllo", "héllo"));
    assert!(!str_eq("a", "ab"));
    assert_eq!(concat_str("ab", "cd"), "abcd");
    assert_eq!(chars_of("hé"), vec!['h', 'é']);
}
