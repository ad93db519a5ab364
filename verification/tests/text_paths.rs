use aksum::paths::{join, split_once_slash};
use aksum::text::{chars_of, contains_chars, replace_all_chars, string_of, trim_chars};

fn chars(s: &str) -> Vec<char> {
    s.chars().collect()
}

fn replaced(s: &str, p: &str, r: &str) -> String {
    string_of(&replace_all_chars(&chars(s), &chars(p), &chars(r)))
}

#[test]
fn replace_all_matches_std_replace() {
    for (s, p, r) in [
        ("a-b-c", "-", "+"),
        ("aaaa", "aa", "b"),
        ("abc", "", "x"),
        ("", "", "x"),
        ("", "a", "x"),
        ("xyz", "q", "w"),
        ("// m\n// m\n", "// m", "line\n// m"),
    ] {
        assert_eq!(replaced(s, p, r), s.replace(p, r), "{s:?} {p:?} {r:?}");
    }
}

#[test]
fn replace_empty_pattern_inserts_everywhere() {
    assert_eq!(replaced("ab", "", "x"), "xaxbx");
}

#[test]
fn contains_matches_std() {
    for (s, p) in [("hello", "ell"), ("hello", "lo!"), ("", ""), ("abc", ""), ("ab", "abc")] {
        assert_eq!(contains_chars(&chars(s), &chars(p)), s.contains(p));
    }
}

#[test]
fn trim_matches_std() {
    for s in ["  pub mod x;  ", "\t\n", "", "x", " \u{a0}a b\u{3000}", "\u{2028}z"] {
        assert_eq!(string_of(&trim_chars(&chars(s))), s.trim());
    }
}

#[test]
fn chars_round_trip() {
    let s = "héllo wörld";
    assert_eq!(string_of(&chars_of(s)), s);
}

#[test]
fn join_behaves_like_path_join() {
    assert_eq!(join("a", "b"), "a/b");
    assert_eq!(join("a/", "b"), "a/b");
    assert_eq!(join("", "b"), "b");
    assert_eq!(join("a", "/b"), "/b");
    assert_eq!(join("a", ""), "a/");
    assert_eq!(join("src/modules", "users"), "src/modules/users");
    for (a, b) in [("x", "y/z"), ("x/", "y"), ("", ""), ("p", "/q")] {
        let expected = std::path::Path::new(a).join(b);
        assert_eq!(join(a, b), expected.to_str().unwrap());
    }
}

#[test]
fn split_once_slash_cases() {
    assert_eq!(split_once_slash("users/get_profile"), Some(("users".to_string(), "get_profile".to_string())));
    assert_eq!(split_once_slash("users/"), Some(("users".to_string(), "".to_string())));
    assert_eq!(split_once_slash("/x"), Some(("".to_string(), "x".to_string())));
    assert_eq!(split_once_slash("users"), None);
    assert_eq!(split_once_slash("a/b/c"), None);
    assert_eq!(split_once_slash(""), None);
}
