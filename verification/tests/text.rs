use news_corpus::text::{
    chars_of, contains, contains_chars, join, matches_at, push_all, replace, replace_chars,
    string_of,
};

fn chars(s: &str) -> Vec<char> {
    s.chars().collect()
}

#[test]
fn chars_and_strings_convert_both_ways() {
    assert_eq!(chars_of("héllo"), vec!['h', 'é', 'l', 'l', 'o']);
    assert_eq!(string_of(&vec!['h', 'é', 'l', 'l', 'o']), "héllo");
    assert_eq!(chars_of(""), Vec::<char>::new());
    assert_eq!(string_of(&Vec::new()), "");
}

#[test]
fn push_all_appends() {
    let mut out = chars("ab");
    push_all(&mut out, &chars("cd"));
    assert_eq!(out, chars("abcd"));
}

#[test]
fn matches_at_checks_position_and_bounds() {
    assert!(matches_at(&chars("hello"), &chars("ll"), 2));
    assert!(!matches_at(&chars("hello"), &chars("ll"), 1));
    assert!(!matches_at(&chars("hello"), &chars("lo"), 4));
    assert!(matches_at(&chars("hello"), &chars(""), 5));
    assert!(!matches_at(&chars("hello"), &chars(""), 6));
}

#[test]
fn contains_agrees_with_std() {
    let cases = [
        ("/news/story", "/news/"),
        ("/sports/story", "/news/"),
        ("/news", "/news/"),
        ("", ""),
        ("abc", ""),
        ("", "a"),
        ("aaab", "aab"),
        ("tail/news/", "/news/"),
    ];
    for (s, p) in cases {
        assert_eq!(contains(s, p), s.contains(p));
        assert_eq!(contains_chars(&chars(s), &chars(p)), s.contains(p));
    }
}

#[test]
fn replace_agrees_with_std_for_non_empty_patterns() {
    let cases = [
        ("Sample Story | National Post", " | National Post", ""),
        ("a b  c", " ", "_"),
        ("aaaa", "aa", "b"),
        ("aaa", "aa", "b"),
        ("5-Mar-2024", "Mar", "3"),
        ("March", "Mar", "03"),
        ("abc", "abcd", "x"),
        ("", "a", "b"),
        ("one\n two\n three", "\n ", ""),
        ("ababab", "ab", "abab"),
        ("xay", "a", "aa"),
    ];
    for (s, from, to) in cases {
        assert_eq!(replace(s, from, to), s.replace(from, to));
        assert_eq!(string_of(&replace_chars(&chars(s), &chars(from), &chars(to))), s.replace(from, to));
    }
}

#[test]
fn replace_with_exact_results() {
    assert_eq!(replace("aaaa", "aa", "b"), "bb");
    assert_eq!(replace("aaa", "aa", "b"), "ba");
    assert_eq!(replace("a b c", " ", "_"), "a_b_c");
}

#[test]
fn replace_with_empty_pattern_changes_nothing() {
    assert_eq!(replace("abc", "", "x"), "abc");
    assert_eq!(replace("", "", "x"), "");
}

#[test]
fn join_puts_separator_between_parts() {
    let parts = vec![String::from("a"), String::from("b"), String::from("c")];
    assert_eq!(join(&parts, "\n"), "a\nb\nc");
    assert_eq!(join(&vec![String::from("a")], "\n"), "a");
    assert_eq!(join(&Vec::new(), "\n"), "");
    assert_eq!(join(&vec![String::new(), String::new()], ", "), ", ");
}
