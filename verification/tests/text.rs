use oxocarbon::text::{find_first, replace_first, str_eq, trim_ascii};

#[test]
fn string_equality_by_characters() {
    assert!(str_eq("", ""));
    assert!(str_eq("bold", "bold"));
    assert!(!str_eq("bold", "bolder"));
    assert!(!str_eq("bold", "Bold"));
    assert!(str_eq("grün", "grün"));
    assert!(!str_eq("grün", "grun"));
}

#[test]
fn find_first_occurrence() {
    assert_eq!(find_first("#161616", "#161616"), Some(0));
    assert_eq!(find_first("x#161616y", "#161616"), Some(1));
    assert_eq!(find_first("aaa", "aa"), Some(0));
    assert_eq!(find_first("abcabc", "bc"), Some(1));
    assert_eq!(find_first("abc", "d"), None);
    assert_eq!(find_first("ab", "abc"), None);
    assert_eq!(find_first("abc", ""), Some(0));
}

#[test]
fn replace_first_occurrence_only() {
    assert_eq!(replace_first("#161616", "#161616", "#000000"), "#000000");
    assert_eq!(replace_first("a#16#16", "#16", "#99"), "a#99#16");
    assert_eq!(replace_first("abc", "zz", "yy"), "abc");
    assert_eq!(replace_first("tail#525252", "#525252", "#393939"), "tail#393939");
    // replacement text may be shorter or longer than the pattern
    assert_eq!(replace_first("abcdef", "cd", ""), "abef");
    assert_eq!(replace_first("abef", "be", "bcde"), "abcdef");
}

#[test]
fn trim_strips_ascii_whitespace() {
    assert_eq!(trim_ascii("  bold \t"), "bold");
    assert_eq!(trim_ascii("bold"), "bold");
    assert_eq!(trim_ascii("\n\r\t "), "");
    assert_eq!(trim_ascii(""), "");
    assert_eq!(trim_ascii(" a b "), "a b");
}
