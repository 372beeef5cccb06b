use thor::text::{joined, replace_all};

#[test]
fn replace_all_is_left_to_right_and_non_overlapping() {
    assert_eq!(replace_all("aaaa", "aa", "b"), "bb");
    assert_eq!(replace_all("aaa", "aa", "b"), "ba");
    assert_eq!(replace_all("abcabc", "bc", ""), "aa");
    assert_eq!(replace_all("", "x", "y"), "");
    assert_eq!(replace_all("x", "xyz", "q"), "x");
}

#[test]
fn replacing_absent_or_identical_pattern_changes_nothing() {
    assert_eq!(replace_all("plain text", "{proxy_id}", "p1"), "plain text");
    assert_eq!(replace_all("a{b}a{b}", "{b}", "{b}"), "a{b}a{b}");
}

#[test]
fn joined_strings() {
    assert_eq!(joined("ab", "cd"), "abcd");
    assert_eq!(joined("", "é"), "é");
}
