use stem::text::{replace_all, replace_first};

#[test]
fn replace_first_occurrence_only() {
    assert_eq!(replace_first("a-b-c", "-", "+"), "a+b-c");
    assert_eq!(replace_first("abc", "x", "y"), "abc");
    assert_eq!(replace_first("ééxé", "xé", "!"), "éé!");
    assert_eq!(replace_first("aaa", "aa", "b"), "ba");
}

#[test]
fn replace_every_occurrence_left_to_right() {
    assert_eq!(replace_all("a-b-c", "-", "+"), "a+b+c");
    assert_eq!(replace_all("aaa", "aa", "b"), "ba");
    assert_eq!(replace_all("", "a", "b"), "");
    assert_eq!(replace_all("abab", "ab", ""), "");
}
