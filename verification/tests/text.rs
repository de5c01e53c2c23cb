use fyrox_graphics_wgpu::text::{
    chars_of, contains, decimal_of, ends_with, find, join_with, replace, split_on_char, split_whitespace_of,
    starts_with, trim_of,
};

fn string_of(v: &[char]) -> String {
    v.iter().collect()
}

fn v(s: &str) -> Vec<char> {
    s.chars().collect()
}

#[test]
fn find_and_contains() {
    assert_eq!(find(&v("abcabc"), &v("bc"), 0), Some(1));
    assert_eq!(find(&v("abcabc"), &v("bc"), 2), Some(4));
    assert_eq!(find(&v("abc"), &v("x"), 0), None);
    assert!(contains(&v("hello world"), &v("o w")));
    assert!(starts_with(&v("hello"), &v("he")));
    assert!(ends_with(&v("hello"), &v("llo")));
    assert!(!ends_with(&v("lo"), &v("hello")));
}

#[test]
fn replace_is_left_to_right_and_non_overlapping() {
    assert_eq!(string_of(&replace(&v("aaaa"), &v("aa"), &v("b"))), "bb");
    assert_eq!(string_of(&replace(&v("abc"), &v("x"), &v("y"))), "abc");
    assert_eq!(string_of(&replace(&v("a.b.c"), &v("."), &v("::"))), "a::b::c");
}

#[test]
fn trim_split_join() {
    assert_eq!(string_of(&trim_of(&v("  a b \n"))), "a b");
    let parts = split_on_char(&v("a,,b"), ',');
    assert_eq!(parts, vec![v("a"), v(""), v("b")]);
    let tokens = split_whitespace_of(&v("  in  sampler2D\ts "));
    assert_eq!(tokens, vec![v("in"), v("sampler2D"), v("s")]);
    assert_eq!(string_of(&join_with(&tokens, &v(" "))), "in sampler2D s");
}

#[test]
fn decimal_digits() {
    assert_eq!(string_of(&decimal_of(0)), "0");
    assert_eq!(string_of(&decimal_of(205)), "205");
    assert_eq!(string_of(&chars_of("héllo")), "héllo");
}
