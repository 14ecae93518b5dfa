use rubin_love_tui::text::{
    chars_of, contains_exec, dedup_strings, find_char, has_prefix_exec, push_decimal,
    replace_all_exec, rfind_char, slice_chars, string_of,
};

fn v(s: &str) -> Vec<char> {
    s.chars().collect()
}

#[test]
fn decimal_digits() {
    let mut out = Vec::new();
    push_decimal(&mut out, 0);
    assert_eq!(out, v("0"));
    let mut out = v("x=");
    push_decimal(&mut out, 4294967295);
    assert_eq!(out, v("x=4294967295"));
    let mut out = Vec::new();
    push_decimal(&mut out, u64::MAX);
    assert_eq!(string_of(&out), u64::MAX.to_string());
}

#[test]
fn chars_and_strings_round_trip() {
    assert_eq!(chars_of("añb\u{1F494}"), vec!['a', 'ñ', 'b', '\u{1F494}']);
    assert_eq!(string_of(&chars_of("añb\u{1F494}")), "añb\u{1F494}");
    assert_eq!(string_of(&Vec::new()), "");
}

#[test]
fn searching() {
    assert!(contains_exec(&v(" << "), &v("<<")));
    assert!(!contains_exec(&v(" < <"), &v("<<")));
    assert!(contains_exec(&v("abc"), &v("")));
    assert!(!contains_exec(&v("ab"), &v("abc")));
    assert!(has_prefix_exec(&v("auxtel/a.py"), &v("auxtel/")));
    assert!(!has_prefix_exec(&v("aux"), &v("auxtel/")));
    assert_eq!(find_char(&v("a/b/c"), '/'), Some(1));
    assert_eq!(rfind_char(&v("a/b/c"), '/'), Some(3));
    assert_eq!(find_char(&v("abc"), '/'), None);
    assert_eq!(rfind_char(&v(""), '/'), None);
    assert_eq!(slice_chars(&v("abcdef"), 2, 4), v("cd"));
}

#[test]
fn replacing() {
    assert_eq!(replace_all_exec(&v(" - a - b >>"), &v(" - "), &v("")), v("ab >>"));
    assert_eq!(replace_all_exec(&v("aaa"), &v("aa"), &v("b")), v("ba"));
    assert_eq!(replace_all_exec(&v("xyz"), &v("q"), &v("r")), v("xyz"));
    assert_eq!(replace_all_exec(&v("a.b.c"), &v("."), &v("::")), v("a::b::c"));
}

#[test]
fn deduplicating_adjacent_strings() {
    let s = |x: &str| x.to_string();
    assert_eq!(dedup_strings(vec![s("a"), s("a"), s("b"), s("a"), s("a")]), vec![s("a"), s("b"), s("a")]);
    assert_eq!(dedup_strings(vec![]), Vec::<String>::new());
    assert_eq!(dedup_strings(vec![s("x")]), vec![s("x")]);
}
