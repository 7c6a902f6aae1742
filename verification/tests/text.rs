use unisbom::text::{chars_of, clone_strings, find, matches_at, push_decimal, push_str, replace, same_text, slice_chars, trim};

fn chars(s: &str) -> Vec<char> {
    s.chars().collect()
}

fn text(v: &Vec<char>) -> String {
    v.iter().collect()
}

#[test]
fn characters_of_a_text_come_in_order() {
    assert_eq!(chars_of("a\u{e9}\u{1F600}"), vec!['a', '\u{e9}', '\u{1F600}']);
    assert_eq!(chars_of(""), Vec::<char>::new());
}

#[test]
fn same_text_compares_character_by_character() {
    assert!(same_text("DisplayName", "DisplayName"));
    assert!(!same_text("DisplayName", "displayname"));
    assert!(!same_text("Path", "Pat"));
    assert!(same_text("", ""));
}

#[test]
fn strings_are_copied_as_they_are() {
    let list = vec!["a".to_string(), "".to_string(), "b c".to_string()];
    assert_eq!(clone_strings(&list), list);
}

#[test]
fn pattern_is_found_at_its_first_place() {
    let t = chars("a[Version b[Version c");
    let p = chars("[Version ");
    assert_eq!(find(&t, &p, 0), Some(1));
    assert_eq!(find(&t, &p, 2), Some(11));
    assert_eq!(find(&t, &p, 12), None);
    assert_eq!(find(&t, &chars("zz"), 0), None);
    assert_eq!(find(&chars("ab"), &chars("abc"), 0), None);
    assert!(matches_at(&t, &p, 1));
    assert!(!matches_at(&t, &p, 0));
    assert!(!matches_at(&t, &p, 20));
}

#[test]
fn replace_takes_occurrences_from_the_left_without_overlap() {
    assert_eq!(text(&replace(&chars("aaa"), &chars("aa"), &chars("b"))), "ba");
    assert_eq!(text(&replace(&chars("10.0]"), &chars("]"), &chars(""))), "10.0");
    assert_eq!(text(&replace(&chars("a\0b\0c"), &chars("\0"), &chars("\n"))), "a\nb\nc");
    assert_eq!(text(&replace(&chars("macOS 13.1 macOS "), &chars("macOS "), &chars(""))), "13.1 ");
    assert_eq!(text(&replace(&chars(""), &chars("x"), &chars("y"))), "");
    assert_eq!(text(&replace(&chars("abc"), &chars("x"), &chars("y"))), "abc");
}

#[test]
fn replace_agrees_with_the_standard_library() {
    for (t, p, w) in [("abcabc", "bc", "-"), ("xxxx", "xx", "xyx"), ("hello", "l", ""), ("]]a]", "]", "")] {
        assert_eq!(text(&replace(&chars(t), &chars(p), &chars(w))), t.replace(p, w));
    }
}

#[test]
fn trim_removes_white_space_at_both_ends() {
    assert_eq!(text(&trim(&chars("\r\n  a b \t\r\n"))), "a b");
    assert_eq!(text(&trim(&chars("   "))), "");
    assert_eq!(text(&trim(&chars(""))), "");
    assert_eq!(text(&trim(&chars("x"))), "x");
    assert_eq!(text(&trim(&chars("\u{a0}x\u{3000}"))), "x");
}

#[test]
fn slice_takes_the_part_between_two_positions() {
    assert_eq!(text(&slice_chars(&chars("abcdef"), 2, 4)), "cd");
    assert_eq!(text(&slice_chars(&chars("abcdef"), 3, 3)), "");
    assert_eq!(text(&slice_chars(&chars("abcdef"), 0, 6)), "abcdef");
}

#[test]
fn decimal_notation_has_no_leading_zeros() {
    for (n, expected) in [(0u64, "0"), (7, "7"), (10, "10"), (65535, "65535"), (4294967295, "4294967295"), (u64::MAX, "18446744073709551615")] {
        let mut out: Vec<char> = Vec::new();
        push_decimal(&mut out, n);
        assert_eq!(text(&out), expected);
    }
}

#[test]
fn pushing_appends_behind_what_is_there() {
    let mut out: Vec<char> = chars("v");
    push_decimal(&mut out, 12);
    push_str(&mut out, ".x");
    push_decimal(&mut out, 0);
    assert_eq!(text(&out), "v12.x0");
}
