use digital_crossover::text::{
    chars_of, contains, decimal_of, joined, replaced_first, same, search_from, stands_at,
    starts_with, string_of, to_lower, trimmed, white,
};

fn v(s: &str) -> Vec<char> {
    chars_of(s)
}

#[test]
fn characters_of_a_string() {
    assert_eq!(v("aß€"), vec!['a', 'ß', '€']);
    assert_eq!(v(""), Vec::<char>::new());
    assert_eq!(string_of(&v("hello"), 1, 3), "el");
    assert_eq!(string_of(&v("hello"), 2, 2), "");
}

#[test]
fn equal_strings() {
    assert!(same("", ""));
    assert!(same("core", "core"));
    assert!(!same("core", "cor"));
    assert!(!same("core", "corf"));
    assert!(!same("core", "score"));
}

#[test]
fn first_occurrence() {
    let s = v("abcabc");
    assert_eq!(search_from(&s, &v("bc"), 0), Some(1));
    assert_eq!(search_from(&s, &v("bc"), 1), Some(1));
    assert_eq!(search_from(&s, &v("bc"), 2), Some(4));
    assert_eq!(search_from(&s, &v("bc"), 5), None);
    assert_eq!(search_from(&s, &v("bcd"), 0), None);
    assert_eq!(search_from(&s, &v(""), 6), Some(6));
    assert_eq!(search_from(&s, &v(""), 7), None);
    assert_eq!(search_from(&v("aab"), &v("ab"), 0), Some(1));
    assert!(stands_at(&s, &v("abc"), 3));
    assert!(!stands_at(&s, &v("abc"), 4));
    assert!(!stands_at(&s, &v("a"), usize::MAX));
    assert!(contains(&s, "cab"));
    assert!(!contains(&s, "cb"));
    assert!(starts_with(&s, "ab"));
    assert!(!starts_with(&s, "b"));
}

#[test]
fn white_space_is_that_of_the_standard_library() {
    for n in 0..=0x10ffffu32 {
        if let Some(c) = char::from_u32(n) {
            assert_eq!(white(c), c.is_whitespace(), "{n:x}");
        }
    }
}

#[test]
fn trimming_takes_white_space_off_both_ends() {
    for s in ["", "  ", " a ", "a b", "\t\n a  b\r\n", "\u{3000}x\u{a0}", "\u{200b}x"] {
        let c = v(s);
        assert_eq!(trimmed(&c, 0, c.len()), s.trim());
    }
    assert_eq!(trimmed(&v("ab  c  d"), 2, 7), "c");
}

#[test]
fn small_letters() {
    let s = "HDMI-Ä Zz@[1";
    assert_eq!(to_lower(s), v(&s.to_ascii_lowercase()));
    assert_eq!(to_lower("AZ"), vec!['a', 'z']);
}

#[test]
fn replacing_the_first_occurrence() {
    assert_eq!(replaced_first("a-b-c", "-", "++"), "a++b-c");
    assert_eq!(replaced_first("abc", "x", "y"), "abc");
    assert_eq!(replaced_first("xx", "x", ""), "x");
    assert_eq!(joined("ab", "cd"), "abcd");
}

#[test]
fn decimal_digits() {
    for n in [0u64, 7, 10, 99, 100, 48000, 96000, u64::MAX] {
        assert_eq!(decimal_of(n), format!("{}", n));
    }
}
