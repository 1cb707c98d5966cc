use course_descriptions::text::{
    contains, decimal_of, find, normalize, replace_all, substring, trim,
};

fn chars_of(t: &str) -> Vec<char> {
    t.chars().collect()
}

fn s(v: &[char]) -> String {
    v.iter().collect()
}

#[test]
fn find_reports_first_occurrence() {
    assert_eq!(find(&chars_of("abcabc"), &chars_of("bc")), Some(1));
    assert_eq!(find(&chars_of("abc"), &chars_of("x")), None);
    assert_eq!(find(&chars_of("abc"), &chars_of("")), Some(0));
    assert_eq!(find(&chars_of("ab"), &chars_of("abc")), None);
    assert!(contains(&chars_of("History of Informatics"), &chars_of("Informatics")));
}

#[test]
fn replace_all_matches_std_replace() {
    let cases = [("aaa", "aa", "b"), ("ab", "", "-"), ("", "", "x"), ("abcab", "ab", ""), ("A", "A", "B")];
    for (text, p, r) in cases {
        let got = replace_all(&chars_of(text), &chars_of(p), &chars_of(r));
        assert_eq!(s(&got), text.replace(p, r));
    }
}

#[test]
fn substring_clamps_to_length() {
    let v = chars_of("hello");
    assert_eq!(s(&substring(&v, 1, 3)), "el");
    assert_eq!(s(&substring(&v, 3, 1)), "");
    assert_eq!(s(&substring(&v, 2, 99)), "llo");
    assert_eq!(s(&substring(&v, 9, 99)), "");
}

#[test]
fn trim_removes_unicode_white_space() {
    assert_eq!(s(&trim(&chars_of("\u{a0} \tword  x\u{3000}\n"))), "word  x");
    assert_eq!(s(&trim(&chars_of("   "))), "");
}

#[test]
fn normalize_keeps_non_blank_lines() {
    assert_eq!(s(&normalize(&chars_of("\n  a \n\n\t\nb\n"))), "a\n\nb");
    assert_eq!(s(&normalize(&chars_of(""))), "");
    assert_eq!(s(&normalize(&chars_of("one"))), "one");
}

#[test]
fn decimal_of_writes_digits() {
    assert_eq!(s(&decimal_of(0)), "0");
    assert_eq!(s(&decimal_of(2024)), "2024");
    assert_eq!(s(&decimal_of(u32::MAX)), u32::MAX.to_string());
}
