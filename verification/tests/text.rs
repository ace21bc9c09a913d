use std::borrow::Cow;
use utopia::text::without_nul;

#[test]
fn nul_is_stripped_and_the_rest_is_kept() {
    let got = without_nul("a\0b\0\0c");
    assert_eq!(got, "abc");
    assert!(matches!(got, Cow::Owned(_)));
    assert_eq!(without_nul("\0"), "");
}

#[test]
fn a_text_without_nul_is_borrowed() {
    let body = "星辰能源 — no nul here";
    let got = without_nul(body);
    assert!(matches!(got, Cow::Borrowed(_)));
    assert_eq!(got, body);
    assert!(matches!(without_nul(""), Cow::Borrowed(_)));
}

#[test]
fn stripping_twice_is_stripping_once() {
    let once = without_nul("a\0b").into_owned();
    let twice = without_nul(&once);
    assert!(matches!(twice, Cow::Borrowed(_)));
    assert_eq!(twice, "ab");
}
