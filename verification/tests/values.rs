use utopia::chars::is_alphanumeric;
use utopia::ids::id_json;
use utopia::json::{array, Json, Member};
use utopia::moment::{is_contract_time, Moment, MAX_SECS, MIN_SECS};
use utopia::single::{Single, HALF, ONE, ZERO};
use utopia::strings::{
    comes_no_later, contains, eq_ignore_ascii_case, fold_spaces, join, same, trim, write_decimal,
    write_hex, write_signed,
};

fn single(x: f32) -> Single {
    Single { bits: x.to_bits() }
}

#[test]
fn patterns_are_ordered_like_the_numbers() {
    let numbers = [
        f32::NEG_INFINITY,
        f32::MIN,
        -1.5,
        -f32::MIN_POSITIVE,
        -1e-45,
        -0.0,
        0.0,
        1e-45,
        f32::MIN_POSITIVE,
        0.5,
        0.75,
        0.85,
        1.0,
        f32::MAX,
        f32::INFINITY,
        f32::NAN,
        -f32::NAN,
    ];
    for a in numbers {
        for b in numbers {
            assert_eq!(single(a).at_least(single(b)), a >= b, "{a} {b}");
        }
        let clamped = f32::from_bits(single(a).clamp_unit().bits);
        assert_eq!(clamped.to_bits(), a.clamp(0.0, 1.0).to_bits(), "{a}");
    }
    assert_eq!((ZERO, HALF, ONE), (0.0f32.to_bits(), 0.5f32.to_bits(), 1.0f32.to_bits()));
}

#[test]
fn moments_are_written_in_utc() {
    let at = Moment { secs: 1_788_681_600, nanos: 0 };
    assert_eq!(at.day(), "2026-09-06");
    assert_eq!(at.rfc3339(), "2026-09-06T08:00:00Z");
    assert_eq!(Moment { secs: -1, nanos: 500_000_000 }.rfc3339(), "1969-12-31T23:59:59.500Z");
    assert_eq!(Moment { secs: 0, nanos: 123_000 }.rfc3339(), "1970-01-01T00:00:00.000123Z");
    assert_eq!(Moment { secs: MIN_SECS, nanos: 0 }.rfc3339(), "-262143-01-01T00:00:00Z");
    assert_eq!(
        Moment { secs: MAX_SECS, nanos: 1_999_999_999 }.rfc3339(),
        "+262142-12-31T23:59:60.999999999Z"
    );
    assert_eq!(Moment { secs: MIN_SECS, nanos: 0 }.day(), "-262143-01-01");
    assert_eq!(Moment { secs: MAX_SECS, nanos: 0 }.day(), "+262142-12-31");
}

#[test]
fn written_times_follow_the_contract() {
    for s in ["2026", "2026-06", "2026-07-26", " 2026 ", "2026-07-26T08:00:00Z", "2024-02-29"] {
        assert!(is_contract_time(s), "{s}");
    }
    for s in ["", "26", "2026-13", "2026-00", "2026-02-30", "2023-02-29", "Q2 FY27", "2026-7", "2026-07-26T08:00:00"] {
        assert!(!is_contract_time(s), "{s}");
    }
}

#[test]
fn identifiers_are_hyphenated() {
    assert_eq!(
        id_json(0x0123_4567_89ab_cdef_0123_4567_89ab_cdef),
        Json::Text("01234567-89ab-cdef-0123-456789abcdef".into())
    );
    assert_eq!(id_json(0), Json::Text("00000000-0000-0000-0000-000000000000".into()));
}

#[test]
fn numbers_and_bytes_are_written() {
    assert_eq!(write_decimal(0), "0");
    assert_eq!(write_decimal(u64::MAX), u64::MAX.to_string());
    assert_eq!(write_signed(i64::MIN), i64::MIN.to_string());
    assert_eq!(write_signed(-70), "-70");
    assert_eq!(write_hex(&vec![0, 15, 171, 255]), "000fabff");
}

#[test]
fn texts_are_cut_and_put_together() {
    assert_eq!(trim("\u{3000} a b\t"), "a b");
    assert_eq!(fold_spaces("  a \n b  "), "a b");
    assert_eq!(join(&vec!["a".into(), "b".into()], "##"), "a##b");
    assert_eq!(join(&vec![], "##"), "");
    assert!(contains("abc", "bc") && contains("abc", "") && !contains("abc", "d"));
    assert!(same("é", "é") && !same("é", "e"));
    assert!(eq_ignore_ascii_case("DoNe", "done") && !eq_ignore_ascii_case("É", "é"));
}

#[test]
fn texts_are_ordered_by_their_characters() {
    let texts = ["", "a", "ab", "b", "é", "星", "\u{10000}"];
    for a in texts {
        for b in texts {
            assert_eq!(comes_no_later(a, b), a <= b, "{a} {b}");
        }
    }
}

#[test]
fn a_copied_tree_is_the_same_tree() {
    let tree = array(vec![
        Json::Null,
        Json::Bool(true),
        Json::Single(single(0.9)),
        Json::Object(vec![Member { key: "k".into(), value: Json::Number("1".into()) }]),
    ]);
    assert_eq!(tree.copy(), tree);
    assert!(Json::Null.is_null() && !tree.is_null());
}

#[test]
fn the_classes_of_characters_are_those_of_unicode() {
    let mut blanks = Vec::new();
    for c in '\0'..=char::MAX {
        assert_eq!(is_alphanumeric(c), c.is_alphanumeric(), "{c:?}");
        if c.is_whitespace() {
            blanks.push(c as u32);
        }
    }
    let listed: Vec<u32> = (0x9..=0xd)
        .chain([0x20, 0x85, 0xa0, 0x1680])
        .chain(0x2000..=0x200a)
        .chain([0x2028, 0x2029, 0x202f, 0x205f, 0x3000])
        .collect();
    assert_eq!(blanks, listed);
}

#[test]
fn folding_twice_is_folding_once() {
    let all: String = (0..0x3001u32).filter_map(char::from_u32).filter(|c| c.is_whitespace()).collect();
    let once = fold_spaces(&format!("{all}a{all}b c{all}"));
    assert_eq!(once, "a b c");
    assert_eq!(fold_spaces(&once), once);
    assert_eq!(fold_spaces(&all), "");
}

#[test]
fn a_moment_lies_within_the_calendar() {
    assert_eq!(Moment::at(0, 0), Some(Moment { secs: 0, nanos: 0 }));
    assert!(Moment::at(MIN_SECS, 0).is_some() && Moment::at(MAX_SECS, 0).is_some());
    assert!(Moment::at(MIN_SECS - 1, 0).is_none() && Moment::at(MAX_SECS + 1, 0).is_none());
    assert!(Moment::at(59, 1_999_999_999).is_some() && Moment::at(-1, 1_000_000_000).is_some());
    assert!(Moment::at(58, 1_000_000_000).is_none() && Moment::at(59, 2_000_000_000).is_none());
}
