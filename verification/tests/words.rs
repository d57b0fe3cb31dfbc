//! Text functions, held against those of the standard library.

use beamtalk_uat::scenario::normalize;
use beamtalk_uat::text::{
    contains, decimal_text, ends_with, is_white, join, less, same_ignoring_case, signed_text, trim, word,
    words,
};

const SAMPLES: &[&str] = &[
    "",
    " ",
    "a",
    " a b ",
    "\u{2003}x\u{85}y\u{a0}",
    "tab\tline\nend",
    "é☃𝄞",
    "aXbXc",
    "abab",
    "\u{200b}zero\u{200b}",
];

#[test]
fn whitespace_is_that_of_unicode() {
    for n in 0..=0x10ffffu32 {
        if let Some(c) = char::from_u32(n) {
            assert_eq!(is_white(c), c.is_whitespace(), "{n:x}");
        }
    }
}

#[test]
fn trimming_and_splitting() {
    for s in SAMPLES {
        assert_eq!(trim(s), s.trim(), "{s:?}");
        let expected: Vec<String> = s.split_whitespace().map(str::to_string).collect();
        assert_eq!(words(s), expected, "{s:?}");
        assert_eq!(word(s), expected.first().cloned(), "{s:?}");
        assert_eq!(join(&expected, ", "), expected.join(", "), "{s:?}");
    }
}

#[test]
fn searching_and_comparing() {
    for a in SAMPLES {
        for b in SAMPLES {
            assert_eq!(contains(a, b), a.contains(b), "{a:?} {b:?}");
            assert_eq!(ends_with(a, b), a.ends_with(b), "{a:?} {b:?}");
            assert_eq!(less(a, b), a < b, "{a:?} {b:?}");
            assert_eq!(same_ignoring_case(a, b), a.eq_ignore_ascii_case(b), "{a:?} {b:?}");
        }
    }
    assert!(same_ignoring_case("aZ@[`{", "Az@[`{"));
    assert!(!same_ignoring_case("@", "`"));
}

#[test]
fn numbers() {
    for n in [0u64, 9, 10, 99, 100, 4294967296, u64::MAX] {
        assert_eq!(decimal_text(n), n.to_string());
    }
    for n in [0i64, -1, 10, -10, i64::MAX, i64::MIN] {
        assert_eq!(signed_text(n), n.to_string());
    }
}

#[test]
fn normalizing_twice_changes_nothing() {
    for s in [
        " <0.1.0>\t<0.2.0> ",
        "<<0.1.0>>",
        "<0.1.0.0>",
        "<0..0>",
        "<.1.0>",
        "<0.1>",
        "<0.1.0",
        "<0.1.x>",
        "\u{2003}a\u{85}\nb",
        "<pid>",
        "",
    ] {
        let once = normalize(s);
        assert_eq!(normalize(&once), once, "{s:?}");
    }
    assert_eq!(normalize("<<0.1.0>>"), "<<pid>>");
    assert_eq!(normalize("<0.1.0.0> <0..0> <.1.0> <0.1> <0.1.0"), "<0.1.0.0> <0..0> <.1.0> <0.1> <0.1.0");
    assert_eq!(normalize("<12.345.6789>"), "<pid>");
    assert_eq!(normalize("é<0.1.0>☃"), "é<pid>☃");
}

#[test]
fn outputs_that_differ_in_pids_alone_are_equal() {
    assert_eq!(normalize("actor <0.87.0> up"), normalize("  actor\n<0.1234.5>  up\n"));
    assert_ne!(normalize("actor <0.87.0> up"), normalize("actor <0.87> up"));
}
