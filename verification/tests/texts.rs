use railway_santinvoice::failure::Failure;
use railway_santinvoice::text::chars_of;
use railway_santinvoice::text::find_from;
use railway_santinvoice::text::join;
use railway_santinvoice::text::lower;
use railway_santinvoice::text::parse_u16;
use railway_santinvoice::text::same_text;
use railway_santinvoice::text::starts_with;
use railway_santinvoice::text::to_ascii_lowercase;
use railway_santinvoice::text::trim;
use railway_santinvoice::text::trim_end_matches;
use railway_santinvoice::text::white_space;

const SAMPLES: [&str; 12] = [
    "",
    " ",
    "a",
    "  a b  ",
    "\t\n\r x",
    "\u{A0}\u{3000}ä\u{2003}",
    "no space",
    "x\u{200B}",
    "\u{FEFF}x",
    "Straße ",
    "  ",
    "\u{85}y\u{85}",
];

#[test]
fn white_space_is_that_of_unicode() {
    for code in 0..=0x10_FFFF_u32 {
        if let Some(c) = char::from_u32(code) {
            assert_eq!(white_space(c), c.is_whitespace(), "{code:x}");
        }
    }
}

#[test]
fn trimming_agrees_with_the_standard_library() {
    for s in SAMPLES {
        assert_eq!(trim(s), s.trim());
        assert_eq!(trim(trim(s)), trim(s));
    }
}

#[test]
fn capitals_are_lowered_in_ascii_only() {
    for code in 0..=0x24F_u32 {
        let c = char::from_u32(code).unwrap();
        assert_eq!(lower(c), c.to_ascii_lowercase());
    }
    for s in ["BeArEr X", "ÄB", "", "abc"] {
        assert_eq!(to_ascii_lowercase(s), s.to_ascii_lowercase());
    }
}

#[test]
fn searching_finds_the_first_occurrence() {
    let find = |s: &str, p: &str, from: usize| find_from(&chars_of(s), &chars_of(p), from);
    assert_eq!(find("abcabc", "bc", 0), Some(1));
    assert_eq!(find("abcabc", "bc", 1), Some(1));
    assert_eq!(find("abcabc", "bc", 2), Some(4));
    assert_eq!(find("abcabc", "bc", 5), None);
    assert_eq!(find("abc", "", 3), Some(3));
    assert_eq!(find("abc", "abcd", 0), None);
    assert_eq!(find("äöü", "ü", 0), Some(2));
}

#[test]
fn prefixes_and_runs_at_the_end() {
    assert!(starts_with("bearer x", "bearer "));
    assert!(!starts_with("bearer", "bearer "));
    assert!(same_text("ä", "ä"));
    assert!(!same_text("a", "A"));
    assert_eq!(trim_end_matches("https://x//", '/'), "https://x");
    assert_eq!(trim_end_matches("https://x", '/'), "https://x");
    assert_eq!(trim_end_matches("///", '/'), "");
}

#[test]
fn numbers_are_read_as_the_standard_library_reads_them() {
    for s in [
        "0", "587", "65535", "65536", "99999999999999999999", "+25", "-1", "", "+", " 1", "1 ",
        "0000001", "00065535", "1e3", "0x10", "٣", "++1",
    ] {
        assert_eq!(parse_u16(s), s.parse::<u16>().ok(), "{s:?}");
    }
}

#[test]
fn lists_are_joined_with_the_separator_between() {
    let list = |parts: &[&str]| parts.iter().map(|p| p.to_string()).collect::<Vec<String>>();
    assert_eq!(join(&list(&[]), "; "), "");
    assert_eq!(join(&list(&["a"]), "; "), "a");
    assert_eq!(join(&list(&["a", "", "b"]), "; "), "a; ; b");
}

#[test]
fn failures_show_their_chain() {
    let failure = Failure::caused("inner".to_string(), "cause".to_string()).within("outer");
    assert_eq!(failure.chain, ["outer", "inner", "cause"]);
    assert_eq!(failure.to_string(), "outer: inner: cause");
    assert_eq!(Failure::new("alone".to_string()).to_string(), "alone");
}
