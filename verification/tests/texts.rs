use media_subtitle_worker::number::{decimal_text, padded_text, parse_i32, parse_u32, parse_u64};
use media_subtitle_worker::text::{
    ends_with, equals_ignoring_case, is_space, same_text, trim, trim_slashes, trim_start_slashes,
};

#[test]
fn white_space_is_that_of_unicode() {
    for n in 0..=0x10FFFFu32 {
        if let Some(c) = char::from_u32(n) {
            assert_eq!(is_space(c), c.is_whitespace(), "{n:x}");
        }
    }
}

#[test]
fn trimming_agrees_with_the_standard_library() {
    for s in ["", " ", "a", " a ", "\u{3000}a b\u{a0}\n", "\t\r\n", "a\u{200b}", "ы \u{2029}"] {
        assert_eq!(trim(s), s.trim());
        assert_eq!(trim(&trim(s)), trim(s));
    }
    for s in ["", "/", "//", "a", "/a/", "//a//b//", "a/", "/a"] {
        assert_eq!(trim_slashes(s), s.trim_matches('/'));
        assert_eq!(trim_start_slashes(s), s.trim_start_matches('/'));
    }
}

#[test]
fn comparisons_agree_with_the_standard_library() {
    let all = ["", "a", "A", "ab", "aB", "b", "ы", "Ы", "true", "TRUE", "TrUe ", "tru\u{212a}"];
    for a in all {
        for b in all {
            assert_eq!(same_text(a, b), a == b);
            assert_eq!(equals_ignoring_case(a, b), a.eq_ignore_ascii_case(b));
            assert_eq!(ends_with(a, b), a.ends_with(b));
        }
    }
}

#[test]
fn numbers_are_written_in_decimal() {
    for n in [0, 1, 9, 10, 99, 100, 12345, u64::MAX] {
        assert_eq!(decimal_text(n), format!("{n}"));
        assert_eq!(padded_text(n, 2), format!("{n:02}"));
        assert_eq!(padded_text(n, 3), format!("{n:03}"));
    }
}

#[test]
fn numbers_are_read_as_the_standard_library_reads_them() {
    for s in [
        "", "+", "-", "0", "-0", "+0", "7", "+7", "-7", "007", " 7", "7 ", "1_0", "0x1", "++1", "+-1",
        "2147483647", "2147483648", "-2147483648", "-2147483649", "4294967295", "4294967296",
        "18446744073709551615", "18446744073709551616", "00000000000000000000000000000000000001",
        "99999999999999999999999999", "٣", "1.0",
    ] {
        assert_eq!(parse_u64(s), s.parse::<u64>().ok(), "{s:?}");
        assert_eq!(parse_u32(s), s.parse::<u32>().ok(), "{s:?}");
        assert_eq!(parse_i32(s), s.parse::<i32>().ok(), "{s:?}");
    }
}
