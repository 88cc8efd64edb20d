use vpncbar::number::{parse_u32, parse_u64, to_decimal, to_signed_decimal, to_two_digits};
use vpncbar::scan::{
    base, exchange, file_stem, has_folded, join, line_list, pieces, remove_all, split_once,
    strip_suffix, word_list,
};
use vpncbar::text::{
    cat, cat3, equal, is_alphanumeric, is_at_most, is_blank, is_white_space, to_lowercase, trimmed,
    trimmed_end, trimmed_end_of,
};

const SAMPLES: [&str; 14] = [
    "",
    " ",
    "a",
    "a b",
    "  a  b\tc \n",
    "x\r\ny\n",
    "x\n\ny",
    "\r",
    "\n",
    "a\r",
    "ÄÖ ü\u{3000}ß",
    "\u{85}nel\u{2028}",
    "one.two..three.",
    "/a//b/./c.d/..",
];

#[test]
fn white_space_is_that_of_std() {
    for n in 0..=0x10ffffu32 {
        if let Some(c) = char::from_u32(n) {
            assert_eq!(is_white_space(c), c.is_whitespace(), "{n:x}");
        }
    }
}

#[test]
fn letters_and_digits_are_those_of_std() {
    for n in 0..=0x10ffffu32 {
        if let Some(c) = char::from_u32(n) {
            assert_eq!(is_alphanumeric(c), c.is_alphanumeric(), "{n:x}");
        }
    }
}

#[test]
fn lower_case_is_that_of_std() {
    for s in ["", "ABC xyz", "ÄÖÜ", "ΑΣ", "İstanbul", "ẞ", "K"] {
        assert_eq!(to_lowercase(s), s.to_lowercase());
    }
}

#[test]
fn trimming_is_that_of_std() {
    for s in SAMPLES {
        assert_eq!(trimmed(s), s.trim());
        assert_eq!(trimmed_end(s), s.trim_end());
        assert_eq!(trimmed_end_of(s, '\n'), s.trim_end_matches('\n'));
        assert_eq!(is_blank(s), s.trim().is_empty());
    }
}

#[test]
fn lines_words_and_pieces_are_those_of_std() {
    for s in SAMPLES {
        assert_eq!(line_list(s), s.lines().collect::<Vec<_>>(), "{s:?}");
        assert_eq!(word_list(s), s.split_whitespace().collect::<Vec<_>>(), "{s:?}");
        assert_eq!(pieces(s, '.'), s.split('.').collect::<Vec<_>>(), "{s:?}");
        assert_eq!(remove_all(s, '\r'), s.replace('\r', ""));
        assert_eq!(exchange(s, ' ', '-'), s.replace(' ', "-"));
        assert_eq!(
            split_once(s, 'b'),
            s.split_once('b').map(|(a, b)| (a.to_string(), b.to_string()))
        );
        assert_eq!(strip_suffix(s, "\n"), s.strip_suffix('\n').map(str::to_string));
    }
}

#[test]
fn joining_puts_the_separator_between() {
    let v = |l: &[&str]| l.iter().map(|s| s.to_string()).collect::<Vec<_>>();
    assert_eq!(join(&v(&[]), ", "), "");
    assert_eq!(join(&v(&["a"]), ", "), "a");
    assert_eq!(join(&v(&["a", "", "c"]), ", "), "a, , c");
}

#[test]
fn file_stems_are_those_of_std() {
    for s in [
        "", "/", ".", "..", "a", "a/", "a/.", "a/..", "./a", "/x/y.tar.gz", ".hidden", "x.",
        "x..", "..x", "a/.b.c", "my vpn.pcf", "/tmp/Office.CONF", "...", "a/...", "./.",
    ] {
        let expected = std::path::Path::new(s).file_stem().map(|x| x.to_string_lossy().to_string());
        assert_eq!(file_stem(s), expected, "{s:?}");
    }
}

#[test]
fn base_is_what_follows_the_last_slash() {
    for s in ["vpnc", "/usr/bin/vpnc", "a/", "/", ""] {
        assert_eq!(base(s), s.rsplit('/').next().unwrap());
    }
}

#[test]
fn searching_does_not_mind_case() {
    assert!(has_folded("libGnuTLS.so.30", "gnutls"));
    assert!(!has_folded("libssl", "gnutls"));
    assert!(has_folded("anything", ""));
}

#[test]
fn strings_compare_as_in_std() {
    let words = ["", "a", "A", "ab", "b", "ä", "\u{10000}", "\u{ffff}"];
    for a in words {
        for b in words {
            assert_eq!(equal(a, b), a == b);
            assert_eq!(is_at_most(a, b), a <= b, "{a:?} {b:?}");
        }
    }
    assert_eq!(cat("a", "b"), "ab");
    assert_eq!(cat3("a", "", "c"), "ac");
}

#[test]
fn numbers_are_written_as_in_std() {
    for n in [0u64, 7, 10, 99, 100, 1234567890, u64::MAX] {
        assert_eq!(to_decimal(n), n.to_string());
    }
    for n in [0i32, -1, 126, i32::MIN, i32::MAX] {
        assert_eq!(to_signed_decimal(n), n.to_string());
    }
    assert_eq!(to_two_digits(7), "07");
    assert_eq!(to_two_digits(42), "42");
}

#[test]
fn numbers_are_read_as_in_std() {
    for s in [
        "", "+", "-", "0", "007", "+5", "-0", "12a", " 1", "4294967295", "4294967296",
        "18446744073709551615", "18446744073709551616", "99999999999999999999999", "1_0",
    ] {
        assert_eq!(parse_u32(s), s.parse::<u32>().ok(), "{s:?}");
        assert_eq!(parse_u64(s), s.parse::<u64>().ok(), "{s:?}");
    }
}

#[test]
fn joined_lines_split_back() {
    let lines = vec!["a".to_string(), String::new(), "b c".to_string()];
    assert_eq!(pieces(&join(&lines, "\n"), '\n'), lines);
}
