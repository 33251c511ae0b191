use rokio::text::{
    char_is_whitespace, chars_of, find_char_or_len, find_in, has_prefix, matches_at, parse_u64,
    percent_encode, push_decimal, str_eq, string_of, trim_bounds,
};

fn chars(s: &str) -> Vec<char> {
    s.chars().collect()
}

#[test]
fn chars_and_strings_convert_both_ways() {
    let text = "naïve ☃ text";
    assert_eq!(chars_of(text), chars(text));
    assert_eq!(string_of(&chars(text)), text);
    assert_eq!(string_of(&[]), "");
}

#[test]
fn str_eq_compares_contents() {
    assert!(str_eq("", ""));
    assert!(str_eq("abc", "abc"));
    assert!(!str_eq("abc", "abd"));
    assert!(!str_eq("abc", "ab"));
    assert!(!str_eq("é", "e"));
}

#[test]
fn find_in_gives_the_first_occurrence() {
    let hay = chars("abcabcab");
    assert_eq!(find_in(&hay, &chars("abc"), 0), Some(0));
    assert_eq!(find_in(&hay, &chars("abc"), 1), Some(3));
    assert_eq!(find_in(&hay, &chars("abc"), 4), None);
    assert_eq!(find_in(&hay, &chars("cab"), 0), Some(2));
    assert_eq!(find_in(&hay, &chars(""), 0), Some(0));
    assert_eq!(find_in(&hay, &chars(""), 8), Some(8));
    assert_eq!(find_in(&hay, &chars(""), 9), None);
    assert_eq!(find_in(&hay, &chars("abcabcabc"), 0), None);
    assert_eq!(find_in(&[], &chars("a"), 0), None);
    for needle in ["a", "b", "ca", "zz", "abcabcab"] {
        assert_eq!(
            find_in(&hay, &chars(needle), 0),
            "abcabcab".find(needle),
            "{}",
            needle
        );
    }
}

#[test]
fn matches_at_and_has_prefix_agree_with_std() {
    let hay = chars("roblox://x");
    assert!(has_prefix(&hay, &chars("roblox://")));
    assert!(!has_prefix(&hay, &chars("roblox:///")));
    assert!(has_prefix(&hay, &[]));
    assert!(!has_prefix(&chars("rob"), &chars("roblox://")));
    assert!(matches_at(&hay, &chars("x"), 9));
    assert!(!matches_at(&hay, &chars("x"), 10));
    assert!(!matches_at(&hay, &chars("x"), usize::MAX));
}

#[test]
fn find_char_or_len_stops_at_the_first_hit() {
    let hay = chars("a&b&c");
    assert_eq!(find_char_or_len(&hay, 0, '&'), 1);
    assert_eq!(find_char_or_len(&hay, 1, '&'), 1);
    assert_eq!(find_char_or_len(&hay, 2, '&'), 3);
    assert_eq!(find_char_or_len(&hay, 4, '&'), 5);
    assert_eq!(find_char_or_len(&hay, 5, '&'), 5);
}

#[test]
fn whitespace_is_what_the_standard_library_calls_whitespace() {
    for code in 0u32..0x11000 {
        if let Some(c) = char::from_u32(code) {
            assert_eq!(char_is_whitespace(c), c.is_whitespace(), "U+{:04X}", code);
        }
    }
}

#[test]
fn trim_bounds_agree_with_str_trim() {
    for text in ["", " ", "  a b  ", "\t\nx", "x\r\n", "\u{a0}\u{1680}y\u{205f}", "   "] {
        let cs = chars(text);
        let (start, end) = trim_bounds(&cs);
        let got: String = cs[start..end].iter().collect();
        assert_eq!(got, text.trim(), "{:?}", text);
    }
}

#[test]
fn parse_u64_agrees_with_str_parse() {
    for text in [
        "", "+", "0", "+0", "00", "1", "42", "+42", "++42", "-1", "4 2", "18446744073709551615",
        "18446744073709551616", "184467440737095516150", "1e3", "٣",
    ] {
        assert_eq!(parse_u64(&chars(text)), text.parse::<u64>().ok(), "{:?}", text);
    }
}

#[test]
fn push_decimal_writes_what_display_writes() {
    for n in [0u64, 1, 9, 10, 11, 99, 100, 123456789, u64::MAX] {
        let mut out = String::from("n=");
        push_decimal(&mut out, n);
        assert_eq!(out, format!("n={}", n));
    }
}

#[test]
fn percent_encoding_spares_letters_digits_and_four_marks() {
    assert_eq!(percent_encode(""), "");
    assert_eq!(percent_encode("AZaz09-._~"), "AZaz09-._~");
    assert_eq!(percent_encode("a b"), "a%20b");
    assert_eq!(percent_encode("ROBLOX_QR:x/y"), "ROBLOX_QR%3Ax%2Fy");
    assert_eq!(percent_encode("ü"), "%C3%BC");
    assert_eq!(percent_encode("\u{0}\u{7f}☃"), "%00%7F%E2%98%83");
    assert_eq!(percent_encode("%"), "%25");
    let mut every = String::new();
    for code in 0u32..0x600 {
        if let Some(c) = char::from_u32(code) {
            every.push(c);
        }
    }
    every.push_str("\u{ffff}\u{10000}\u{10ffff}");
    assert_eq!(percent_encode(&every), urlencoding::encode(&every).into_owned());
    for c in every.chars() {
        let one = c.to_string();
        assert_eq!(percent_encode(&one), urlencoding::encode(&one).into_owned());
    }
}
