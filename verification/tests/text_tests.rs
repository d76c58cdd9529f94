use gcli::text::{
    chars_of, decimal_chars, is_whitespace, parse_usize_chars, signed_decimal_chars,
    split_whitespace, trim_chars,
};

#[test]
fn whitespace_matches_std_for_every_char() {
    for u in 0u32..=0x10FFFF {
        if let Some(c) = char::from_u32(u) {
            assert_eq!(is_whitespace(c), c.is_whitespace(), "char {:x}", u);
        }
    }
}

#[test]
fn parse_matches_std() {
    let cases = [
        "", "+", "-", "0", "00", "+7", "-7", "12a", "a12", " 1", "1 ", "18446744073709551615",
        "18446744073709551616", "+18446744073709551615", "٣", "++1", "007",
    ];
    for s in cases {
        let cs = chars_of(s);
        assert_eq!(parse_usize_chars(&cs), s.parse::<usize>().ok(), "{:?}", s);
    }
}

#[test]
fn decimal_formats() {
    let s: String = decimal_chars(0).into_iter().collect();
    assert_eq!(s, "0");
    let s: String = decimal_chars(1234567890).into_iter().collect();
    assert_eq!(s, "1234567890");
    let s: String = signed_decimal_chars(-42).into_iter().collect();
    assert_eq!(s, "-42");
    let s: String = signed_decimal_chars(i64::MIN).into_iter().collect();
    assert_eq!(s, i64::MIN.to_string());
}

#[test]
fn split_and_trim_match_std() {
    let inputs = ["  a b\tc\n", "", "x", "\u{3000}wide\u{3000}space ", "a\u{a0}b"];
    for s in inputs {
        let cs = chars_of(s);
        let got: Vec<String> = split_whitespace(&cs).into_iter().map(|v| v.into_iter().collect()).collect();
        let want: Vec<String> = s.split_whitespace().map(|x| x.to_string()).collect();
        assert_eq!(got, want);
        let t: String = trim_chars(&cs).into_iter().collect();
        assert_eq!(t, s.trim());
    }
}
