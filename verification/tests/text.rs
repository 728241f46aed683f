use macprot2fans::text::{
    align_left, align_right, contains_char, dashes, decimal_text, is_white_space, parse_i32,
    parse_u32, parse_u8, parse_usize, same_text, split_at_char, trim, trim_end, trim_start,
    ParseIntError,
};

const NUMBERS: [&str; 31] = [
    "", "+", "-", "0", "-0", "+0", "7", "+7", "-7", "007", "255", "256", "-1", "12a", "a12", "1 2",
    " 1", "1 ", "++1", "--1", "+-1", "4294967295", "4294967296", "2147483647", "2147483648",
    "-2147483648", "-2147483649", "18446744073709551615", "18446744073709551616", "٣", "99999999999999999999999999",
];

fn message(e: ParseIntError) -> String {
    e.message().to_string()
}

#[test]
fn decimal_of_small_numbers() {
    assert_eq!(decimal_text(0), "0");
    assert_eq!(decimal_text(7), "7");
    assert_eq!(decimal_text(4096), "4096");
    assert_eq!(decimal_text(u64::MAX), "18446744073709551615");
}

#[test]
fn integers_parse_as_in_the_standard_library() {
    for s in NUMBERS {
        assert_eq!(
            parse_u8(s).map_err(message),
            s.parse::<u8>().map_err(|e| e.to_string()),
            "{s:?}"
        );
        assert_eq!(
            parse_u32(s).map_err(message),
            s.parse::<u32>().map_err(|e| e.to_string()),
            "{s:?}"
        );
        assert_eq!(
            parse_usize(s).map_err(message),
            s.parse::<usize>().map_err(|e| e.to_string()),
            "{s:?}"
        );
        assert_eq!(
            parse_i32(s).map_err(message),
            s.parse::<i32>().map_err(|e| e.to_string()),
            "{s:?}"
        );
    }
}

#[test]
fn each_parse_error_has_an_input() {
    assert!(matches!(parse_u8(""), Err(ParseIntError::Empty)));
    assert!(matches!(parse_u8("x"), Err(ParseIntError::InvalidDigit)));
    assert!(matches!(parse_u8("256"), Err(ParseIntError::PosOverflow)));
    assert!(matches!(parse_i32("-2147483649"), Err(ParseIntError::NegOverflow)));
}

#[test]
fn written_numbers_read_back() {
    for n in [0u32, 1, 9, 10, 55, 100, 1200, u32::MAX] {
        let text = decimal_text(u64::from(n));
        assert_eq!(parse_u32(&text).ok(), Some(n));
        assert_eq!(trim(&text), text);
    }
    assert_ne!(decimal_text(12), decimal_text(21));
}

#[test]
fn white_space_is_that_of_the_standard_library() {
    for code in 0..=0x10FFFFu32 {
        if let Some(c) = char::from_u32(code) {
            assert_eq!(is_white_space(c), c.is_whitespace(), "{code:x}");
        }
    }
}

#[test]
fn trimming_is_that_of_the_standard_library() {
    for s in ["", " ", "a", " a ", "\t a b \n", "\u{3000}x\u{a0}", "x\u{2003}", "é \u{85}", "\u{200b}x"] {
        assert_eq!(trim(s), s.trim());
        assert_eq!(trim_start(s), s.trim_start());
        assert_eq!(trim_end(s), s.trim_end());
        assert_eq!(trim(trim(s)), trim(s));
    }
}

#[test]
fn splitting_is_that_of_the_standard_library() {
    for s in ["", ",", "a", "a,b", ",a,", "1, 2,3", "é,ü"] {
        let pieces = split_at_char(s, ',');
        let expected: Vec<&str> = s.split(',').collect();
        assert_eq!(pieces, expected);
        assert_eq!(pieces.join(","), s);
    }
}

#[test]
fn texts_are_compared_by_their_characters() {
    assert!(same_text("amdgpu", "amdgpu"));
    assert!(!same_text("amdgpu", "amdgpu "));
    assert!(!same_text("é", "e"));
    assert!(contains_char("1.5", '.'));
    assert!(!contains_char("15", '.'));
}

#[test]
fn columns_are_those_of_the_standard_library() {
    for s in ["", "fan0", "45°C", "a name that is longer than its column"] {
        assert_eq!(align_left(s, 10), format!("{s:<10}"));
        assert_eq!(align_right(s, 10), format!("{s:>10}"));
    }
    assert_eq!(dashes(8), "--------");
    assert_eq!(dashes(0), "");
}

#[test]
fn only_one_letter_in_two_cases_says_yes() {
    for code in 0..=0x10FFFFu32 {
        if let Some(c) = char::from_u32(code) {
            assert_eq!(c.to_string().to_lowercase() == "y", c == 'y' || c == 'Y');
        }
    }
}
