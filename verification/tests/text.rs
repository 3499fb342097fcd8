use decimal_machine::hardware::interrupts::Interrups;
use decimal_machine::text::{
    chars_of, is_whitespace, magnitude, padded_decimal_string, parse_i32, signed_decimal_string,
    split_line_words,
};
use decimal_machine::utils::{
    convert_option_result, convert_result, fault, ContinueOrBreak, Errors,
};

#[test]
fn padded_decimal_fills_with_zeros() {
    assert_eq!(padded_decimal_string(0, 0), "0");
    assert_eq!(padded_decimal_string(0, 1), "0");
    assert_eq!(padded_decimal_string(0, 3), "000");
    assert_eq!(padded_decimal_string(7, 1), "7");
    assert_eq!(padded_decimal_string(7, 5), "00007");
    assert_eq!(padded_decimal_string(123, 8), "00000123");
    assert_eq!(padded_decimal_string(99_999_999, 8), "99999999");
}

#[test]
fn padded_decimal_keeps_every_digit() {
    assert_eq!(padded_decimal_string(123, 0), "123");
    assert_eq!(padded_decimal_string(123, 2), "123");
    assert_eq!(padded_decimal_string(100_000_000, 8), "100000000");
    assert_eq!(padded_decimal_string(u32::MAX, 1), "4294967295");
    assert_eq!(padded_decimal_string(10, 1), "10");
}

#[test]
fn signed_decimal_writes_the_sign() {
    assert_eq!(signed_decimal_string(0), "0");
    assert_eq!(signed_decimal_string(5), "5");
    assert_eq!(signed_decimal_string(-5), "-5");
    assert_eq!(signed_decimal_string(1200), "1200");
    assert_eq!(signed_decimal_string(i32::MAX), "2147483647");
    assert_eq!(signed_decimal_string(i32::MIN), "-2147483648");
}

#[test]
fn magnitude_is_the_distance_from_zero() {
    assert_eq!(magnitude(0), 0);
    assert_eq!(magnitude(9), 9);
    assert_eq!(magnitude(-9), 9);
    assert_eq!(magnitude(i32::MAX), 2_147_483_647);
    assert_eq!(magnitude(i32::MIN), 2_147_483_648);
}

#[test]
fn parse_i32_reads_integers() {
    assert_eq!(parse_i32("0"), Some(0));
    assert_eq!(parse_i32("7"), Some(7));
    assert_eq!(parse_i32("+7"), Some(7));
    assert_eq!(parse_i32("-7"), Some(-7));
    assert_eq!(parse_i32("-0"), Some(0));
    assert_eq!(parse_i32("0012"), Some(12));
    assert_eq!(parse_i32("2147483647"), Some(i32::MAX));
    assert_eq!(parse_i32("-2147483648"), Some(i32::MIN));
    assert_eq!(parse_i32("000000000000000000000000012"), Some(12));
}

#[test]
fn parse_i32_refuses_what_is_no_integer() {
    assert_eq!(parse_i32(""), None);
    assert_eq!(parse_i32("+"), None);
    assert_eq!(parse_i32("-"), None);
    assert_eq!(parse_i32("12a"), None);
    assert_eq!(parse_i32("a12"), None);
    assert_eq!(parse_i32(" 12"), None);
    assert_eq!(parse_i32("12 "), None);
    assert_eq!(parse_i32("--12"), None);
    assert_eq!(parse_i32("1-2"), None);
    assert_eq!(parse_i32("2147483648"), None);
    assert_eq!(parse_i32("-2147483649"), None);
    assert_eq!(parse_i32("99999999999999999999999999"), None);
    assert_eq!(parse_i32("１２"), None);
    assert_eq!(parse_i32("1ñ"), None);
}

#[test]
fn parse_i32_agrees_with_the_standard_library() {
    let texts = [
        "0", "-1", "+1", "42", "-42", "2147483647", "2147483648", "-2147483648", "-2147483649",
        "", "+", "-", "1 ", " 1", "0x10", "1e3", "٣", "00", "-00", "+-1", "4294967296",
    ];
    for text in texts {
        assert_eq!(parse_i32(text), text.parse::<i32>().ok(), "{text}");
    }
}

#[test]
fn fault_holds_message_and_cause() {
    let e = fault("Stack Overflow", Interrups::InstInv);
    assert_eq!(e, Errors { msg: "Stack Overflow".to_string(), cod: Interrups::InstInv });
}

#[test]
fn convert_result_keeps_success_and_replaces_errors() {
    let ok: Result<i32, String> = Ok(3);
    assert_eq!(convert_result(ok, "m".to_string(), Interrups::DirInv), Ok(3));
    let bad: Result<i32, String> = Err("x".to_string());
    assert_eq!(
        convert_result(bad, "m".to_string(), Interrups::DirInv),
        Err(Errors { msg: "m".to_string(), cod: Interrups::DirInv })
    );
}

#[test]
fn convert_option_result_turns_none_into_the_error() {
    assert_eq!(convert_option_result(Some(3), "m".to_string(), Interrups::EndIO), Ok(3));
    assert_eq!(
        convert_option_result(None::<i32>, "m".to_string(), Interrups::EndIO),
        Err(Errors { msg: "m".to_string(), cod: Interrups::EndIO })
    );
}

#[test]
fn continue_and_break_differ() {
    assert_ne!(ContinueOrBreak::Continue, ContinueOrBreak::Break);
}

#[test]
fn chars_of_a_text() {
    assert_eq!(chars_of(""), Vec::<char>::new());
    assert_eq!(chars_of("añ\n"), vec!['a', 'ñ', '\n']);
}

#[test]
fn white_space_is_what_the_standard_library_says() {
    for u in 0..0x3100u32 {
        if let Some(c) = char::from_u32(u) {
            assert_eq!(is_whitespace(c), c.is_whitespace(), "{u}");
        }
    }
    assert!(!is_whitespace('\u{feff}'));
    assert!(!is_whitespace('\u{10ffff}'));
}

fn standard_split(text: &str) -> Vec<Vec<String>> {
    text.lines().map(|l| l.split_whitespace().map(String::from).collect()).collect()
}

#[test]
fn lines_and_words_of_a_text() {
    let expected: Vec<Vec<String>> = vec![
        vec!["_start".to_string(), "1".to_string()],
        vec![],
        vec!["04100005".to_string()],
    ];
    assert_eq!(split_line_words("_start 1\n\n  04100005  "), expected);
    assert_eq!(split_line_words(""), Vec::<Vec<String>>::new());
    assert_eq!(split_line_words("\n"), vec![Vec::<String>::new()]);
    assert_eq!(split_line_words("a"), vec![vec!["a".to_string()]]);
    assert_eq!(split_line_words("a\n"), vec![vec!["a".to_string()]]);
    assert_eq!(split_line_words("a\n\n"), vec![vec!["a".to_string()], vec![]]);
}

#[test]
fn lines_and_words_agree_with_the_standard_library() {
    let texts = [
        "",
        "\n",
        "\n\n",
        " ",
        "a",
        "a b",
        " a  b ",
        "a\nb",
        "a\r\nb\r\n",
        "a\rb",
        "\ta\tb\t\n\n c",
        "uno dos\ntres\n\ncuatro cinco seis\n",
        "ñandú\u{a0}x\u{3000}y\u{2028}z",
        "x\u{b}y\u{c}z\u{85}w",
        "tail\r",
    ];
    for text in texts {
        assert_eq!(split_line_words(text), standard_split(text), "{text:?}");
    }
}
