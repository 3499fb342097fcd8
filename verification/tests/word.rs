use decimal_machine::hardware::architecture::Palabra;
use decimal_machine::hardware::interrupts::Interrups;
use decimal_machine::utils::convert_to_string_format_pal;

fn word(text: &str) -> Palabra {
    Palabra::new(text).unwrap()
}

#[test]
fn new_reads_eight_digits() {
    assert_eq!(Palabra::new("00000005"), Some(Palabra { palabra: 5 }));
    assert_eq!(Palabra::new("10000005"), Some(Palabra { palabra: 10_000_005 }));
    assert_eq!(Palabra::new("98000000"), Some(Palabra { palabra: 98_000_000 }));
    assert_eq!(Palabra::new("99999999"), Some(Palabra { palabra: 99_999_999 }));
}

#[test]
fn new_refuses_what_is_not_eight_digits() {
    assert_eq!(Palabra::new(""), None);
    assert_eq!(Palabra::new("0000005"), None);
    assert_eq!(Palabra::new("000000005"), None);
    assert_eq!(Palabra::new("0000000a"), None);
    assert_eq!(Palabra::new("+1234567"), None);
    assert_eq!(Palabra::new("-1234567"), None);
    assert_eq!(Palabra::new(" 1234567"), None);
    assert_eq!(Palabra::new("1234567 "), None);
    assert_eq!(Palabra::new("123456ñ"), None);
    assert_eq!(Palabra::new("１２３４５６７８"), None);
}

#[test]
fn convert_reads_sign_and_magnitude() {
    assert_eq!(word("00000000").convert(), 0);
    assert_eq!(word("00000005").convert(), 5);
    assert_eq!(word("09999999").convert(), 9_999_999);
    assert_eq!(word("10000005").convert(), -5);
    assert_eq!(word("19999999").convert(), -9_999_999);
    assert_eq!(word("10000000").convert(), 0);
    assert_eq!(word("20000000").convert(), 1);
    assert_eq!(word("98000000").convert(), 1);
}

#[test]
fn text_of_a_number() {
    assert_eq!(convert_to_string_format_pal(5), "00000005");
    assert_eq!(convert_to_string_format_pal(0), "00000000");
    assert_eq!(convert_to_string_format_pal(-5), "10000005");
    assert_eq!(convert_to_string_format_pal(9_999_999), "09999999");
    assert_eq!(convert_to_string_format_pal(-9_999_999), "19999999");
    assert_eq!(convert_to_string_format_pal(12_345_678), "12345678");
    assert_eq!(convert_to_string_format_pal(123_456_789), "123456789");
    assert_eq!(convert_to_string_format_pal(-12_345_678), "112345678");
    assert_eq!(convert_to_string_format_pal(i32::MAX), "2147483647");
    assert_eq!(convert_to_string_format_pal(i32::MIN), "12147483648");
}

#[test]
fn text_round_trip() {
    for m in [0, 1, 9, 10, 99, 1234, 99_999, 1_000_000, 9_999_998, 9_999_999] {
        let positive = Palabra::new(&convert_to_string_format_pal(m)).unwrap();
        assert_eq!(positive.convert(), m);
        let negative = Palabra::new(&convert_to_string_format_pal(-m)).unwrap();
        assert_eq!(negative.convert(), -m);
    }
}

#[test]
fn from_value_is_the_word_of_the_number() {
    assert_eq!(Palabra::from_value(0), Some(Palabra { palabra: 0 }));
    assert_eq!(Palabra::from_value(7), Some(Palabra { palabra: 7 }));
    assert_eq!(Palabra::from_value(-7), Some(Palabra { palabra: 10_000_007 }));
    assert_eq!(Palabra::from_value(9_999_999), Some(Palabra { palabra: 9_999_999 }));
    assert_eq!(Palabra::from_value(-9_999_999), Some(Palabra { palabra: 19_999_999 }));
    assert_eq!(Palabra::from_value(10_000_000), None);
    assert_eq!(Palabra::from_value(-10_000_000), None);
    assert_eq!(Palabra::from_value(i32::MIN), None);
}

#[test]
fn addition() {
    assert_eq!((word("00000005") + word("00000003")).unwrap(), word("00000008"));
    assert_eq!((word("00000005") + word("10000008")).unwrap(), word("10000003"));
    assert_eq!((word("10000005") + word("00000005")).unwrap(), word("00000000"));
    assert_eq!((word("09999998") + word("00000001")).unwrap(), word("09999999"));
    let over = (word("09999999") + word("00000002")).unwrap_err();
    assert!(matches!(over.cod, Interrups::Overflow));
    assert_eq!(over.msg, "Overflow al realizar suma");
    let under = (word("19999999") + word("10000001")).unwrap_err();
    assert!(matches!(under.cod, Interrups::Underflow));
    assert_eq!(under.msg, "Underflow al realizar suma");
}

#[test]
fn subtraction() {
    assert_eq!((word("00000005") - word("00000003")).unwrap(), word("00000002"));
    assert_eq!((word("00000003") - word("00000005")).unwrap(), word("10000002"));
    assert_eq!((word("00000003") - word("00000003")).unwrap(), word("00000000"));
    let over = (word("09999999") - word("10000001")).unwrap_err();
    assert!(matches!(over.cod, Interrups::Overflow));
    assert_eq!(over.msg, "Overflow al realizar resta");
    let under = (word("19999999") - word("00000001")).unwrap_err();
    assert!(matches!(under.cod, Interrups::Underflow));
    assert_eq!(under.msg, "Underflow al realizar resta");
}

#[test]
fn multiplication() {
    assert_eq!((word("00000005") * word("00000003")).unwrap(), word("00000015"));
    assert_eq!((word("10000005") * word("00000003")).unwrap(), word("10000015"));
    assert_eq!((word("10000005") * word("10000003")).unwrap(), word("00000015"));
    assert_eq!((word("00003162") * word("00003162")).unwrap(), word("09998244"));
    assert_eq!((word("09999999") * word("00000000")).unwrap(), word("00000000"));
    let over = (word("00003163") * word("00003163")).unwrap_err();
    assert!(matches!(over.cod, Interrups::Overflow));
    assert_eq!(over.msg, "Overflow al realizar Multiplicacion");
    let under = (word("09999999") * word("19999999")).unwrap_err();
    assert!(matches!(under.cod, Interrups::Underflow));
    assert_eq!(under.msg, "Underflow al realizar Multiplicacion");
    let over = (word("19999999") * word("19999999")).unwrap_err();
    assert!(matches!(over.cod, Interrups::Overflow));
}

#[test]
fn division() {
    assert_eq!((word("00000015") / word("00000003")).unwrap(), word("00000005"));
    assert_eq!((word("00000007") / word("00000002")).unwrap(), word("00000003"));
    assert_eq!((word("10000007") / word("00000002")).unwrap(), word("10000003"));
    assert_eq!((word("00000007") / word("10000002")).unwrap(), word("10000003"));
    assert_eq!((word("10000007") / word("10000002")).unwrap(), word("00000003"));
    assert_eq!((word("00000001") / word("00000002")).unwrap(), word("00000000"));
    assert_eq!((word("10000001") / word("00000002")).unwrap(), word("00000000"));
    assert_eq!((word("09999999") / word("00000001")).unwrap(), word("09999999"));
    assert_eq!((word("19999999") / word("10000001")).unwrap(), word("09999999"));
}

#[test]
fn division_by_zero_is_an_invalid_instruction() {
    for dividend in ["00000000", "00000007", "10000007", "09999999", "19999999"] {
        for zero in ["00000000", "10000000"] {
            let err = (word(dividend) / word(zero)).unwrap_err();
            assert!(matches!(err.cod, Interrups::InstInv));
            assert_eq!(err.msg, "Instruccion invalida, division por 0");
        }
    }
}

#[test]
fn adding_and_subtracting_gives_the_first_word_back() {
    let cases = [
        ("00000005", "00000003"),
        ("10000005", "00000003"),
        ("00000000", "19999999"),
        ("09999999", "10000001"),
        ("19999999", "00000001"),
        ("00001234", "10004321"),
    ];
    for (a, b) in cases {
        let sum = (word(a) + word(b)).unwrap();
        assert_eq!((sum - word(b)).unwrap(), word(a));
    }
    let minus_zero = word("10000000");
    let back = ((minus_zero + word("00000004")).unwrap() - word("00000004")).unwrap();
    assert_eq!(back.convert(), minus_zero.convert());
    assert_eq!(back, word("00000000"));
}

#[test]
fn words_are_ordered_by_their_numbers() {
    assert!(word("00000001") < word("00000002"));
    assert!(word("10000001") < word("00000000"));
    assert!(word("10000002") < word("10000001"));
    assert!(word("00000002") > word("10000009"));
    assert!(word("00000002") >= word("00000002"));
    assert!(word("00000002") <= word("00000002"));
    assert!(!(word("00000002") < word("00000002")));
    assert_eq!(word("00000003").partial_cmp(&word("00000003")), Some(std::cmp::Ordering::Equal));
    assert_eq!(word("10000003").partial_cmp(&word("00000003")), Some(std::cmp::Ordering::Less));
    assert_eq!(word("00000003").partial_cmp(&word("10000003")), Some(std::cmp::Ordering::Greater));
}

#[test]
fn disk_form_of_a_word() {
    assert_eq!(word("00000123").convert_to_string_disk(), "00000123F");
    assert_eq!(word("00000000").convert_to_string_disk(), "00000000F");
    assert_eq!(word("19999999").convert_to_string_disk(), "19999999F");
    assert_eq!(Palabra { palabra: 123_456_789 }.convert_to_string_disk(), "123456789F");
}

#[test]
fn word_of_a_disk_block() {
    assert_eq!(Palabra::convert_to_disk_palabra("00000123F"), Some(word("00000123")));
    assert_eq!(Palabra::convert_to_disk_palabra("19999999F"), Some(word("19999999")));
    assert_eq!(Palabra::convert_to_disk_palabra("00000123"), None);
    assert_eq!(Palabra::convert_to_disk_palabra("00000123FF"), None);
    assert_eq!(Palabra::convert_to_disk_palabra("00000123f"), None);
    assert_eq!(Palabra::convert_to_disk_palabra("000001230"), None);
    assert_eq!(Palabra::convert_to_disk_palabra("0000012 F"), None);
    assert_eq!(Palabra::convert_to_disk_palabra("+0000123F"), None);
    assert_eq!(Palabra::convert_to_disk_palabra("000012ñF"), None);
    assert_eq!(Palabra::convert_to_disk_palabra(""), None);
}

#[test]
fn disk_form_round_trip() {
    for text in ["00000000", "00000123", "10000123", "98000000", "99999999"] {
        let w = word(text);
        assert_eq!(Palabra::convert_to_disk_palabra(&w.convert_to_string_disk()), Some(w));
    }
}
