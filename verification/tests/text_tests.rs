use dialogue_dispatch::decimal::{
    parse_decimal_text, parse_u64_text, render_seconds_to_two_places, render_signed_thousandths,
    render_thousandths,
};
use dialogue_dispatch::scan::{push_quoted, Cursor};
use dialogue_dispatch::text::{
    ascii_fold_char, chars_of, decimal_text, equals_ignoring_ascii_case, is_blank_text,
    is_whitespace_char, join_texts, string_of, text_equals, trimmed, zero_padded_text,
};

const SAMPLES: [&str; 14] = [
    "",
    " ",
    "a",
    "  a  ",
    "\t\n a b \r\n",
    "\u{a0}x\u{3000}",
    "\u{85}\u{1680}\u{2000}\u{200a}\u{2028}\u{2029}\u{202f}\u{205f}",
    "\u{200b}x\u{200b}",
    "\u{1c}\u{1d}\u{1e}\u{1f}y",
    "\u{b}\u{c}z\u{b}\u{c}",
    "no outer blanks",
    " inner  blanks kept ",
    "\u{feff}bom",
    "\u{180e}mongolian",
];

#[test]
fn whitespace_is_what_std_calls_whitespace() {
    for code in 0..=0x10FFFFu32 {
        if let Some(c) = char::from_u32(code) {
            assert_eq!(is_whitespace_char(c), c.is_whitespace(), "at {:#x}", code);
        }
    }
}

#[test]
fn trimming_agrees_with_std() {
    for sample in SAMPLES {
        assert_eq!(trimmed(sample), sample.trim(), "for {:?}", sample);
        assert_eq!(is_blank_text(sample), sample.trim().is_empty(), "for {:?}", sample);
    }
}

#[test]
fn ascii_case_folding_agrees_with_std() {
    for code in 0..=0x10FFFFu32 {
        if let Some(c) = char::from_u32(code) {
            assert_eq!(ascii_fold_char(c), c.to_ascii_lowercase() as u32);
        }
    }
    let pairs = [
        ("retry later", "RETRY LATER"),
        ("Retry", "retry"),
        ("a", "b"),
        ("", ""),
        ("", "a"),
        ("straße", "STRASSE"),
        ("é", "É"),
        ("k", "\u{212a}"),
        ("[", "{"),
        ("@", "`"),
    ];
    for (a, b) in pairs {
        assert_eq!(equals_ignoring_ascii_case(a, b), a.eq_ignore_ascii_case(b));
        assert_eq!(text_equals(a, b), a == b);
        assert!(text_equals(a, a));
    }
}

#[test]
fn characters_survive_the_round_through_a_vector() {
    for sample in SAMPLES {
        let letters = chars_of(sample);
        assert_eq!(letters, sample.chars().collect::<Vec<char>>());
        assert_eq!(string_of(&letters), sample);
    }
}

#[test]
fn decimal_rendering_agrees_with_std() {
    for n in [0u64, 1, 9, 10, 11, 99, 100, 12345, u32::MAX as u64, u64::MAX - 1, u64::MAX] {
        assert_eq!(decimal_text(n), n.to_string());
        assert_eq!(zero_padded_text(n, 4), format!("{:04}", n));
        assert_eq!(zero_padded_text(n, 0), format!("{}", n));
        assert_eq!(zero_padded_text(n, 25), format!("{:025}", n));
    }
}

#[test]
fn thousandths_are_written_with_three_fraction_digits() {
    assert_eq!(render_thousandths(0), "0.000");
    assert_eq!(render_thousandths(7), "0.007");
    assert_eq!(render_thousandths(70), "0.070");
    assert_eq!(render_thousandths(700), "0.700");
    assert_eq!(render_thousandths(12500), "12.500");
    assert_eq!(render_thousandths(u64::MAX), "18446744073709551.615");
    assert_eq!(render_signed_thousandths(0), "0.000");
    assert_eq!(render_signed_thousandths(-1), "-0.001");
    assert_eq!(render_signed_thousandths(3000), "3.000");
    assert_eq!(render_signed_thousandths(i64::MAX), "9223372036854775.807");
    assert_eq!(render_signed_thousandths(i64::MIN), "-9223372036854775.808");
}

#[test]
fn seconds_are_written_with_two_fraction_digits() {
    assert_eq!(render_seconds_to_two_places(0), "0.00");
    assert_eq!(render_seconds_to_two_places(4), "0.00");
    assert_eq!(render_seconds_to_two_places(5), "0.01");
    assert_eq!(render_seconds_to_two_places(2504), "2.50");
    assert_eq!(render_seconds_to_two_places(2505), "2.51");
    assert_eq!(render_seconds_to_two_places(9995), "10.00");
    assert_eq!(render_seconds_to_two_places(10000), "10.00");
    assert_eq!(render_seconds_to_two_places(-4), "-0.00");
    assert_eq!(render_seconds_to_two_places(-1500), "-1.50");
    assert_eq!(render_seconds_to_two_places(i64::MAX), "9223372036854775.81");
    assert_eq!(render_seconds_to_two_places(i64::MIN), "-9223372036854775.81");
    for millis in [0i64, 10, 250, 1500, 3000, 5000, 8000, 10000, 12340, -750] {
        assert_eq!(
            render_seconds_to_two_places(millis),
            format!("{:.2}", millis as f64 / 1000.0)
        );
    }
}

#[test]
fn whole_numbers_parse_as_std_parses_them() {
    let samples = [
        "0",
        "7",
        "007",
        "+7",
        "-7",
        "",
        "+",
        " 7",
        "7 ",
        "7a",
        "18446744073709551615",
        "18446744073709551616",
        "99999999999999999999999",
        "1_000",
        "٣",
        "++1",
        "0x10",
    ];
    for sample in samples {
        assert_eq!(parse_u64_text(sample), sample.parse::<u64>().ok(), "for {:?}", sample);
    }
}

#[test]
fn decimals_parse_to_thousandths() {
    assert_eq!(parse_decimal_text("0"), Some(0));
    assert_eq!(parse_decimal_text("1"), Some(1000));
    assert_eq!(parse_decimal_text("1."), Some(1000));
    assert_eq!(parse_decimal_text("1.5"), Some(1500));
    assert_eq!(parse_decimal_text("1.05"), Some(1050));
    assert_eq!(parse_decimal_text("1.005"), Some(1005));
    assert_eq!(parse_decimal_text("1.0059"), Some(1005));
    assert_eq!(parse_decimal_text("001.5"), Some(1500));
    assert_eq!(parse_decimal_text("+0.25"), Some(250));
    assert_eq!(parse_decimal_text("-0.25"), Some(-250));
    assert_eq!(parse_decimal_text("-0"), Some(0));
    assert_eq!(parse_decimal_text("9223372036854775.807"), Some(i64::MAX));
    assert_eq!(parse_decimal_text("9223372036854775.808"), Some(i64::MAX));
    assert_eq!(parse_decimal_text("-9223372036854775.808"), Some(i64::MIN));
    assert_eq!(parse_decimal_text("-9223372036854775.809"), Some(i64::MIN));
    assert_eq!(parse_decimal_text("18446744073709551616"), Some(i64::MAX));
    for sample in ["", "+", "-", ".", ".5", "1.5.2", "1,5", "1e3", "inf", "NaN", " 1", "1 ", "--1", "1.-5", "1.5s"] {
        assert_eq!(parse_decimal_text(sample), None, "for {:?}", sample);
    }
}

#[test]
fn lines_are_joined_with_the_separator_between_them() {
    let parts = vec!["a".to_string(), String::new(), "b c".to_string()];
    assert_eq!(join_texts(&parts, ", "), parts.join(", "));
    assert_eq!(join_texts(&parts, ""), parts.join(""));
    assert_eq!(join_texts(&Vec::new(), "\n"), "");
    assert_eq!(join_texts(&vec!["only".to_string()], "\n"), "only");
}

#[test]
fn quoted_strings_are_what_serde_json_writes() {
    let mut samples: Vec<String> = SAMPLES.iter().map(|s| s.to_string()).collect();
    samples.push("say \"hi\" \\ / \u{7f}".to_string());
    samples.push((0u8..0x30).map(|b| b as char).collect());
    samples.push("\u{2603}\u{1F600}".to_string());
    for sample in samples {
        let mut quoted = String::from("x=");
        push_quoted(&mut quoted, &sample);
        let expected = serde_json::to_string(&sample).expect("a string");
        assert_eq!(quoted, format!("x={}", expected));

        let mut cursor = Cursor::new(&quoted);
        assert!(!cursor.take_word("y="));
        assert!(cursor.take_word("x="));
        assert_eq!(cursor.take_string(), Some(sample));
        assert!(cursor.at_end());
    }
}

#[test]
fn cursor_reads_numbers_in_their_one_form() {
    let mut cursor = Cursor::new("12,0.250;-3.001|007");
    assert_eq!(cursor.take_number(), Some(12));
    assert!(cursor.take_word(","));
    assert_eq!(cursor.take_thousandths(), Some(250));
    assert!(cursor.take_word(";"));
    assert_eq!(cursor.take_signed_thousandths(), Some(-3001));
    assert!(cursor.take_word("|"));
    assert_eq!(cursor.take_number(), None);
    assert!(!cursor.at_end());
    assert_eq!(Cursor::new("18446744073709551615").take_number(), Some(u64::MAX));
    assert_eq!(Cursor::new("18446744073709551616").take_number(), None);
    assert_eq!(Cursor::new("1.50").take_thousandths(), None);
    assert_eq!(Cursor::new("1.5000").take_thousandths(), Some(1500));
    assert_eq!(Cursor::new("12a").take_fraction(), None);
    assert_eq!(Cursor::new("-0.000").take_signed_thousandths(), None);
    assert_eq!(Cursor::new("").take_number(), None);
    assert_eq!(Cursor::new("").take_string(), None);
    assert_eq!(Cursor::new("\"open").take_string(), None);
}
