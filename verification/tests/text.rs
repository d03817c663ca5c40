use rs_dbc::text::{
    chars_of, is_number_text, is_white_space_char, parse_u32, parse_u64, same_text, split_lines,
    split_trimmed, trim,
};

#[test]
fn chars_of_keeps_every_character() {
    assert_eq!(chars_of("BO_ 1"), vec!['B', 'O', '_', ' ', '1']);
    assert_eq!(chars_of("aé€😀"), vec!['a', 'é', '€', '😀']);
    assert_eq!(chars_of(""), Vec::<char>::new());
}

#[test]
fn parse_u32_reads_decimal_digits() {
    assert_eq!(parse_u32("0"), Some(0));
    assert_eq!(parse_u32("100"), Some(100));
    assert_eq!(parse_u32("007"), Some(7));
    assert_eq!(parse_u32("+5"), Some(5));
    assert_eq!(parse_u32("4294967295"), Some(u32::MAX));
}

#[test]
fn parse_u32_refuses_what_is_no_u32() {
    assert_eq!(parse_u32(""), None);
    assert_eq!(parse_u32("+"), None);
    assert_eq!(parse_u32("-5"), None);
    assert_eq!(parse_u32("4294967296"), None);
    assert_eq!(parse_u32("99999999999999999999999"), None);
    assert_eq!(parse_u32("12a"), None);
    assert_eq!(parse_u32(" 12"), None);
    assert_eq!(parse_u32("12 "), None);
    assert_eq!(parse_u32("١٢"), None);
}

#[test]
fn parse_u32_agrees_with_std() {
    let samples = [
        "", "0", "1", "42", "007", "+5", "+", "-5", "-0", "++1", "+-1", "4294967295",
        "4294967296", "4294967300", "42949672950", "99999999999999999999", "12a", "a12", " 12",
        "12 ", "1_000", "١٢", "1٢", "0x10", "1.0", "+0", "+4294967295", "+4294967296",
    ];
    for s in samples {
        assert_eq!(parse_u32(s), s.parse::<u32>().ok(), "on {:?}", s);
    }
}

#[test]
fn parse_u64_agrees_with_std() {
    let samples = [
        "", "0", "7", "16", "+16", "+", "-1", "18446744073709551615", "18446744073709551616",
        "18446744073709551620", "184467440737095516150", "99999999999999999999999999", "1e3",
        "１２", "12\n", "000000000000000000000000000001",
    ];
    for s in samples {
        assert_eq!(parse_u64(s), s.parse::<u64>().ok(), "on {:?}", s);
    }
    assert_eq!(parse_u64("18446744073709551615"), Some(u64::MAX));
    assert_eq!(parse_u64("18446744073709551616"), None);
}

#[test]
fn number_texts_are_accepted() {
    for s in [
        "0", "1", "-1", "+1", "0.25", "16000", "1.5", ".5", "5.", "1e5", "1E5", "1e+5", "1e-5",
        "1.e5", "-.5e-3", "inf", "-inf", "+INF", "Infinity", "iNfInItY", "nan", "NaN", "-nan",
    ] {
        assert!(is_number_text(s), "on {:?}", s);
    }
}

#[test]
fn other_texts_are_no_numbers() {
    for s in [
        "", "+", "-", ".", "e5", "1e", "1e+", ".e5", "+.e1", " 1", "1 ", "1_0", "0x10", "1.2.3",
        "1e5.5", "--1", "+-1", "1e--5", "infinit", "infinity8", "nanx", "i", "in", "1f",
    ] {
        assert!(!is_number_text(s), "on {:?}", s);
    }
}

#[test]
fn number_texts_are_what_std_reads_as_a_float() {
    let samples = [
        "", "0", "1", "-1", "+1", "1.5", ".5", "5.", ".", "+", "-", "+.", "-.", "e5", "1e5",
        "1E5", "1e+5", "1e-5", "1e", "1e+", "1e-", "1.e5", ".e5", ".5e5", "5.e", "inf", "-inf",
        "+INF", "Infinity", "infinity", "INFINITY", "iNfInItY", "infinit", "infinityy", "nan",
        "NaN", "NAN", "-nan", "+nan", "nanx", "na", " 1", "1 ", "1_0", "0x10", "1.2.3", "1e5.5",
        "--1", "+-1", "-+1", "1e--5", "1e+-5", "١", "1١", "١.٥", "1f", "1.0f64", "e", "E", ".e",
        "-.5e-3", "+.e1", "i", "in", "ınf", "\u{212a}", "1e5e5", "1.5.", "..5", "1..5", "16000",
        "0.25", "-0", "-0.0", "1e400", "1e-400", "0000.0000", "1E", "1E+", "1e0", "+1e+1",
        "123456789012345678901234567890.123456789012345678901234567890e-20", "inf ", " nan",
        "in\u{66}", "na\u{4e}", "\u{130}nf", "1\n", "\t1", "1,5", "1e1.", "1e.1", "+inf", "+-inf",
    ];
    for s in samples {
        assert_eq!(is_number_text(s), s.parse::<f64>().is_ok(), "on {:?}", s);
    }
}

#[test]
fn trim_removes_white_space_at_both_ends() {
    assert_eq!(trim("  ECU \t"), "ECU");
    assert_eq!(trim("a b"), "a b");
    assert_eq!(trim(""), "");
    assert_eq!(trim(" \n\t "), "");
    assert_eq!(trim("\u{a0}x y\u{2003}\u{3000}"), "x y");
    assert_eq!(trim("\u{200b}x"), "\u{200b}x");
}

#[test]
fn trim_agrees_with_std() {
    let samples = [
        "", " ", "a", " a", "a ", " a ", "\t\r\n a b \u{b}\u{c}", "\u{85}a\u{85}",
        "\u{1680}a\u{2000}\u{200a}", "\u{2028}\u{2029}a\u{202f}\u{205f}", "\u{feff}a", "a\u{0}",
        "  é  ",
    ];
    for s in samples {
        assert_eq!(trim(s), s.trim(), "on {:?}", s);
    }
}

#[test]
fn split_trimmed_cuts_at_each_separator() {
    assert_eq!(split_trimmed("A, B ,C", ','), vec!["A", "B", "C"]);
    assert_eq!(split_trimmed("A", ','), vec!["A"]);
    assert_eq!(split_trimmed("", ','), vec![""]);
    assert_eq!(split_trimmed(",", ','), vec!["", ""]);
    assert_eq!(split_trimmed("A,,B,", ','), vec!["A", "", "B", ""]);
    assert_eq!(split_trimmed(" , ", ','), vec!["", ""]);
}

#[test]
fn split_trimmed_agrees_with_std() {
    let samples = ["", ",", ",,", "a", "a,b", " a , b ", "a,,b", ",a", "a,", "a b, c d ,e", "é,ü"];
    for s in samples {
        let expected: Vec<String> = s.split(',').map(|p| p.trim().to_string()).collect();
        assert_eq!(split_trimmed(s, ','), expected, "on {:?}", s);
    }
}

#[test]
fn split_lines_ends_a_line_at_a_line_feed() {
    assert_eq!(split_lines("a\nb"), vec!["a", "b"]);
    assert_eq!(split_lines("a\r\nb\r\n"), vec!["a", "b"]);
    assert_eq!(split_lines(""), Vec::<String>::new());
    assert_eq!(split_lines("\n"), vec![""]);
    assert_eq!(split_lines("a\n\nb"), vec!["a", "", "b"]);
    assert_eq!(split_lines("a\r"), vec!["a\r"]);
    assert_eq!(split_lines("a\rb\n"), vec!["a\rb"]);
    assert_eq!(split_lines("a\r\r\n"), vec!["a\r"]);
}

#[test]
fn split_lines_agrees_with_std() {
    let samples = [
        "", "\n", "\r\n", "\r", "a", "a\n", "a\nb", "a\r\nb", "a\r", "a\r\n", "a\n\nb", "a\r\r\n",
        "a\rb\n", "\n\n", "\n\r\n", "\r\n\r\n", "é\nü", "a\n\r", " \n ",
    ];
    for s in samples {
        let expected: Vec<String> = s.lines().map(|l| l.to_string()).collect();
        assert_eq!(split_lines(s), expected, "on {:?}", s);
    }
}

#[test]
fn white_space_is_what_std_takes_for_it() {
    for code in 0..=0x10FFFFu32 {
        if let Some(c) = char::from_u32(code) {
            assert_eq!(is_white_space_char(c), c.is_whitespace(), "on U+{:04X}", code);
        }
    }
}

#[test]
fn white_space_characters() {
    for c in ['\t', '\n', '\u{b}', '\u{c}', '\r', ' ', '\u{85}', '\u{a0}', '\u{1680}', '\u{2000}',
        '\u{2005}', '\u{200a}', '\u{2028}', '\u{2029}', '\u{202f}', '\u{205f}', '\u{3000}']
    {
        assert!(is_white_space_char(c), "on {:?}", c);
    }
    for c in ['a', '0', '_', '\u{8}', '\u{e}', '\u{1f}', '\u{84}', '\u{86}', '\u{180e}', '\u{1fff}',
        '\u{200b}', '\u{200c}', '\u{2027}', '\u{202a}', '\u{2060}', '\u{3001}', '\u{feff}']
    {
        assert!(!is_white_space_char(c), "on {:?}", c);
    }
}

#[test]
fn same_text_compares_every_character() {
    assert!(same_text("Intel", "Intel"));
    assert!(same_text("", ""));
    assert!(!same_text("Intel", "Intel "));
    assert!(!same_text("Intel", "intel"));
    assert!(!same_text("Intel", "Inte"));
    assert!(!same_text("a", "b"));
}

/// Texts over `alphabet`, each at most `longest` characters long, from a
/// fixed pseudo-random sequence.
fn samples(alphabet: &str, longest: usize, count: usize) -> Vec<String> {
    let letters: Vec<char> = alphabet.chars().collect();
    let mut state: u64 = 0x2545_F491_4F6C_DD1D;
    let mut next = move || {
        state ^= state << 13;
        state ^= state >> 7;
        state ^= state << 17;
        state
    };
    let mut texts = Vec::with_capacity(count);
    for _ in 0..count {
        let len = (next() % (longest as u64 + 1)) as usize;
        let mut text = String::new();
        for _ in 0..len {
            text.push(letters[(next() % letters.len() as u64) as usize]);
        }
        texts.push(text);
    }
    texts
}

#[test]
fn number_texts_agree_with_std_on_many_samples() {
    for s in samples("0123456789+-.eEinfatyINFATY \u{660}", 7, 40000) {
        assert_eq!(is_number_text(&s), s.parse::<f64>().is_ok(), "on {:?}", s);
    }
    for s in samples("019+-.eE", 9, 40000) {
        assert_eq!(is_number_text(&s), s.parse::<f64>().is_ok(), "on {:?}", s);
    }
}

#[test]
fn parse_u32_and_u64_agree_with_std_on_many_samples() {
    for s in samples("0123456789+- ", 5, 20000) {
        assert_eq!(parse_u32(&s), s.parse::<u32>().ok(), "on {:?}", s);
        assert_eq!(parse_u64(&s), s.parse::<u64>().ok(), "on {:?}", s);
    }
    for s in samples("0123456789", 22, 20000) {
        assert_eq!(parse_u32(&s), s.parse::<u32>().ok(), "on {:?}", s);
        assert_eq!(parse_u64(&s), s.parse::<u64>().ok(), "on {:?}", s);
    }
    for s in samples("04289671635", 11, 20000) {
        let s = format!("429496{}", s);
        assert_eq!(parse_u32(&s), s.parse::<u32>().ok(), "on {:?}", s);
        let s = format!("18446744073{}", s);
        assert_eq!(parse_u64(&s), s.parse::<u64>().ok(), "on {:?}", s);
    }
}

#[test]
fn trim_split_and_lines_agree_with_std_on_many_samples() {
    for s in samples("ab ,\t\n\r\u{a0}\u{2003}\u{200b}é", 8, 20000) {
        assert_eq!(trim(&s), s.trim(), "on {:?}", s);
        let pieces: Vec<String> = s.split(',').map(|p| p.trim().to_string()).collect();
        assert_eq!(split_trimmed(&s, ','), pieces, "on {:?}", s);
        let lines: Vec<String> = s.lines().map(|l| l.to_string()).collect();
        assert_eq!(split_lines(&s), lines, "on {:?}", s);
        assert_eq!(same_text(&s, "ab"), s == "ab", "on {:?}", s);
    }
    for s in samples("a\n\r", 6, 20000) {
        let lines: Vec<String> = s.lines().map(|l| l.to_string()).collect();
        assert_eq!(split_lines(&s), lines, "on {:?}", s);
    }
}
