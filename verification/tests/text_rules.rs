use nbp_rs::decimal::parse_u64;
use nbp_rs::float_syntax::float_literal;
use nbp_rs::text::{contains_chars, replace_commas, same_chars, trimmed, white_space};

fn chars(s: &str) -> Vec<char> {
    s.chars().collect()
}

fn is_literal(s: &str) -> bool {
    float_literal(&chars(s))
}

#[test]
fn float_literals_agree_with_f64_from_str() {
    let samples = [
        "3.14", "-3.14", "2.5E10", "2.5e10", "2.5E-10", "5.", ".5", "0.5", "inf", "-inf",
        "+infinity", "NaN", "INF", "Inf", "iNf", "InFiNiTy", "nan", "-nan", "+1", "1", "007",
        "1e+5", "1E-0", "", ".", "+", "-", "e5", ".e5", "1e", "1e+", "1.2.3", "1,5", " 1", "1 ",
        "1_000", "++1", "+-1", "infinit", "infinityy", "nana", "0x10", "1e5.5", "1ee5", "4.2534",
        "١", "1\u{a0}", "E", "-.5", "+.", "5.e3", ".5e-3",
    ];
    for s in samples {
        assert_eq!(is_literal(s), s.parse::<f64>().is_ok(), "sample {s:?}");
    }
}

#[test]
fn u64_parse_agrees_with_from_str() {
    let samples = [
        "0", "3600", "+42", "18446744073709551615", "18446744073709551616", "99999999999999999999",
        "", "+", "-1", "-0", " 1", "1 ", "1_0", "0x1", "00012", "+0", "1.0",
    ];
    for s in samples {
        assert_eq!(parse_u64(&chars(s)), s.parse::<u64>().ok(), "sample {s:?}");
    }
}

#[test]
fn trim_agrees_with_str_trim() {
    let samples = [
        "", "  ", " a ", "\t\n a b \r\n", "\u{a0}4,25\u{2003}", "\u{3000}x\u{85}", "x", "\u{200b}x",
        "\u{1680}\u{2028}\u{2029}\u{202f}\u{205f}y\u{b}\u{c}",
    ];
    for s in samples {
        let expected: Vec<char> = s.trim().chars().collect();
        assert_eq!(trimmed(&chars(s)), expected, "sample {s:?}");
    }
}

#[test]
fn white_space_agrees_with_char() {
    for u in 0u32..0x3100 {
        if let Some(c) = char::from_u32(u) {
            assert_eq!(white_space(c), c.is_whitespace(), "char {u:#x}");
        }
    }
}

#[test]
fn commas_become_points() {
    assert_eq!(replace_commas(&chars("4,2534")), chars("4.2534"));
    assert_eq!(replace_commas(&chars(",,a,")), chars("..a."));
}

#[test]
fn contains_finds_substrings() {
    assert!(contains_chars(&chars("100 JPY ="), &chars("JPY")));
    assert!(contains_chars(&chars("EUR"), &chars("EUR")));
    assert!(contains_chars(&chars("abc"), &chars("")));
    assert!(!contains_chars(&chars("EU"), &chars("EUR")));
    assert!(!contains_chars(&chars("eur"), &chars("EUR")));
}

#[test]
fn same_chars_compares() {
    assert!(same_chars(&chars("-V"), &chars("-V")));
    assert!(!same_chars(&chars("-V"), &chars("-v")));
    assert!(!same_chars(&chars("-V"), &chars("-VV")));
}
