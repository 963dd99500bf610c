use helix_vue_proxy::codec::decode;
use helix_vue_proxy::proxy::truncate_log;
use helix_vue_proxy::text::{
    characters, format_decimal, parse_numeral, same_text, trim, truncate_text, white_space,
};

#[test]
fn texts_are_the_same_by_their_characters() {
    assert!(same_text("", ""));
    assert!(same_text("aü🌍", "aü🌍"));
    assert!(!same_text("ab", "abc"));
    assert!(!same_text("abd", "abc"));
}

#[test]
fn white_space_is_what_the_standard_library_takes_for_it() {
    for code in 0..0x11_0000u32 {
        if let Some(c) = char::from_u32(code) {
            assert_eq!(white_space(c), c.is_whitespace(), "{c:?}");
        }
    }
}

#[test]
fn white_space_is_trimmed_at_both_ends() {
    for text in ["", " ", "\r\n", " a b \t", "a", "\u{3000}é\u{85}"] {
        assert_eq!(trim(characters(text)), characters(text.trim()), "{text:?}");
    }
}

#[test]
fn numerals_and_numbers() {
    for number in [0, 7, 10, 99, 100, 65_535, usize::MAX] {
        let digits = format_decimal(number);
        assert_eq!(digits, characters(&number.to_string()));
        assert_eq!(parse_numeral(&digits), Some(number));
    }
    assert_eq!(parse_numeral(&characters("007")), Some(7));
    for text in ["", "-1", "1a", " 1", "18446744073709551616"] {
        assert_eq!(parse_numeral(&characters(text)), None, "{text:?}");
    }
}

#[test]
fn long_texts_are_cut() {
    let short = "a".repeat(500);
    assert_eq!(truncate_text(&short), short);
    let long = "a".repeat(501);
    assert_eq!(truncate_text(&long), format!("{short}... (501 bytes total)"));
    for (c, kept) in [('é', 250), ('世', 166), ('🌍', 125)] {
        for offset in 0..4 {
            let text = format!("{}{}", "a".repeat(offset), c.to_string().repeat(600));
            let mut cut = 500;
            while !text.is_char_boundary(cut) {
                cut -= 1;
            }
            let result = truncate_text(&text);
            assert_eq!(result, format!("{}... ({} bytes total)", &text[..cut], text.len()));
            assert!(cut >= 497 && result.len() <= 538);
            if offset == 0 {
                assert_eq!(cut, kept * c.len_utf8());
            }
        }
    }
    let wide = "ä".repeat(600);
    assert_eq!(truncate_text(&wide), format!("{}... (1200 bytes total)", "ä".repeat(250)));
}

#[test]
fn long_values_are_cut_for_the_log() {
    let short = decode(br#"{"b": 1, "a": 2}"#).unwrap();
    assert_eq!(truncate_log(&short), r#"{"a":2,"b":1}"#);
    let long = decode(format!("\"{}\"", "x".repeat(600)).as_bytes()).unwrap();
    assert_eq!(truncate_log(&long), format!("\"{}... (602 bytes total)", "x".repeat(499)));
    let across = decode(format!("\"{}\"", "ä".repeat(600)).as_bytes()).unwrap();
    let start = format!("\"{}", "ä".repeat(249));
    assert_eq!(start.len(), 499);
    assert_eq!(truncate_log(&across), format!("{start}... (1202 bytes total)"));
}
