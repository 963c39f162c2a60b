use kokoro_tts::lex::{lex_rank, Rank};
use kokoro_tts::text::{
    chars_of, count_bytes, is_whitespace, push_decimal, push_signed_decimal, slice_chars,
    string_of, trim_bounds,
};

#[test]
fn white_space_is_what_the_standard_library_calls_so() {
    for code in 0u32..=0x10FFFF {
        if let Some(c) = char::from_u32(code) {
            assert_eq!(is_whitespace(c), c.is_whitespace(), "U+{:04X}", code);
        }
    }
}

#[test]
fn bytes_are_counted_as_in_utf8() {
    for text in ["", "a", "\u{7f}", "\u{80}", "\u{7ff}", "\u{800}", "\u{ffff}", "\u{10000}", "\u{10ffff}", "h\u{e9}llo \u{65e5}\u{672c} \u{1f600}"] {
        assert_eq!(count_bytes(&chars_of(text)), text.len() as u128, "{:?}", text);
    }
}

#[test]
fn numbers_are_written_in_decimal() {
    for n in [0u64, 1, 9, 10, 11, 99, 100, 509, 510, 130560, 4294967295, 4294967296, u64::MAX] {
        let mut out = "n=".to_string();
        push_decimal(&mut out, n);
        assert_eq!(out, format!("n={}", n));
    }
    for n in [0i64, 1, -1, 9, -9, 10, -10, 2147483647, -2147483648, i64::MAX, i64::MIN] {
        let mut out = String::new();
        push_signed_decimal(&mut out, n);
        assert_eq!(out, n.to_string());
    }
}

#[test]
fn strings_are_ordered_as_the_standard_library_orders_them() {
    let words = ["", "a", "A", "ab", "abc", "abd", "b", "Z", "z", "\u{e9}", "e\u{301}", "\u{10000}", "\u{ffff}", "af_nova", "af_", "af"];
    for a in words {
        for b in words {
            let expected = match a.cmp(b) {
                std::cmp::Ordering::Less => Rank::Before,
                std::cmp::Ordering::Equal => Rank::Same,
                std::cmp::Ordering::Greater => Rank::After,
            };
            assert_eq!(lex_rank(&chars_of(a), &chars_of(b)), expected, "{:?} and {:?}", a, b);
        }
    }
}

#[test]
fn pieces_of_text_are_cut_and_trimmed_by_position() {
    let chars = chars_of("  h\u{e9}llo w\u{f6}rld \n");
    assert_eq!(chars.len(), 15);
    assert_eq!(string_of(&chars, 2, 7), "h\u{e9}llo");
    assert_eq!(slice_chars(&chars, 8, 13), vec!['w', '\u{f6}', 'r', 'l', 'd']);
    assert_eq!(string_of(&chars, 3, 3), "");
    assert_eq!(trim_bounds(&chars, 0, 15), (2, 13));
    assert_eq!(trim_bounds(&chars, 7, 9), (8, 9));
    assert_eq!(trim_bounds(&chars, 0, 2), (2, 2));
    assert_eq!(trim_bounds(&chars, 13, 15), (15, 15));
    assert_eq!(trim_bounds(&chars, 4, 4), (4, 4));
}
