use codex_recall::order::{Rank, compare_numbers, compare_texts};
use codex_recall::text::{
    chars_of, decimal_string, find_chars, has_text, join_strings, lowercase_chars, parsed_i32,
    signed_decimal_string, string_of, trimmed, white_space,
};

fn rank(order: std::cmp::Ordering) -> Rank {
    match order {
        std::cmp::Ordering::Less => Rank::Less,
        std::cmp::Ordering::Equal => Rank::Equal,
        std::cmp::Ordering::Greater => Rank::Greater,
    }
}

#[test]
fn white_space_is_that_of_unicode() {
    for code in 0..=0x10ffffu32 {
        if let Some(c) = char::from_u32(code) {
            assert_eq!(white_space(c), c.is_whitespace(), "{code:x}");
        }
    }
}

#[test]
fn strings_and_characters() {
    let chars = chars_of("aé日𝄞");
    assert_eq!(chars, vec!['a', 'é', '日', '𝄞']);
    assert_eq!(string_of(&chars, 1, 3), "é日");
    assert_eq!(string_of(&chars, 2, 2), "");
}

#[test]
fn trimming() {
    for text in ["", " ", "a", " a ", "\u{2003}\ta b\n", "a\u{a0}", "\u{200b}x"] {
        assert_eq!(trimmed(text), text.trim(), "{text:?}");
    }
}

#[test]
fn finding() {
    for (hay, needle) in [
        ("", ""),
        ("a", ""),
        ("", "a"),
        ("abcabc", "bc"),
        ("aaab", "aab"),
        ("日本語", "本"),
        ("abc", "abcd"),
    ] {
        let expected = hay.find(needle).map(|at| hay[..at].chars().count());
        assert_eq!(find_chars(&chars_of(hay), &chars_of(needle)), expected);
        assert_eq!(has_text(&chars_of(hay), needle), hay.contains(needle));
    }
}

#[test]
fn joining() {
    assert_eq!(join_strings(&vec![], ", "), "");
    assert_eq!(join_strings(&vec!["a".to_string()], ", "), "a");
    assert_eq!(
        join_strings(&vec!["a".to_string(), String::new(), "b".to_string()], ", "),
        "a, , b"
    );
}

#[test]
fn ascii_lower_case() {
    for text in ["", "AbC", "ÀÉ", "Z[@`{", "MALFORMED"] {
        let lower: String = lowercase_chars(text).into_iter().collect();
        assert_eq!(lower, text.to_ascii_lowercase());
    }
}

#[test]
fn decimal_numbers() {
    for value in [0, 1, 9, 10, 99, 100, 1234567890, u64::MAX] {
        assert_eq!(decimal_string(value), value.to_string());
    }
    for value in [i32::MIN, -10, -1, 0, 7, i32::MAX] {
        assert_eq!(signed_decimal_string(value), value.to_string());
    }
}

#[test]
fn reading_numbers() {
    for text in [
        "", "+", "-", "0", "-0", "+7", "007", "11", " 11", "11 ", "1e3", "2147483647",
        "2147483648", "-2147483648", "-2147483649", "99999999999999999999999", "--1", "+-1", "١",
        "none", "0000000000000000000000000000000000026",
    ] {
        assert_eq!(parsed_i32(text), text.parse::<i32>().ok(), "{text:?}");
    }
}

#[test]
fn comparing() {
    let texts = ["", "a", "aa", "ab", "b", "é", "日", "\u{ffff}", "𝄞", "B"];
    for a in texts {
        for b in texts {
            assert_eq!(compare_texts(a, b), rank(a.cmp(b)), "{a:?} {b:?}");
        }
    }
    let numbers: [Vec<i16>; 6] = [vec![], vec![-1], vec![0], vec![0, -1], vec![0, 0], vec![255]];
    for a in &numbers {
        for b in &numbers {
            assert_eq!(compare_numbers(a, b), rank(a.cmp(b)), "{a:?} {b:?}");
        }
    }
}
