use codex_recall::byte_index::{byte_offsets, char_end_after, char_start_before, text_between};
use codex_recall::preview::{
    excerpt_around_match, normalize_preview_text, truncate_preview_text,
};

#[test]
fn normalizing_collapses_white_space() {
    for text in ["", "   ", "a", "  a  b\n\tc ", "a\u{2003}b", "\u{a0}x\u{a0}"] {
        assert_eq!(
            normalize_preview_text(text),
            text.split_whitespace().collect::<Vec<_>>().join(" ")
        );
    }
}

#[test]
fn normalizing_twice_changes_nothing() {
    let once = normalize_preview_text(" a \n b\tc  ");
    assert_eq!(once, "a b c");
    assert_eq!(normalize_preview_text(&once), once);
}

#[test]
fn short_texts_are_not_cut() {
    assert_eq!(truncate_preview_text("  hello   world "), "hello world");
    let exact = "x".repeat(96);
    assert_eq!(truncate_preview_text(&exact), exact);
    let wide = "日".repeat(96);
    assert_eq!(truncate_preview_text(&wide), wide);
}

#[test]
fn long_texts_are_cut() {
    assert_eq!(
        truncate_preview_text(&"x".repeat(97)),
        format!("{}...", "x".repeat(96))
    );
    assert_eq!(
        truncate_preview_text(&"日".repeat(200)),
        format!("{}...", "日".repeat(96))
    );
    let text = format!("{} tail", "x".repeat(95));
    assert_eq!(
        truncate_preview_text(&text),
        format!("{}...", "x".repeat(95))
    );
}

#[test]
fn excerpts_of_short_texts_are_whole() {
    assert_eq!(
        excerpt_around_match("find the needle here", "needle"),
        Some("find the needle here".to_string())
    );
    assert_eq!(excerpt_around_match("find the needle", "pin"), None);
    assert_eq!(excerpt_around_match("", ""), None);
    assert_eq!(excerpt_around_match("a", ""), Some("a".to_string()));
}

#[test]
fn excerpts_are_framed() {
    let text = format!("{}needle{}", "a".repeat(60), "b".repeat(120));
    assert_eq!(
        excerpt_around_match(&text, "needle"),
        Some(format!("... {}needle{} ...", "a".repeat(49), "b".repeat(96)))
    );
    let text = format!("{}needle{}", "a".repeat(48), "b".repeat(96));
    assert_eq!(excerpt_around_match(&text, "needle"), Some(text));
    let text = format!("{}needle{}", "é".repeat(60), "日".repeat(120));
    assert_eq!(
        excerpt_around_match(&text, "needle"),
        Some(format!("... {}needle{} ...", "é".repeat(49), "日".repeat(96)))
    );
}

#[test]
fn terms_that_span_collapsed_space_are_not_found() {
    assert_eq!(excerpt_around_match("a  b", "a  b"), None);
    assert_eq!(
        excerpt_around_match("a  b", "a b"),
        Some("a b".to_string())
    );
}

fn start_before(text: &str, byte_index: usize, chars_before: usize) -> usize {
    text[..byte_index]
        .char_indices()
        .rev()
        .nth(chars_before)
        .map(|(idx, _)| idx)
        .unwrap_or(0)
}

fn end_after(text: &str, byte_index: usize, chars_after: usize) -> usize {
    text[byte_index..]
        .char_indices()
        .nth(chars_after)
        .map(|(offset, _)| byte_index.saturating_add(offset))
        .unwrap_or(text.len())
}

#[test]
fn byte_indices_count_characters() {
    for text in ["", "abc", "aé日𝄞z", "ééé"] {
        for byte in 0..=text.len() {
            if !text.is_char_boundary(byte) {
                continue;
            }
            for count in 0..7 {
                assert_eq!(
                    char_start_before(text, byte, count),
                    start_before(text, byte, count)
                );
                assert_eq!(
                    char_end_after(text, byte, count),
                    end_after(text, byte, count)
                );
            }
        }
    }
    assert_eq!(char_start_before("aé日", 6, 0), 3);
    assert_eq!(char_start_before("aé日", 6, 1), 1);
    assert_eq!(char_end_after("aé日", 1, 1), 3);
}

#[test]
fn byte_offsets_of_characters() {
    assert_eq!(byte_offsets("aé日𝄞"), vec![0, 1, 3, 6, 10]);
    assert_eq!(text_between("aé日𝄞", 1, 6), "é日");
}

const TEXTS: [&str; 8] = [
    "",
    "   ",
    "one",
    " two  words ",
    "a\nneedle\tin a   haystack",
    "日本語 needle のテキスト",
    "needle needle needle",
    "\u{2003}wide\u{2003}space needle\u{a0}",
];

#[test]
fn normalizing_keeps_the_words_and_single_spaces() {
    for text in TEXTS {
        let normal = normalize_preview_text(text);
        let before: Vec<&str> = text.split_whitespace().collect();
        let after: Vec<&str> = normal.split(' ').filter(|word| !word.is_empty()).collect();
        assert_eq!(before, after);
        assert!(!normal.contains("  "));
        assert_eq!(normal.trim(), normal);
        assert_eq!(normalize_preview_text(&normal), normal);
    }
}

#[test]
fn cut_texts_fit() {
    for text in TEXTS {
        for times in [1, 3, 40] {
            let cut = truncate_preview_text(&text.repeat(times));
            assert!(cut.chars().count() <= 96 + 3);
        }
    }
}

#[test]
fn excerpts_show_the_term_and_fit() {
    for text in TEXTS {
        for times in [1, 3, 40] {
            let long = format!("{} {text} {}", "x".repeat(times), "y ".repeat(times * 3));
            if let Some(snippet) = excerpt_around_match(&long, "needle") {
                assert!(snippet.contains("needle"));
                assert!(snippet.chars().count() <= 49 + 6 + 96 + 8);
            } else {
                assert!(!text.contains("needle"));
            }
        }
    }
}

#[test]
fn terms_may_start_or_end_with_a_space() {
    for term in [" ", "a ", " b", " b "] {
        assert_eq!(
            excerpt_around_match("a   b\nc", term),
            Some("a b c".to_string())
        );
    }
}
