//! Short previews of conversation texts: normalised, cut to length, or cut out
//! around a match.
use vstd::prelude::*;

use crate::byte_index::{
    byte_offset_increases, byte_offset_splits, byte_offsets, char_end_after, char_start_before,
    stands_before, text_between,
};
use crate::text::{
    chars_of, find_chars, is_solid, join, lemma_join_push, position, push_range, string_of, trim,
    trim_end, trim_end_bound, trim_start, trimmed, white_space, words,
};

verus! {

/// How far an excerpt reaches back before a match: one character more than
/// this.
pub const MATCH_CONTEXT_BEFORE_CHARS: usize = 48;

/// How many characters an excerpt shows after a match.
pub const MATCH_CONTEXT_AFTER_CHARS: usize = 96;

/// How many characters of a message a preview shows.
pub const PREVIEW_MESSAGE_MAX_CHARS: usize = 96;

// ---------------------------------------------------------------------------
// Normalising
// ---------------------------------------------------------------------------

/// `s` with its words separated by single spaces and nothing else.
pub open spec fn normalized(s: Seq<char>) -> Seq<char> {
    join(words(s), seq![' '])
}

/// `text` with its words separated by single spaces and nothing else.
pub fn normalize_preview_text(text: &str) -> (normal: String)
    ensures
        normal@ == normalized(text@),
{
    let chars = chars_of(text);
    let mut out: Vec<char> = Vec::new();
    let ghost mut seen: Seq<Seq<char>> = seq![];
    let mut i: usize = 0;
    let mut first = true;
    assert(chars@.skip(0) =~= chars@);
    assert(seen + words(chars@) =~= words(chars@));
    while i < chars.len()
        invariant
            i <= chars@.len(),
            words(chars@) == seen + words(chars@.skip(i as int)),
            out@ == join(seen, seq![' ']),
            first == (seen.len() == 0),
        decreases chars@.len() - i,
    {
        let ghost rest = chars@.skip(i as int);
        if white_space(chars[i]) {
            proof {
                assert(rest[0] == chars@[i as int]);
                assert(rest.drop_first() =~= chars@.skip(i + 1));
                assert(trim_start(rest) == trim_start(chars@.skip(i + 1)));
                reveal_with_fuel(words, 1);
                assert(words(rest) == words(chars@.skip(i + 1)));
            }
            i = i + 1;
        } else {
            let start = i;
            while i < chars.len() && !white_space(chars[i])
                invariant
                    start <= i <= chars@.len(),
                    is_solid(chars@.subrange(start as int, i as int)),
                decreases chars@.len() - i,
            {
                assert(chars@.subrange(start as int, i + 1) =~= chars@.subrange(
                    start as int,
                    i as int,
                ).push(chars@[i as int]));
                i = i + 1;
            }
            let ghost word = chars@.subrange(start as int, i as int);
            proof {
                let n = i - start;
                assert(rest[0] == chars@[start as int]);
                assert(trim_start(rest) == rest);
                assert(rest.take(n) =~= word);
                crate::text::lemma_solid_prefix_is(rest, n);
                assert(rest.skip(n) =~= chars@.skip(i as int));
                assert(words(rest) =~= seq![word] + words(chars@.skip(i as int)));
                assert(seen + words(rest) =~= seen.push(word) + words(chars@.skip(i as int)));
                lemma_join_push(seen, seq![' '], word);
            }
            if !first {
                out.push(' ');
            }
            assert(first ==> out@ =~= seq![]);
            push_range(&mut out, &chars, start, i);
            first = false;
            proof {
                assert(out@ =~= join(seen.push(word), seq![' ']));
                seen = seen.push(word);
            }
        }
    }
    proof {
        let end = chars@.skip(i as int);
        assert(end =~= seq![]);
        assert(words(end) =~= seq![]);
        assert(seen + words(end) =~= seen);
        assert(out@.subrange(0, out@.len() as int) =~= out@);
    }
    string_of(&out, 0, out.len())
}

// ---------------------------------------------------------------------------
// Cutting to length
// ---------------------------------------------------------------------------

/// `s` normalised and cut to the length of a preview.
pub open spec fn truncated(s: Seq<char>) -> Seq<char> {
    let normal = normalized(s);
    if normal.len() <= PREVIEW_MESSAGE_MAX_CHARS {
        normal
    } else {
        trim_end(normal.take(PREVIEW_MESSAGE_MAX_CHARS as int)) + "..."@
    }
}

/// `text` normalised and cut to the length of a preview.
pub fn truncate_preview_text(text: &str) -> (cut: String)
    ensures
        cut@ == truncated(text@),
{
    let normal = normalize_preview_text(text);
    let chars = chars_of(normal.as_str());
    if chars.len() <= PREVIEW_MESSAGE_MAX_CHARS {
        return normal;
    }
    let end = trim_end_bound(&chars, 0, PREVIEW_MESSAGE_MAX_CHARS);
    assert(chars@.subrange(0, PREVIEW_MESSAGE_MAX_CHARS as int) =~= chars@.take(
        PREVIEW_MESSAGE_MAX_CHARS as int,
    ));
    string_of(&chars, 0, end).concat("...")
}

// ---------------------------------------------------------------------------
// Excerpts
// ---------------------------------------------------------------------------

/// Where an excerpt around a match at `at` starts.
pub open spec fn excerpt_start(at: int) -> int {
    if at > MATCH_CONTEXT_BEFORE_CHARS {
        at - MATCH_CONTEXT_BEFORE_CHARS - 1
    } else {
        0
    }
}

/// Where an excerpt of a text of length `len` ends, if the match ends at `end`.
pub open spec fn excerpt_end(end: int, len: int) -> int {
    if end + MATCH_CONTEXT_AFTER_CHARS < len {
        end + MATCH_CONTEXT_AFTER_CHARS
    } else {
        len
    }
}

/// The text of an excerpt: what is left out on either side is shown by dots.
pub open spec fn framed(normal: Seq<char>, start: int, end: int) -> Seq<char> {
    let before = if start > 0 {
        "... "@
    } else {
        seq![]
    };
    let after = if end < normal.len() {
        " ..."@
    } else {
        seq![]
    };
    before + trim(normal.subrange(start, end)) + after
}

/// The part of the normalised text `s` around the first match of `term`. There
/// is none without a match, nor where the part is all white space.
pub open spec fn excerpt(s: Seq<char>, term: Seq<char>) -> Option<Seq<char>> {
    let normal = normalized(s);
    match position(normal, term) {
        None => None,
        Some(at) => {
            let start = excerpt_start(at);
            let end = excerpt_end(at + term.len(), normal.len() as int);
            if trim(normal.subrange(start, end)).len() == 0 {
                None
            } else {
                Some(framed(normal, start, end))
            }
        },
    }
}

/// The text behind an optional string.
pub open spec fn optional_text(text: Option<String>) -> Option<Seq<char>> {
    match text {
        Some(text) => Some(text@),
        None => None,
    }
}

/// The part of the normalised `text` around the first match of `search_term`.
pub fn excerpt_around_match(text: &str, search_term: &str) -> (snippet: Option<String>)
    ensures
        optional_text(snippet) == excerpt(text@, search_term@),
{
    let normal = normalize_preview_text(text);
    let chars = chars_of(normal.as_str());
    let term = chars_of(search_term);
    let at = match find_chars(&chars, &term) {
        Some(at) => at,
        None => {
            return None;
        },
    };
    let offsets = byte_offsets(normal.as_str());
    let match_start = offsets[at];
    let match_end = offsets[at + term.len()];
    let ghost s = normal@;
    let ghost end_number = (at + term@.len()) as int;
    proof {
        assert(stands_before(s, at as int, match_start as int));
        assert(stands_before(s, end_number, match_end as int));
    }
    let start = char_start_before(normal.as_str(), match_start, MATCH_CONTEXT_BEFORE_CHARS);
    let end = char_end_after(normal.as_str(), match_end, MATCH_CONTEXT_AFTER_CHARS);
    let ghost first = excerpt_start(at as int);
    let ghost last = excerpt_end(end_number, s.len() as int);
    proof {
        assert(stands_before(s, first, start as int));
        assert(stands_before(s, last, end as int));
        byte_offset_splits(s, first, last);
        byte_offset_splits(s, 0, first);
        byte_offset_splits(s, last, s.len() as int);
    }
    let part = trimmed(text_between(normal.as_str(), start, end).as_str());
    if part.as_str().is_empty() {
        return None;
    }
    let total = offsets[offsets.len() - 1];
    proof {
        assert(s.take(0) =~= seq![]);
        if first > 0 {
            byte_offset_increases(s, 0, first);
        }
        if last < s.len() {
            byte_offset_increases(s, last, s.len() as int);
        }
        assert(start > 0 <==> first > 0);
        assert(end < total <==> last < s.len());
    }
    let mut snippet = String::new();
    if start > 0 {
        snippet.append("... ");
    }
    snippet.append(part.as_str());
    if end < total {
        snippet.append(" ...");
    }
    assert(snippet@ =~= framed(s, first, last));
    Some(snippet)
}

} // verus!
