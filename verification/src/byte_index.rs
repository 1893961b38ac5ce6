//! Byte positions in a text, next to the characters that they stand between.
//!
//! A text is stored as UTF-8, so the position of a character in bytes is the
//! encoded length of everything before it.
use vstd::prelude::*;
use vstd::utf8::*;

use crate::text::{chars_of, string_of};

verus! {

/// The number of bytes that the first `k` characters of `s` take up.
pub open spec fn byte_offset(s: Seq<char>, k: int) -> nat {
    encode_utf8(s.take(k)).len()
}

/// `byte` is the position of the character with number `k`, or the end of the
/// text where `k` is its length.
pub open spec fn stands_before(s: Seq<char>, k: int, byte: int) -> bool {
    0 <= k <= s.len() && byte_offset(s, k) == byte
}

/// Some character, or the end of the text, stands at position `byte`.
pub open spec fn is_boundary(s: Seq<char>, byte: int) -> bool {
    exists|k: int| stands_before(s, k, byte)
}

/// Encoding one text after the other encodes both.
pub proof fn encode_utf8_append(a: Seq<char>, b: Seq<char>)
    ensures
        encode_utf8(a + b) == encode_utf8(a) + encode_utf8(b),
    decreases a.len(),
{
    if a.len() == 0 {
        assert(a + b =~= b);
        assert(encode_utf8(a) + encode_utf8(b) =~= encode_utf8(b));
    } else {
        assert((a + b).drop_first() =~= a.drop_first() + b);
        encode_utf8_append(a.drop_first(), b);
        assert(encode_utf8(a + b) =~= encode_utf8(a) + encode_utf8(b));
    }
}

/// The bytes up to `j` are those up to `i` and those of what lies between.
pub proof fn byte_offset_splits(s: Seq<char>, i: int, j: int)
    requires
        0 <= i <= j <= s.len(),
    ensures
        byte_offset(s, j) == byte_offset(s, i) + encode_utf8(s.subrange(i, j)).len(),
{
    assert(s.take(j) =~= s.take(i) + s.subrange(i, j));
    encode_utf8_append(s.take(i), s.subrange(i, j));
}

/// A text is at least as long in bytes as it is in characters.
proof fn lemma_encoded_length(s: Seq<char>)
    ensures
        s.len() <= encode_utf8(s).len(),
    decreases s.len(),
{
    if s.len() > 0 {
        lemma_encoded_length(s.drop_first());
    }
}

/// Later characters stand at higher positions.
pub proof fn byte_offset_increases(s: Seq<char>, i: int, j: int)
    requires
        0 <= i < j <= s.len(),
    ensures
        byte_offset(s, i) < byte_offset(s, j),
{
    byte_offset_splits(s, i, j);
    lemma_encoded_length(s.subrange(i, j));
}

/// The number of bytes that encode `c`.
fn encoded_width(c: char) -> (width: usize)
    ensures
        width == encode_scalar(c as u32).len(),
{
    let code: u32 = c as u32;
    if code <= 0x7f {
        1
    } else if code <= 0x7ff {
        2
    } else if code <= 0xffff {
        3
    } else {
        4
    }
}

/// The position of each character of `text`, and of its end.
pub fn byte_offsets(text: &str) -> (offsets: Vec<usize>)
    ensures
        offsets@.len() == text@.len() + 1,
        forall|k: int| 0 <= k <= text@.len() ==> #[trigger] offsets@[k] == byte_offset(text@, k),
{
    let total: usize = text.as_bytes().len();
    let chars = chars_of(text);
    let mut offsets: Vec<usize> = Vec::new();
    offsets.push(0);
    let mut at: usize = 0;
    let mut k: usize = 0;
    assert(text@.take(0) =~= seq![]);
    while k < chars.len()
        invariant
            chars@ == text@,
            total == encode_utf8(text@).len(),
            k <= chars@.len(),
            at == byte_offset(text@, k as int),
            offsets@.len() == k + 1,
            forall|i: int| 0 <= i <= k ==> #[trigger] offsets@[i] == byte_offset(text@, i),
        decreases chars@.len() - k,
    {
        proof {
            byte_offset_splits(text@, k as int, k + 1);
            let one = text@.subrange(k as int, k + 1);
            assert(one.drop_first() =~= seq![]);
            assert(encode_utf8(one.drop_first()).len() == 0);
            assert(encode_utf8(one).len() == encode_scalar(chars@[k as int] as u32).len());
            byte_offset_splits(text@, k + 1, text@.len() as int);
            assert(text@.take(text@.len() as int) =~= text@);
        }
        at = at + encoded_width(chars[k]);
        offsets.push(at);
        k = k + 1;
    }
    offsets
}

/// The number of the character at position `byte`, or the number of all
/// characters where `byte` is the end.
pub fn char_number(text: &str, offsets: &Vec<usize>, byte: usize) -> (number: usize)
    requires
        is_boundary(text@, byte as int),
        offsets@.len() == text@.len() + 1,
        forall|k: int| 0 <= k <= text@.len() ==> #[trigger] offsets@[k] == byte_offset(text@, k),
    ensures
        stands_before(text@, number as int, byte as int),
{
    let total: usize = offsets.len();
    let mut k: usize = 0;
    while offsets[k] != byte
        invariant
            is_boundary(text@, byte as int),
            total == offsets@.len(),
            offsets@.len() == text@.len() + 1,
            forall|i: int| 0 <= i <= text@.len() ==> #[trigger] offsets@[i] == byte_offset(text@, i),
            k < offsets@.len(),
            forall|i: int| 0 <= i < k ==> !stands_before(text@, i, byte as int),
        decreases offsets@.len() - k,
    {
        proof {
            let there = choose|i: int| stands_before(text@, i, byte as int);
            assert(offsets@[there] == byte);
            assert(!stands_before(text@, k as int, byte as int));
            assert(there > k);
        }
        k = k + 1;
    }
    k
}

/// Only one character stands at a position.
pub proof fn char_number_is_unique(s: Seq<char>, i: int, j: int, byte: int)
    requires
        stands_before(s, i, byte),
        stands_before(s, j, byte),
    ensures
        i == j,
{
    if i < j {
        byte_offset_increases(s, i, j);
    } else if j < i {
        byte_offset_increases(s, j, i);
    }
}

/// The position `chars_before` characters and one more before `byte_index`, or
/// the start of the text where there are not that many.
pub fn char_start_before(text: &str, byte_index: usize, chars_before: usize) -> (start: usize)
    requires
        is_boundary(text@, byte_index as int),
    ensures
        forall|k: int|
            #[trigger] stands_before(text@, k, byte_index as int) ==> stands_before(
                text@,
                if k > chars_before {
                    k - chars_before - 1
                } else {
                    0
                },
                start as int,
            ),
{
    let offsets = byte_offsets(text);
    let number = char_number(text, &offsets, byte_index);
    proof {
        assert forall|k: int| #[trigger]
            stands_before(text@, k, byte_index as int) implies k == number by {
            char_number_is_unique(text@, k, number as int, byte_index as int);
        }
    }
    if number > chars_before {
        offsets[number - chars_before - 1]
    } else {
        offsets[0]
    }
}

/// The position `chars_after` characters after `byte_index`, or the end of the
/// text where there are not that many.
pub fn char_end_after(text: &str, byte_index: usize, chars_after: usize) -> (end: usize)
    requires
        is_boundary(text@, byte_index as int),
    ensures
        forall|k: int|
            #[trigger] stands_before(text@, k, byte_index as int) ==> stands_before(
                text@,
                if k + chars_after < text@.len() {
                    k + chars_after
                } else {
                    text@.len() as int
                },
                end as int,
            ),
{
    let offsets = byte_offsets(text);
    let number = char_number(text, &offsets, byte_index);
    proof {
        assert forall|k: int| #[trigger]
            stands_before(text@, k, byte_index as int) implies k == number by {
            char_number_is_unique(text@, k, number as int, byte_index as int);
        }
    }
    let last: usize = offsets.len() - 1;
    if chars_after < last - number {
        offsets[number + chars_after]
    } else {
        offsets[last]
    }
}

/// The part of `text` between two positions.
pub fn text_between(text: &str, start: usize, end: usize) -> (part: String)
    requires
        is_boundary(text@, start as int),
        is_boundary(text@, end as int),
        start <= end,
    ensures
        forall|i: int, j: int|
            #![trigger stands_before(text@, i, start as int), stands_before(text@, j, end as int)]
            stands_before(text@, i, start as int) && stands_before(text@, j, end as int) ==> i <= j
                && part@ == text@.subrange(i, j),
{
    let chars = chars_of(text);
    let offsets = byte_offsets(text);
    let first = char_number(text, &offsets, start);
    let last = char_number(text, &offsets, end);
    proof {
        if last < first {
            byte_offset_increases(text@, last as int, first as int);
        }
        assert forall|i: int, j: int|
            #![trigger stands_before(text@, i, start as int), stands_before(text@, j, end as int)]
            stands_before(text@, i, start as int) && stands_before(text@, j, end as int) implies i
            == first && j == last by {
            char_number_is_unique(text@, i, first as int, start as int);
            char_number_is_unique(text@, j, last as int, end as int);
        }
    }
    string_of(&chars, first, last)
}

} // verus!
