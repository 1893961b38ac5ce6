//! What holds of words, trimmed and joined texts, and written numbers.
use vstd::prelude::*;

use crate::text::{
    all_digits, ascii_lower, ascii_lowercase, contains_text, decimal, decimal_value, digit,
    digit_value, first_occurrence, is_blank, is_digit, is_solid,
    is_white_space, join, lemma_decimal_digits, lemma_join_push, lemma_solid_prefix,
    lemma_solid_prefix_is, lemma_trim_end_shape, lemma_trim_start_shape, occurs_at, parse_i32,
    position, position_is_first, signed_decimal, solid_prefix, trim, trim_end, trim_start, words,
};

verus! {

// ---------------------------------------------------------------------------
// Characters and places
// ---------------------------------------------------------------------------

/// White space is what separates: the blank, the breaks of lines and pages, the
/// tabs, and the spaces of fixed width. Everything else is part of a word.
pub proof fn white_space_separates(c: char)
    ensures
        is_white_space(c) <==> seq![
            '\t',
            '\n',
            '\u{b}',
            '\u{c}',
            '\r',
            ' ',
            '\u{85}',
            '\u{a0}',
            '\u{1680}',
            '\u{2000}',
            '\u{2001}',
            '\u{2002}',
            '\u{2003}',
            '\u{2004}',
            '\u{2005}',
            '\u{2006}',
            '\u{2007}',
            '\u{2008}',
            '\u{2009}',
            '\u{200a}',
            '\u{2028}',
            '\u{2029}',
            '\u{202f}',
            '\u{205f}',
            '\u{3000}',
        ].contains(c),
{
    let all = seq![
        '\t',
        '\n',
        '\u{b}',
        '\u{c}',
        '\r',
        ' ',
        '\u{85}',
        '\u{a0}',
        '\u{1680}',
        '\u{2000}',
        '\u{2001}',
        '\u{2002}',
        '\u{2003}',
        '\u{2004}',
        '\u{2005}',
        '\u{2006}',
        '\u{2007}',
        '\u{2008}',
        '\u{2009}',
        '\u{200a}',
        '\u{2028}',
        '\u{2029}',
        '\u{202f}',
        '\u{205f}',
        '\u{3000}',
    ];
    if is_white_space(c) {
        let code = c as int;
        let at = if code <= 0xd {
            code - 9
        } else if code == 0x20 {
            5
        } else if code == 0x85 {
            6
        } else if code == 0xa0 {
            7
        } else if code == 0x1680 {
            8
        } else if code <= 0x200a {
            code - 0x2000 + 9
        } else if code == 0x2028 {
            20
        } else if code == 0x2029 {
            21
        } else if code == 0x202f {
            22
        } else if code == 0x205f {
            23
        } else {
            24
        };
        assert(all[at] == c);
    }
}

/// A text holds another exactly if it is that text with something, or nothing,
/// before it and behind it.
pub proof fn texts_hold_what_they_are_made_of(
    before: Seq<char>,
    needle: Seq<char>,
    after: Seq<char>,
    hay: Seq<char>,
)
    ensures
        contains_text(before + needle + after, needle),
        occurs_at(before + needle + after, needle, before.len() as int),
        contains_text(hay, needle) ==> exists|front: Seq<char>, back: Seq<char>|
            hay == #[trigger] (front + needle + back),
{
    let whole = before + needle + after;
    let at = before.len() as int;
    assert(whole.subrange(at, at + needle.len()) =~= needle);
    assert(occurs_at(whole, needle, at));
    if contains_text(hay, needle) {
        let at = choose|at: int| occurs_at(hay, needle, at);
        let front = hay.take(at);
        let back = hay.skip(at + needle.len());
        assert(hay.subrange(at, at + needle.len()) == needle);
        assert(hay =~= front + needle + back);
    }
}

/// Where a text is looked for, the first place is found: before the place that
/// is found there is none, and if none is found there is none at all.
pub proof fn the_first_place_is_found(hay: Seq<char>, needle: Seq<char>, other: int)
    requires
        0 <= other <= hay.len() - needle.len(),
        hay.subrange(other, other + needle.len()) == needle,
    ensures
        position(hay, needle) matches Some(at) && {
            &&& 0 <= at <= other
            &&& hay.subrange(at, at + needle.len()) == needle
            &&& first_occurrence(hay, needle, at)
        },
{
    assert(occurs_at(hay, needle, other));
    position_is_first(hay, needle);
}

/// Only a text that is there is found, and a text is found where it stands.
pub proof fn what_is_found_is_there(hay: Seq<char>, needle: Seq<char>)
    ensures
        position(hay, needle) matches Some(at) ==> 0 <= at <= hay.len() - needle.len()
            && hay.subrange(at, at + needle.len()) == needle,
        position(hay, needle) is Some <==> contains_text(hay, needle),
{
    if contains_text(hay, needle) {
        position_is_first(hay, needle);
    }
}

// ---------------------------------------------------------------------------
// Words
// ---------------------------------------------------------------------------

/// A text without white space is one word, and the empty text has none.
pub proof fn a_solid_text_is_one_word(s: Seq<char>)
    requires
        is_solid(s),
    ensures
        words(s) == if s.len() == 0 {
            seq![]
        } else {
            seq![s]
        },
{
    if s.len() > 0 {
        let n = s.len() as int;
        assert(s.take(n) =~= s);
        assert(!is_white_space(s[0]));
        lemma_solid_prefix_is(s, n);
        assert(s.skip(n) =~= seq![]);
        assert(words(s.skip(n)) =~= seq![]);
        assert(words(s) =~= seq![s]);
    } else {
        assert(words(s) =~= seq![]);
    }
}

/// White space parts words: wherever it stands, the words of a text are those
/// before it and then those behind it.
pub proof fn words_part_at_white_space(a: Seq<char>, space: char, b: Seq<char>)
    requires
        is_white_space(space),
    ensures
        words(a.push(space) + b) == words(a) + words(b),
    decreases a.len(),
{
    let s = a.push(space) + b;
    if a.len() == 0 {
        assert(s[0] == space);
        assert(s.drop_first() =~= b);
        assert(trim_start(s) == trim_start(b));
        assert(words(a) =~= seq![]);
        assert(words(a) + words(b) =~= words(b));
        assert(words(s) == words(b));
    } else if is_white_space(a[0]) {
        let rest = a.drop_first();
        words_part_at_white_space(rest, space, b);
        assert(s[0] == a[0]);
        assert(s.drop_first() =~= rest.push(space) + b);
        assert(words(s) == words(s.drop_first()));
        assert(words(a) == words(rest));
    } else {
        lemma_solid_prefix(a);
        let n = solid_prefix(a) as int;
        assert(s[0] == a[0]);
        assert(s.take(n) =~= a.take(n));
        assert(s[n] == if n < a.len() {
            a[n]
        } else {
            space
        });
        lemma_solid_prefix_is(s, n);
        words_part_at_white_space(a.skip(n), space, b);
        assert(s.skip(n) =~= a.skip(n).push(space) + b);
        assert(trim_start(s) == s && trim_start(a) == a);
        assert(words(s) =~= seq![a.take(n)] + words(s.skip(n)));
        assert(words(a) =~= seq![a.take(n)] + words(a.skip(n)));
        assert(words(s) =~= words(a) + words(b));
    }
}

/// A text has no words exactly if it is blank.
pub proof fn blank_texts_have_no_words(s: Seq<char>)
    ensures
        words(s).len() == 0 <==> is_blank(s),
{
    lemma_trim_start_shape(s);
    let n = s.len() - trim_start(s).len();
    if trim_start(s).len() == 0 {
        assert(s.take(n) =~= s);
        assert(words(s).len() == 0);
    } else {
        assert(s[n] == trim_start(s)[0]);
        assert(!is_blank(s));
        assert(words(s).len() > 0);
    }
}

/// Trimming takes white space off both ends and nothing else: what is left is a
/// part of the text with only white space around it, it neither starts nor ends
/// with white space, and it has the words of the text.
pub proof fn trimming_takes_white_space_off(s: Seq<char>)
    ensures
        exists|a: int, b: int|
            0 <= a <= b <= s.len() && #[trigger] s.subrange(a, b) == trim(s) && is_blank(s.take(a))
                && is_blank(s.skip(b)),
        trim(s).len() > 0 ==> !is_white_space(trim(s)[0]) && !is_white_space(trim(s).last()),
        words(trim(s)) == words(s),
        trim(s).len() == 0 <==> is_blank(s),
{
    lemma_trim_start_shape(s);
    let t = trim_start(s);
    lemma_trim_end_shape(t);
    let e = trim_end(t);
    let a = s.len() - t.len();
    let b = a + e.len();
    assert(s.subrange(a, b) =~= e);
    assert(s.skip(b) =~= t.skip(e.len() as int));
    assert(0 <= a <= b <= s.len() && s.subrange(a, b) == trim(s));
    if e.len() > 0 {
        assert(e[0] == t[0]);
    }
    lemma_trim_start_stays(s);
    assert(words(t) == words(s));
    lemma_trim_end_words(t);
    if is_blank(s) {
        if t.len() > 0 {
            assert(t[0] == s[a]);
        }
    } else if e.len() == 0 {
        assert forall|i: int| 0 <= i < s.len() implies is_white_space(#[trigger] s[i]) by {
            if i < a {
                assert(s.take(a)[i] == s[i]);
            } else {
                assert(s.skip(b)[i - b] == s[i]);
            }
        }
    }
}

proof fn lemma_trim_start_stays(s: Seq<char>)
    ensures
        trim_start(trim_start(s)) == trim_start(s),
{
    lemma_trim_start_shape(s);
}

proof fn lemma_trim_end_words(s: Seq<char>)
    ensures
        words(trim_end(s)) == words(s),
    decreases s.len(),
{
    if s.len() > 0 && is_white_space(s.last()) {
        let rest = s.drop_last();
        lemma_trim_end_words(rest);
        words_part_at_white_space(rest, s.last(), seq![]);
        assert(rest.push(s.last()) + seq![] =~= s);
        a_solid_text_is_one_word(seq![]);
        assert(words(rest) + words(seq![]) =~= words(rest));
    }
}

/// The words of texts, one text after the other.
pub open spec fn words_of_all(parts: Seq<Seq<char>>) -> Seq<Seq<char>>
    decreases parts.len(),
{
    if parts.len() == 0 {
        seq![]
    } else {
        words_of_all(parts.drop_last()) + words(parts.last())
    }
}

/// Texts that are joined with a space keep their words, in order.
pub proof fn joining_keeps_words(parts: Seq<Seq<char>>)
    ensures
        words(join(parts, seq![' '])) == words_of_all(parts),
    decreases parts.len(),
{
    if parts.len() == 0 {
        a_solid_text_is_one_word(seq![]);
        assert(join(parts, seq![' ']) =~= seq![]);
    } else {
        let rest = parts.drop_last();
        joining_keeps_words(rest);
        lemma_join_push(rest, seq![' '], parts.last());
        assert(rest.push(parts.last()) =~= parts);
        if rest.len() > 0 {
            let before = join(rest, seq![' ']);
            assert(before + seq![' '] + parts.last() =~= before.push(' ') + parts.last());
            words_part_at_white_space(before, ' ', parts.last());
        } else {
            assert(words_of_all(rest) =~= seq![]);
            assert(words_of_all(parts) =~= words(parts.last()));
        }
    }
}

// ---------------------------------------------------------------------------
// Joining
// ---------------------------------------------------------------------------

/// Joining goes part by part: one part is itself, and two lists of parts that
/// follow each other are joined with the separator between them.
pub proof fn joining_goes_part_by_part(
    a: Seq<Seq<char>>,
    b: Seq<Seq<char>>,
    separator: Seq<char>,
    part: Seq<char>,
)
    ensures
        join(seq![], separator) == Seq::<char>::empty(),
        join(seq![part], separator) == part,
        a.len() > 0 && b.len() > 0 ==> join(a + b, separator) == join(a, separator) + separator
            + join(b, separator),
    decreases b.len(),
{
    if a.len() > 0 && b.len() > 0 {
        let rest = b.drop_last();
        assert((a + rest).push(b.last()) =~= a + b);
        assert(rest.push(b.last()) =~= b);
        lemma_join_push(a + rest, separator, b.last());
        lemma_join_push(rest, separator, b.last());
        if rest.len() > 0 {
            joining_goes_part_by_part(a, rest, separator, part);
            assert(join(a, separator) + separator + join(rest, separator) + separator + b.last()
                =~= join(a, separator) + separator + join(b, separator));
        } else {
            assert(a + rest =~= a);
        }
    }
}

/// Every part stands in what is joined.
pub proof fn joined_parts_are_there(parts: Seq<Seq<char>>, separator: Seq<char>, i: int)
    requires
        0 <= i < parts.len(),
    ensures
        contains_text(join(parts, separator), parts[i]),
    decreases parts.len(),
{
    let rest = parts.drop_last();
    let all = join(parts, separator);
    let part = parts[i];
    assert(rest.push(parts.last()) =~= parts);
    lemma_join_push(rest, separator, parts.last());
    if i == rest.len() {
        let at = all.len() - part.len();
        assert(all.subrange(at, at + part.len()) =~= part);
        assert(occurs_at(all, part, at));
    } else {
        joined_parts_are_there(rest, separator, i);
        assert(rest[i] == part);
        let before = join(rest, separator);
        let at = choose|at: int| occurs_at(before, part, at);
        assert(all.subrange(at, at + part.len()) =~= before.subrange(at, at + part.len()));
        assert(occurs_at(all, part, at));
    }
}

// ---------------------------------------------------------------------------
// Case and numbers
// ---------------------------------------------------------------------------

/// Lower case changes the letters from `A` to `Z` and nothing else, one
/// character for one.
pub proof fn lower_case_changes_letters_alone(s: Seq<char>)
    ensures
        ascii_lowercase(s).len() == s.len(),
        forall|i: int|
            #![trigger ascii_lowercase(s)[i]]
            0 <= i < s.len() ==> if 'A' <= s[i] && s[i] <= 'Z' {
                ascii_lowercase(s)[i] as int == s[i] as int + 32
            } else {
                ascii_lowercase(s)[i] == s[i]
            },
{
    assert forall|i: int|
        #![trigger ascii_lowercase(s)[i]]
        0 <= i < s.len() && 'A' <= s[i] && s[i] <= 'Z' implies ascii_lowercase(s)[i] as int
        == s[i] as int + 32 by {
        assert(ascii_lowercase(s)[i] == ascii_lower(s[i]));
    }
}

/// A number that is written in decimal reads back as itself.
pub proof fn written_numbers_read_back(n: nat)
    ensures
        all_digits(decimal(n)),
        decimal_value(decimal(n)) == n,
        n >= 10 ==> decimal(n)[0] != '0',
    decreases n,
{
    lemma_decimal_digits(n);
    if n < 10 {
        assert(decimal(n).drop_last() =~= seq![]);
        assert(decimal_value(seq![]) == 0);
        assert(digit_value(digit(n)) == n);
    } else {
        written_numbers_read_back(n / 10);
        lemma_decimal_digits(n / 10);
        assert(decimal(n).drop_last() =~= decimal(n / 10));
        assert(digit_value(digit(n % 10)) == n % 10);
        assert(decimal(n)[0] == decimal(n / 10)[0]);
        if n / 10 < 10 {
            assert(digit(n / 10) != '0');
        }
    }
}

/// Every 32-bit number, written in decimal, parses as itself.
pub proof fn signed_numbers_read_back(value: i32)
    ensures
        parse_i32(signed_decimal(value as int)) == Some(value),
{
    let n = if value < 0 {
        (-value) as nat
    } else {
        value as nat
    };
    written_numbers_read_back(n);
    lemma_decimal_digits(n);
    let s = signed_decimal(value as int);
    if value < 0 {
        assert(s.drop_first() =~= decimal(n));
    } else {
        assert(is_digit(s[0]));
    }
}

/// Zeros in front and a plus sign change no number.
pub proof fn zeros_in_front_change_nothing(s: Seq<char>)
    requires
        s.len() > 0,
        all_digits(s),
    ensures
        parse_i32(seq!['0'] + s) == parse_i32(s),
        parse_i32(seq!['+'] + s) == parse_i32(s),
{
    assert(is_digit(s[0]));
    lemma_zero_in_front(s);
    let zeroed = seq!['0'] + s;
    let plus = seq!['+'] + s;
    assert(plus.drop_first() =~= s);
    assert forall|i: int| 0 <= i < zeroed.len() implies is_digit(#[trigger] zeroed[i]) by {
        if i > 0 {
            assert(zeroed[i] == s[i - 1]);
        }
    }
}

proof fn lemma_zero_in_front(s: Seq<char>)
    ensures
        decimal_value(seq!['0'] + s) == decimal_value(s),
    decreases s.len(),
{
    let zeroed = seq!['0'] + s;
    if s.len() == 0 {
        assert(zeroed.drop_last() =~= seq![]);
        assert(decimal_value(seq![]) == 0);
    } else {
        assert(zeroed.drop_last() =~= seq!['0'] + s.drop_last());
        lemma_zero_in_front(s.drop_last());
    }
}

/// What is no number does not parse: there has to be a digit, and nothing but
/// digits behind the sign.
pub proof fn only_numbers_parse(s: Seq<char>)
    requires
        parse_i32(s) is Some,
    ensures
        s.len() > 0,
        is_digit(s.last()),
        forall|i: int| 0 < i < s.len() ==> is_digit(#[trigger] s[i]),
        is_digit(s[0]) || s[0] == '-' || s[0] == '+',
{
    let signed = s.len() > 0 && (s[0] == '-' || s[0] == '+');
    let digits = if signed {
        s.drop_first()
    } else {
        s
    };
    assert(is_digit(digits[digits.len() - 1]));
    assert forall|i: int| 0 < i < s.len() implies is_digit(#[trigger] s[i]) by {
        if signed {
            assert(s[i] == digits[i - 1]);
        }
    }
    if !signed {
        assert(is_digit(digits[0]));
    }
}

} // verus!
