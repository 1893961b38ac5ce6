//! Character-level text operations: white space, trimming, words, substring
//! search, ASCII case, and decimal numbers.
//!
//! The model of a text is its sequence of Unicode scalar values.
use vstd::prelude::*;

verus! {

/// `String::push` appends the given character to the end of the string.
pub assume_specification[ String::push ](text: &mut String, c: char)
    ensures
        final(text)@ == old(text)@.push(c),
;

// ---------------------------------------------------------------------------
// Conversions
// ---------------------------------------------------------------------------

/// The characters of `text`, in order.
pub fn chars_of(text: &str) -> (chars: Vec<char>)
    ensures
        chars@ == text@,
{
    let mut chars: Vec<char> = Vec::new();
    for c in it: text.chars()
        invariant
            chars@ == it.seq().take(it.index() as int),
            it.seq() == text@,
    {
        chars.push(c);
    }
    chars
}

/// The string made of the characters `chars[start..end]`.
pub fn string_of(chars: &Vec<char>, start: usize, end: usize) -> (text: String)
    requires
        start <= end <= chars@.len(),
    ensures
        text@ == chars@.subrange(start as int, end as int),
{
    let mut text = String::new();
    let mut i: usize = start;
    while i < end
        invariant
            start <= i <= end <= chars@.len(),
            text@ == chars@.subrange(start as int, i as int),
        decreases end - i,
    {
        text.push(chars[i]);
        i = i + 1;
    }
    text
}

/// Appends `chars[start..end]` to `out`.
pub fn push_range(out: &mut Vec<char>, chars: &Vec<char>, start: usize, end: usize)
    requires
        start <= end <= chars@.len(),
    ensures
        final(out)@ == old(out)@ + chars@.subrange(start as int, end as int),
{
    let ghost before = out@;
    let mut i: usize = start;
    while i < end
        invariant
            start <= i <= end <= chars@.len(),
            out@ == before + chars@.subrange(start as int, i as int),
        decreases end - i,
    {
        out.push(chars[i]);
        i = i + 1;
    }
}

// ---------------------------------------------------------------------------
// White space and trimming
// ---------------------------------------------------------------------------

/// The code points with the Unicode property `White_Space`.
pub open spec fn is_white_space_code(code: u32) -> bool {
    ||| 0x9 <= code <= 0xd
    ||| code == 0x20
    ||| code == 0x85
    ||| code == 0xa0
    ||| code == 0x1680
    ||| 0x2000 <= code <= 0x200a
    ||| code == 0x2028
    ||| code == 0x2029
    ||| code == 0x202f
    ||| code == 0x205f
    ||| code == 0x3000
}

/// `c` is white space in the sense of Unicode.
pub open spec fn is_white_space(c: char) -> bool {
    is_white_space_code(c as u32)
}

/// Tests whether `c` is white space.
pub fn white_space(c: char) -> (found: bool)
    ensures
        found == is_white_space(c),
{
    let code: u32 = c as u32;
    (0x9 <= code && code <= 0xd) || code == 0x20 || code == 0x85 || code == 0xa0 || code == 0x1680
        || (0x2000 <= code && code <= 0x200a) || code == 0x2028 || code == 0x2029 || code == 0x202f
        || code == 0x205f || code == 0x3000
}

/// `s` holds no white space at all.
pub open spec fn is_solid(s: Seq<char>) -> bool {
    forall|i: int| 0 <= i < s.len() ==> !is_white_space(#[trigger] s[i])
}

/// `s` holds nothing but white space.
pub open spec fn is_blank(s: Seq<char>) -> bool {
    forall|i: int| 0 <= i < s.len() ==> is_white_space(#[trigger] s[i])
}

/// `s` without its leading white space.
pub open spec fn trim_start(s: Seq<char>) -> Seq<char>
    decreases s.len(),
{
    if s.len() > 0 && is_white_space(s[0]) {
        trim_start(s.drop_first())
    } else {
        s
    }
}

/// `s` without its trailing white space.
pub open spec fn trim_end(s: Seq<char>) -> Seq<char>
    decreases s.len(),
{
    if s.len() > 0 && is_white_space(s.last()) {
        trim_end(s.drop_last())
    } else {
        s
    }
}

/// `s` without its leading and trailing white space.
pub open spec fn trim(s: Seq<char>) -> Seq<char> {
    trim_end(trim_start(s))
}

/// Stripping white space that stands at the front does not change what
/// [`trim_start`] leaves.
pub proof fn lemma_trim_start_skip(s: Seq<char>, n: int)
    requires
        0 <= n <= s.len(),
        is_blank(s.take(n)),
    ensures
        trim_start(s) == trim_start(s.skip(n)),
    decreases n,
{
    if n == 0 {
        assert(s.skip(0) =~= s);
    } else {
        assert(s.take(n)[0] == s[0]);
        let rest = s.drop_first();
        assert forall|i: int| 0 <= i < n - 1 implies is_white_space(#[trigger] rest.take(n - 1)[i]) by {
            assert(s.take(n)[i + 1] == rest[i]);
        }
        lemma_trim_start_skip(rest, n - 1);
        assert(rest.skip(n - 1) =~= s.skip(n));
    }
}

/// Stripping white space that stands at the end does not change what
/// [`trim_end`] leaves.
pub proof fn lemma_trim_end_take(s: Seq<char>, n: int)
    requires
        0 <= n <= s.len(),
        is_blank(s.skip(n)),
    ensures
        trim_end(s) == trim_end(s.take(n)),
    decreases s.len() - n,
{
    if n == s.len() {
        assert(s.take(n) =~= s);
    } else {
        assert(s.skip(n)[s.len() - n - 1] == s.last());
        let rest = s.drop_last();
        assert forall|i: int| 0 <= i < rest.skip(n).len() implies is_white_space(
            #[trigger] rest.skip(n)[i],
        ) by {
            assert(s.skip(n)[i] == rest[n + i]);
        }
        lemma_trim_end_take(rest, n);
        assert(rest.take(n) =~= s.take(n));
    }
}

/// The bounds of `chars` once leading and trailing white space is stripped.
pub fn trim_bounds(chars: &Vec<char>, start: usize, end: usize) -> (bounds: (usize, usize))
    requires
        start <= end <= chars@.len(),
    ensures
        start <= bounds.0 <= bounds.1 <= end,
        chars@.subrange(bounds.0 as int, bounds.1 as int) == trim(
            chars@.subrange(start as int, end as int),
        ),
{
    let ghost whole = chars@.subrange(start as int, end as int);
    let mut first: usize = start;
    while first < end && white_space(chars[first])
        invariant
            start <= first <= end <= chars@.len(),
            whole == chars@.subrange(start as int, end as int),
            is_blank(whole.take(first - start)),
        decreases end - first,
    {
        proof {
            let n = first - start;
            assert(whole.take(n + 1) =~= whole.take(n).push(whole[n]));
        }
        first = first + 1;
    }
    proof {
        lemma_trim_start_skip(whole, first - start);
        assert(whole.skip(first - start) =~= chars@.subrange(first as int, end as int));
    }
    let last = trim_end_bound(chars, first, end);
    (first, last)
}

/// The end of `chars[start..end]` once trailing white space is stripped.
pub fn trim_end_bound(chars: &Vec<char>, start: usize, end: usize) -> (bound: usize)
    requires
        start <= end <= chars@.len(),
    ensures
        start <= bound <= end,
        chars@.subrange(start as int, bound as int) == trim_end(
            chars@.subrange(start as int, end as int),
        ),
{
    let ghost whole = chars@.subrange(start as int, end as int);
    let mut last: usize = end;
    while last > start && white_space(chars[last - 1])
        invariant
            start <= last <= end <= chars@.len(),
            whole == chars@.subrange(start as int, end as int),
            is_blank(whole.skip(last - start)),
        decreases last - start,
    {
        proof {
            let n = last - start;
            assert(whole.skip(n - 1) =~= seq![whole[n - 1]] + whole.skip(n));
        }
        last = last - 1;
    }
    proof {
        lemma_trim_end_take(whole, last - start);
        assert(whole.take(last - start) =~= chars@.subrange(start as int, last as int));
    }
    last
}

/// `text` without its leading and trailing white space.
pub fn trimmed(text: &str) -> (result: String)
    ensures
        result@ == trim(text@),
{
    let chars = chars_of(text);
    let bounds = trim_bounds(&chars, 0, chars.len());
    assert(chars@.subrange(0, chars@.len() as int) =~= text@);
    string_of(&chars, bounds.0, bounds.1)
}

// ---------------------------------------------------------------------------
// Substrings
// ---------------------------------------------------------------------------

/// `needle` stands in `hay` at position `at`.
pub open spec fn occurs_at(hay: Seq<char>, needle: Seq<char>, at: int) -> bool {
    &&& 0 <= at
    &&& at + needle.len() <= hay.len()
    &&& hay.subrange(at, at + needle.len()) == needle
}

/// `needle` stands somewhere in `hay`.
pub open spec fn contains_text(hay: Seq<char>, needle: Seq<char>) -> bool {
    exists|at: int| occurs_at(hay, needle, at)
}

/// `at` is the first position at which `needle` stands in `hay`.
pub open spec fn first_occurrence(hay: Seq<char>, needle: Seq<char>, at: int) -> bool {
    &&& occurs_at(hay, needle, at)
    &&& forall|earlier: int| earlier < at ==> !occurs_at(hay, needle, earlier)
}

/// The first position at which `needle` stands in `hay`, if there is one.
pub open spec fn position(hay: Seq<char>, needle: Seq<char>) -> Option<int> {
    if contains_text(hay, needle) {
        Some(choose|at: int| first_occurrence(hay, needle, at))
    } else {
        None
    }
}

/// There is only one first position.
pub proof fn first_occurrence_is_position(hay: Seq<char>, needle: Seq<char>, at: int)
    requires
        first_occurrence(hay, needle, at),
    ensures
        position(hay, needle) == Some(at),
{
    let other = choose|other: int| first_occurrence(hay, needle, other);
    assert(first_occurrence(hay, needle, other));
    assert(!(at < other) && !(other < at));
}

/// A text that stands somewhere stands somewhere first.
pub proof fn position_is_first(hay: Seq<char>, needle: Seq<char>)
    requires
        contains_text(hay, needle),
    ensures
        position(hay, needle) is Some,
        first_occurrence(hay, needle, position(hay, needle)->0),
{
    let at = choose|at: int| occurs_at(hay, needle, at);
    lemma_first_up_to(hay, needle, at);
}

proof fn lemma_first_up_to(hay: Seq<char>, needle: Seq<char>, at: int)
    requires
        occurs_at(hay, needle, at),
    ensures
        exists|first: int| first_occurrence(hay, needle, first),
    decreases at,
{
    if exists|earlier: int| earlier < at && occurs_at(hay, needle, earlier) {
        let earlier = choose|earlier: int| earlier < at && occurs_at(hay, needle, earlier);
        lemma_first_up_to(hay, needle, earlier);
    } else {
        assert(first_occurrence(hay, needle, at));
    }
}

/// Tests whether `needle` stands in `hay` at position `at`.
fn stands_at(hay: &Vec<char>, needle: &Vec<char>, at: usize) -> (found: bool)
    requires
        at + needle@.len() <= hay@.len(),
    ensures
        found == occurs_at(hay@, needle@, at as int),
{
    let total: usize = hay.len();
    let mut i: usize = 0;
    while i < needle.len()
        invariant
            total == hay@.len(),
            at + needle@.len() <= total,
            i <= needle@.len(),
            forall|j: int| 0 <= j < i ==> hay@[at + j] == #[trigger] needle@[j],
        decreases needle@.len() - i,
    {
        if hay[at + i] != needle[i] {
            assert(hay@.subrange(at as int, at + needle@.len())[i as int] == hay@[at + i]);
            return false;
        }
        i = i + 1;
    }
    assert(hay@.subrange(at as int, at + needle@.len()) =~= needle@);
    true
}

/// The first position at which `needle` stands in `hay`.
pub fn find_chars(hay: &Vec<char>, needle: &Vec<char>) -> (at: Option<usize>)
    ensures
        match at {
            Some(at) => first_occurrence(hay@, needle@, at as int) && position(hay@, needle@) == Some(
                at as int,
            ),
            None => position(hay@, needle@) is None && !contains_text(hay@, needle@),
        },
{
    if needle.len() > hay.len() {
        return None;
    }
    let last: usize = hay.len() - needle.len();
    let mut at: usize = 0;
    loop
        invariant
            last == hay@.len() - needle@.len(),
            at <= last,
            forall|earlier: int| earlier < at ==> !occurs_at(hay@, needle@, earlier),
        decreases last - at,
    {
        if stands_at(hay, needle, at) {
            proof {
                first_occurrence_is_position(hay@, needle@, at as int);
            }
            return Some(at);
        }
        if at == last {
            return None;
        }
        at = at + 1;
    }
}

/// Tests whether `needle` stands somewhere in `hay`.
pub fn has_text(hay: &Vec<char>, needle: &str) -> (found: bool)
    ensures
        found == contains_text(hay@, needle@),
{
    let needle = chars_of(needle);
    find_chars(hay, &needle).is_some()
}

// ---------------------------------------------------------------------------
// Words
// ---------------------------------------------------------------------------

/// The length of the longest prefix of `s` without white space.
pub open spec fn solid_prefix(s: Seq<char>) -> nat
    decreases s.len(),
{
    if s.len() > 0 && !is_white_space(s[0]) {
        1 + solid_prefix(s.drop_first())
    } else {
        0
    }
}

/// The words of `s`: its maximal runs of characters that are not white space.
pub open spec fn words(s: Seq<char>) -> Seq<Seq<char>>
    decreases s.len(),
    via words_decreases
{
    let rest = trim_start(s);
    if rest.len() == 0 {
        seq![]
    } else {
        let n = solid_prefix(rest) as int;
        seq![rest.take(n)] + words(rest.skip(n))
    }
}

#[via_fn]
proof fn words_decreases(s: Seq<char>) {
    lemma_trim_start_shape(s);
    let rest = trim_start(s);
    if rest.len() != 0 {
        lemma_solid_prefix(rest);
    }
}

/// What [`trim_start`] leaves is a suffix that does not start with white
/// space.
pub proof fn lemma_trim_start_shape(s: Seq<char>)
    ensures
        trim_start(s).len() <= s.len(),
        trim_start(s) == s.skip(s.len() - trim_start(s).len()),
        is_blank(s.take(s.len() - trim_start(s).len())),
        trim_start(s).len() > 0 ==> !is_white_space(trim_start(s)[0]),
    decreases s.len(),
{
    if s.len() > 0 && is_white_space(s[0]) {
        let rest = s.drop_first();
        lemma_trim_start_shape(rest);
        let n = rest.len() - trim_start(rest).len();
        assert(s.skip(n + 1) =~= rest.skip(n));
        assert forall|i: int| 0 <= i < n + 1 implies is_white_space(#[trigger] s.take(n + 1)[i]) by {
            if i > 0 {
                assert(rest.take(n)[i - 1] == s[i]);
            }
        }
    } else {
        assert(s.skip(0) =~= s);
    }
}

/// What [`trim_end`] leaves is a prefix that does not end with white space.
pub proof fn lemma_trim_end_shape(s: Seq<char>)
    ensures
        trim_end(s).len() <= s.len(),
        trim_end(s) == s.take(trim_end(s).len() as int),
        is_blank(s.skip(trim_end(s).len() as int)),
        trim_end(s).len() > 0 ==> !is_white_space(trim_end(s).last()),
    decreases s.len(),
{
    if s.len() > 0 && is_white_space(s.last()) {
        let rest = s.drop_last();
        lemma_trim_end_shape(rest);
        let n = trim_end(rest).len() as int;
        assert(s.take(n) =~= rest.take(n));
        assert forall|i: int| 0 <= i < s.len() - n implies is_white_space(#[trigger] s.skip(n)[i]) by {
            if i < rest.len() - n {
                assert(rest.skip(n)[i] == s[n + i]);
            }
        }
    } else {
        assert(s.take(s.len() as int) =~= s);
    }
}

/// [`solid_prefix`] ends at the first white space or at the end.
pub proof fn lemma_solid_prefix(s: Seq<char>)
    ensures
        solid_prefix(s) <= s.len(),
        is_solid(s.take(solid_prefix(s) as int)),
        solid_prefix(s) < s.len() ==> is_white_space(s[solid_prefix(s) as int]),
        s.len() > 0 && !is_white_space(s[0]) ==> solid_prefix(s) > 0,
    decreases s.len(),
{
    if s.len() > 0 && !is_white_space(s[0]) {
        let rest = s.drop_first();
        lemma_solid_prefix(rest);
        let n = solid_prefix(rest) as int;
        assert forall|i: int| 0 <= i < n + 1 implies !is_white_space(#[trigger] s.take(n + 1)[i]) by {
            if i > 0 {
                assert(rest.take(n)[i - 1] == s[i]);
            }
        }
    }
}

/// The longest prefix without white space is the one that is solid and is
/// followed by white space or by nothing.
pub proof fn lemma_solid_prefix_is(s: Seq<char>, n: int)
    requires
        0 <= n <= s.len(),
        is_solid(s.take(n)),
        n < s.len() ==> is_white_space(s[n]),
    ensures
        solid_prefix(s) == n,
    decreases n,
{
    if n > 0 {
        assert(s.take(n)[0] == s[0]);
        let rest = s.drop_first();
        assert forall|i: int| 0 <= i < n - 1 implies !is_white_space(#[trigger] rest.take(n - 1)[i]) by {
            assert(s.take(n)[i + 1] == rest[i]);
        }
        lemma_solid_prefix_is(rest, n - 1);
    }
}

/// `parts` joined with `separator` between neighbours.
pub open spec fn join(parts: Seq<Seq<char>>, separator: Seq<char>) -> Seq<char>
    decreases parts.len(),
{
    if parts.len() == 0 {
        seq![]
    } else if parts.len() == 1 {
        parts[0]
    } else {
        parts[0] + separator + join(parts.drop_first(), separator)
    }
}

/// Joining with one more part at the end.
pub proof fn lemma_join_push(parts: Seq<Seq<char>>, separator: Seq<char>, part: Seq<char>)
    ensures
        join(parts.push(part), separator) == if parts.len() == 0 {
            part
        } else {
            join(parts, separator) + separator + part
        },
    decreases parts.len(),
{
    let more = parts.push(part);
    if parts.len() == 0 {
    } else if parts.len() == 1 {
        assert(more.drop_first() =~= seq![part]);
        assert(join(seq![part], separator) == part);
    } else {
        assert(more.drop_first() =~= parts.drop_first().push(part));
        lemma_join_push(parts.drop_first(), separator, part);
        assert(join(more, separator) =~= join(parts, separator) + separator + part);
    }
}

/// The texts of a vector of strings.
pub open spec fn texts(parts: Seq<String>) -> Seq<Seq<char>> {
    parts.map_values(|part: String| part@)
}

/// `parts` joined with `separator` between neighbours.
pub fn join_strings(parts: &Vec<String>, separator: &str) -> (joined: String)
    ensures
        joined@ == join(texts(parts@), separator@),
{
    let mut joined = String::new();
    let mut i: usize = 0;
    while i < parts.len()
        invariant
            i <= parts@.len(),
            joined@ == join(texts(parts@).take(i as int), separator@),
        decreases parts@.len() - i,
    {
        proof {
            let all = texts(parts@);
            assert(all.take(i + 1) =~= all.take(i as int).push(all[i as int]));
            lemma_join_push(all.take(i as int), separator@, all[i as int]);
        }
        if i > 0 {
            joined.append(separator);
        } else {
            assert(joined@ + parts@[0]@ =~= parts@[0]@);
        }
        joined.append(parts[i].as_str());
        i = i + 1;
    }
    assert(texts(parts@).take(parts@.len() as int) =~= texts(parts@));
    joined
}

// ---------------------------------------------------------------------------
// ASCII case
// ---------------------------------------------------------------------------

/// `c` in lower case if it is an ASCII letter, else `c` itself.
pub open spec fn ascii_lower(c: char) -> char {
    if 'A' <= c && c <= 'Z' {
        ((c as u32 + 32) as u32) as char
    } else {
        c
    }
}

/// `s` with its ASCII letters in lower case.
pub open spec fn ascii_lowercase(s: Seq<char>) -> Seq<char> {
    s.map_values(|c: char| ascii_lower(c))
}

/// The characters of `text` with ASCII letters in lower case.
pub fn lowercase_chars(text: &str) -> (lower: Vec<char>)
    ensures
        lower@ == ascii_lowercase(text@),
{
    let chars = chars_of(text);
    let mut lower: Vec<char> = Vec::new();
    let mut i: usize = 0;
    while i < chars.len()
        invariant
            i <= chars@.len(),
            lower@ == ascii_lowercase(chars@.take(i as int)),
        decreases chars@.len() - i,
    {
        let c = chars[i];
        assert(chars@.take(i + 1) =~= chars@.take(i as int).push(c));
        if 'A' <= c && c <= 'Z' {
            lower.push((c as u8 + 32) as char);
        } else {
            lower.push(c);
        }
        assert(lower@ =~= ascii_lowercase(chars@.take(i + 1)));
        i = i + 1;
    }
    assert(chars@.take(chars@.len() as int) =~= chars@);
    lower
}

// ---------------------------------------------------------------------------
// Decimal numbers
// ---------------------------------------------------------------------------

/// The decimal digit of value `d`.
pub open spec fn digit(d: nat) -> char {
    ((48 + d) as u8) as char
}

/// `n` written in decimal, without leading zeros.
pub open spec fn decimal(n: nat) -> Seq<char>
    decreases n,
{
    if n < 10 {
        seq![digit(n)]
    } else {
        decimal(n / 10).push(digit(n % 10))
    }
}

/// `value` written in decimal.
pub fn decimal_string(value: u64) -> (text: String)
    ensures
        text@ == decimal(value as nat),
    decreases value,
{
    let mut text = if value < 10 {
        String::new()
    } else {
        decimal_string(value / 10)
    };
    let ghost before = text@;
    let last: u8 = (value % 10) as u8;
    text.push((48 + last) as char);
    assert(value < 10 ==> text@ =~= seq![digit(value as nat)]);
    text
}

/// `value` written in decimal, with a minus sign where it is negative.
pub open spec fn signed_decimal(value: int) -> Seq<char> {
    if value < 0 {
        seq!['-'] + decimal((-value) as nat)
    } else {
        decimal(value as nat)
    }
}

/// `value` written in decimal, with a minus sign where it is negative.
pub fn signed_decimal_string(value: i32) -> (text: String)
    ensures
        text@ == signed_decimal(value as int),
{
    let wide: i64 = value as i64;
    if wide < 0 {
        let mut text = String::new();
        text.push('-');
        text.append(decimal_string((-wide) as u64).as_str());
        text
    } else {
        decimal_string(wide as u64)
    }
}

/// Different numbers are written differently.
pub proof fn decimal_is_injective(a: nat, b: nat)
    requires
        decimal(a) == decimal(b),
    ensures
        a == b,
    decreases a,
{
    lemma_decimal_digits(a);
    lemma_decimal_digits(b);
    assert(decimal(a).last() == digit(a % 10));
    assert(decimal(b).last() == digit(b % 10));
    if a >= 10 {
        lemma_decimal_digits(a / 10);
    }
    if b >= 10 {
        lemma_decimal_digits(b / 10);
    }
    if a >= 10 && b >= 10 {
        assert(decimal(a).drop_last() =~= decimal(a / 10));
        assert(decimal(b).drop_last() =~= decimal(b / 10));
        decimal_is_injective(a / 10, b / 10);
    }
}

/// A decimal number consists of digits.
pub proof fn lemma_decimal_digits(n: nat)
    ensures
        all_digits(decimal(n)),
        decimal(n).len() > 0,
    decreases n,
{
    if n >= 10 {
        lemma_decimal_digits(n / 10);
    }
}

/// `c` is a decimal digit.
pub open spec fn is_digit(c: char) -> bool {
    '0' <= c && c <= '9'
}

/// The value of a decimal digit.
pub open spec fn digit_value(c: char) -> nat {
    (c as u32 - 48) as nat
}

/// `s` consists of decimal digits alone.
pub open spec fn all_digits(s: Seq<char>) -> bool {
    forall|i: int| 0 <= i < s.len() ==> is_digit(#[trigger] s[i])
}

/// The number that the digits `s` write in decimal.
pub open spec fn decimal_value(s: Seq<char>) -> nat
    decreases s.len(),
{
    if s.len() == 0 {
        0
    } else {
        10 * decimal_value(s.drop_last()) + digit_value(s.last())
    }
}

/// The 32-bit signed integer that `s` writes: an optional sign and at least
/// one decimal digit, nothing else, with a value in range.
pub open spec fn parse_i32(s: Seq<char>) -> Option<i32> {
    let signed = s.len() > 0 && (s[0] == '-' || s[0] == '+');
    let digits = if signed {
        s.drop_first()
    } else {
        s
    };
    let magnitude = decimal_value(digits) as int;
    let value = if signed && s[0] == '-' {
        -magnitude
    } else {
        magnitude
    };
    if digits.len() > 0 && all_digits(digits) && i32::MIN <= value <= i32::MAX {
        Some(value as i32)
    } else {
        None
    }
}

/// What the digits of `chars` from `start` on write, or 2^32 if that is less;
/// nothing if there is something else than a digit.
fn bounded_decimal(chars: &Vec<char>, start: usize) -> (value: Option<i64>)
    requires
        start <= chars@.len(),
    ensures
        match value {
            Some(value) => {
                &&& all_digits(chars@.skip(start as int))
                &&& value == if decimal_value(chars@.skip(start as int)) < 0x1_0000_0000 {
                    decimal_value(chars@.skip(start as int)) as int
                } else {
                    0x1_0000_0000
                }
            },
            None => !all_digits(chars@.skip(start as int)),
        },
{
    let ghost digits = chars@.skip(start as int);
    let mut magnitude: i64 = 0;
    let mut i: usize = start;
    while i < chars.len()
        invariant
            start <= i <= chars@.len(),
            digits == chars@.skip(start as int),
            all_digits(digits.take(i - start)),
            0 <= magnitude <= 0x1_0000_0000,
            magnitude < 0x1_0000_0000 ==> magnitude == decimal_value(digits.take(i - start)),
            magnitude == 0x1_0000_0000 ==> decimal_value(digits.take(i - start)) >= 0x1_0000_0000,
        decreases chars@.len() - i,
    {
        let c = chars[i];
        let ghost n = i - start;
        assert(digits[n] == c);
        if c < '0' || c > '9' {
            assert(!is_digit(digits[n]));
            return None;
        }
        assert(digits.take(n + 1) =~= digits.take(n).push(c));
        assert(digits.take(n + 1).drop_last() =~= digits.take(n));
        let next: i64 = magnitude * 10 + (c as i64 - 48);
        magnitude = if next > 0x1_0000_0000 {
            0x1_0000_0000
        } else {
            next
        };
        i = i + 1;
    }
    assert(digits.take(digits.len() as int) =~= digits);
    Some(magnitude)
}

/// The 32-bit signed integer that `text` writes, if it writes one.
pub fn parsed_i32(text: &str) -> (value: Option<i32>)
    ensures
        value == parse_i32(text@),
{
    let chars = chars_of(text);
    let negative = chars.len() > 0 && chars[0] == '-';
    let signed = negative || (chars.len() > 0 && chars[0] == '+');
    let start: usize = if signed {
        1
    } else {
        0
    };
    assert(chars@.skip(start as int) == if signed {
        text@.drop_first()
    } else {
        text@
    });
    if start == chars.len() {
        return None;
    }
    match bounded_decimal(&chars, start) {
        Some(magnitude) => {
            let value: i64 = if negative {
                -magnitude
            } else {
                magnitude
            };
            if -0x8000_0000 <= value && value <= 0x7fff_ffff {
                Some(value as i32)
            } else {
                None
            }
        },
        None => None,
    }
}

} // verus!
