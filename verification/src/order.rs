//! Lexicographic order, as the library sorts paths and table names by it.
use vstd::prelude::*;

use crate::text::chars_of;

verus! {

/// The outcome of comparing two values.
#[derive(Clone, Copy, PartialEq, Eq, Structural, Debug)]
pub enum Rank {
    Less,
    Equal,
    Greater,
}

/// The outcome with the two values exchanged.
pub open spec fn flip(rank: Rank) -> Rank {
    match rank {
        Rank::Less => Rank::Greater,
        Rank::Equal => Rank::Equal,
        Rank::Greater => Rank::Less,
    }
}

/// Lexicographic order of two sequences of numbers; a proper prefix comes
/// first.
pub open spec fn lex_order(a: Seq<int>, b: Seq<int>) -> Rank
    decreases a.len(),
{
    if a.len() == 0 {
        if b.len() == 0 {
            Rank::Equal
        } else {
            Rank::Less
        }
    } else if b.len() == 0 {
        Rank::Greater
    } else if a[0] < b[0] {
        Rank::Less
    } else if b[0] < a[0] {
        Rank::Greater
    } else {
        lex_order(a.drop_first(), b.drop_first())
    }
}

/// Only a sequence itself ranks equal to it.
pub proof fn lex_order_equal(a: Seq<int>, b: Seq<int>)
    ensures
        lex_order(a, b) is Equal <==> a == b,
    decreases a.len(),
{
    if a.len() > 0 && b.len() > 0 && a[0] == b[0] {
        lex_order_equal(a.drop_first(), b.drop_first());
        if a.drop_first() == b.drop_first() {
            assert(a =~= seq![a[0]] + a.drop_first());
            assert(b =~= seq![b[0]] + b.drop_first());
        }
    } else if a.len() == 0 && b.len() == 0 {
        assert(a =~= b);
    }
}

/// Exchanging the two sequences flips the outcome.
pub proof fn lex_order_flip(a: Seq<int>, b: Seq<int>)
    ensures
        lex_order(b, a) == flip(lex_order(a, b)),
    decreases a.len(),
{
    if a.len() > 0 && b.len() > 0 && a[0] == b[0] {
        lex_order_flip(a.drop_first(), b.drop_first());
    }
}

/// The order is transitive.
pub proof fn lex_order_transitive(a: Seq<int>, b: Seq<int>, c: Seq<int>)
    requires
        lex_order(a, b) is Less,
        lex_order(b, c) is Less,
    ensures
        lex_order(a, c) is Less,
    decreases a.len(),
{
    if a.len() > 0 && b.len() > 0 && c.len() > 0 && a[0] == b[0] && b[0] == c[0] {
        lex_order_transitive(a.drop_first(), b.drop_first(), c.drop_first());
    }
}

/// The code points of a text.
pub open spec fn char_codes(s: Seq<char>) -> Seq<int> {
    s.map_values(|c: char| c as int)
}

/// The values of a sequence of bytes.
pub open spec fn byte_codes(s: Seq<u8>) -> Seq<int> {
    s.map_values(|b: u8| b as int)
}

/// The values of a sequence of small numbers.
pub open spec fn number_codes(s: Seq<i16>) -> Seq<int> {
    s.map_values(|n: i16| n as int)
}

/// The order of two texts: by code point, which is also the order of their
/// UTF-8 bytes.
pub open spec fn text_order(a: Seq<char>, b: Seq<char>) -> Rank {
    lex_order(char_codes(a), char_codes(b))
}

/// Equal code points mean equal texts.
pub proof fn lemma_char_codes_injective(a: Seq<char>, b: Seq<char>)
    requires
        char_codes(a) == char_codes(b),
    ensures
        a == b,
{
    assert(a.len() == char_codes(a).len());
    assert(b.len() == char_codes(b).len());
    assert forall|i: int| 0 <= i < a.len() implies a[i] == b[i] by {
        assert(char_codes(a)[i] == a[i] as int);
        assert(char_codes(b)[i] == b[i] as int);
    }
    assert(a =~= b);
}

/// What stands at the first difference decides, and where the one is the front
/// of the other, the shorter one comes first.
pub proof fn first_difference_decides(a: Seq<int>, b: Seq<int>, n: int)
    requires
        0 <= n <= a.len(),
        0 <= n <= b.len(),
        a.take(n) == b.take(n),
    ensures
        n < a.len() && n < b.len() && a[n] < b[n] ==> lex_order(a, b) is Less,
        n < a.len() && n < b.len() && a[n] > b[n] ==> lex_order(a, b) is Greater,
        n == a.len() && n < b.len() ==> lex_order(a, b) is Less,
        n < a.len() && n == b.len() ==> lex_order(a, b) is Greater,
        n == a.len() && n == b.len() ==> lex_order(a, b) is Equal,
    decreases n,
{
    if n > 0 {
        assert(a[0] == a.take(n)[0] && b[0] == b.take(n)[0]);
        let x = a.drop_first();
        let y = b.drop_first();
        assert(x.take(n - 1) =~= a.take(n).drop_first());
        assert(y.take(n - 1) =~= b.take(n).drop_first());
        first_difference_decides(x, y, n - 1);
        assert(lex_order(a, b) == lex_order(x, y));
        assert(n < a.len() ==> x[n - 1] == a[n]);
        assert(n < b.len() ==> y[n - 1] == b[n]);
    }
}

/// Texts are ordered by their first different character, and a text comes
/// behind its own front.
pub proof fn texts_are_ordered_by_characters(
    front: Seq<char>,
    a: char,
    b: char,
    rest: Seq<char>,
    other: Seq<char>,
)
    ensures
        a < b ==> text_order(front.push(a) + rest, front.push(b) + other) is Less,
        a > b ==> text_order(front.push(a) + rest, front.push(b) + other) is Greater,
        text_order(front, front.push(a) + rest) is Less,
        text_order(front.push(a) + rest, front) is Greater,
        text_order(front, front) is Equal,
{
    let n = front.len() as int;
    let x = char_codes(front.push(a) + rest);
    let y = char_codes(front.push(b) + other);
    let z = char_codes(front);
    assert(x.take(n) =~= z);
    assert(y.take(n) =~= z);
    assert(z.take(n) =~= z);
    assert(x[n] == a as int && y[n] == b as int);
    first_difference_decides(x, y, n);
    first_difference_decides(z, x, n);
    first_difference_decides(x, z, n);
    first_difference_decides(z, z, n);
}

/// Compares two texts.
pub fn compare_texts(a: &str, b: &str) -> (rank: Rank)
    ensures
        rank == text_order(a@, b@),
{
    let left = chars_of(a);
    let right = chars_of(b);
    let ghost x = char_codes(a@);
    let ghost y = char_codes(b@);
    let mut i: usize = 0;
    assert(x.skip(0) =~= x && y.skip(0) =~= y);
    while i < left.len() && i < right.len()
        invariant
            left@ == a@,
            right@ == b@,
            x == char_codes(a@),
            y == char_codes(b@),
            i <= left@.len(),
            i <= right@.len(),
            text_order(a@, b@) == lex_order(x.skip(i as int), y.skip(i as int)),
        decreases left@.len() - i,
    {
        assert(x.skip(i as int)[0] == left@[i as int] as int);
        assert(y.skip(i as int)[0] == right@[i as int] as int);
        if left[i] < right[i] {
            return Rank::Less;
        }
        if right[i] < left[i] {
            return Rank::Greater;
        }
        assert(x.skip(i as int).drop_first() =~= x.skip(i + 1));
        assert(y.skip(i as int).drop_first() =~= y.skip(i + 1));
        i = i + 1;
    }
    if i < right.len() {
        Rank::Less
    } else if i < left.len() {
        Rank::Greater
    } else {
        Rank::Equal
    }
}

/// Compares two sequences of numbers.
pub fn compare_numbers(a: &Vec<i16>, b: &Vec<i16>) -> (rank: Rank)
    ensures
        rank == lex_order(number_codes(a@), number_codes(b@)),
{
    let ghost x = number_codes(a@);
    let ghost y = number_codes(b@);
    let mut i: usize = 0;
    assert(x.skip(0) =~= x && y.skip(0) =~= y);
    while i < a.len() && i < b.len()
        invariant
            x == number_codes(a@),
            y == number_codes(b@),
            i <= a@.len(),
            i <= b@.len(),
            lex_order(x, y) == lex_order(x.skip(i as int), y.skip(i as int)),
        decreases a@.len() - i,
    {
        assert(x.skip(i as int)[0] == a@[i as int] as int);
        assert(y.skip(i as int)[0] == b@[i as int] as int);
        if a[i] < b[i] {
            return Rank::Less;
        }
        if b[i] < a[i] {
            return Rank::Greater;
        }
        assert(x.skip(i as int).drop_first() =~= x.skip(i + 1));
        assert(y.skip(i as int).drop_first() =~= y.skip(i + 1));
        i = i + 1;
    }
    if i < b.len() {
        Rank::Less
    } else if i < a.len() {
        Rank::Greater
    } else {
        Rank::Equal
    }
}

} // verus!
