//! What holds of every preview.
use vstd::prelude::*;

use crate::preview::{
    MATCH_CONTEXT_AFTER_CHARS, MATCH_CONTEXT_BEFORE_CHARS, PREVIEW_MESSAGE_MAX_CHARS, excerpt,
    excerpt_end, excerpt_start, framed, normalized, truncated,
};
use crate::text::{
    contains_text, first_occurrence, is_blank, is_solid, is_white_space, join, lemma_solid_prefix,
    lemma_solid_prefix_is, lemma_trim_end_shape, lemma_trim_start_shape, occurs_at, position,
    position_is_first, solid_prefix, trim, trim_end, trim_start, words,
};
use crate::text_laws::trimming_takes_white_space_off;

verus! {

/// Every part is a word: not empty, and without white space.
pub open spec fn all_words(parts: Seq<Seq<char>>) -> bool {
    forall|i: int| 0 <= i < parts.len() ==> (#[trigger] parts[i]).len() > 0 && is_solid(parts[i])
}

/// Words are not empty and hold no white space.
pub proof fn words_are_words(s: Seq<char>)
    ensures
        all_words(words(s)),
    decreases s.len(),
{
    lemma_trim_start_shape(s);
    let rest = trim_start(s);
    if rest.len() > 0 {
        lemma_solid_prefix(rest);
        let n = solid_prefix(rest) as int;
        words_are_words(rest.skip(n));
        let tail = words(rest.skip(n));
        assert forall|i: int| 0 <= i < words(s).len() implies (#[trigger] words(s)[i]).len() > 0
            && is_solid(words(s)[i]) by {
            if i > 0 {
                assert(words(s)[i] == tail[i - 1]);
            }
        }
    }
}

/// Splitting what was joined with spaces gives the words back.
pub proof fn splitting_undoes_joining(parts: Seq<Seq<char>>)
    requires
        all_words(parts),
    ensures
        words(join(parts, seq![' '])) == parts,
    decreases parts.len(),
{
    let s = join(parts, seq![' ']);
    if parts.len() == 0 {
        assert(words(s) =~= parts);
    } else {
        let w = parts[0];
        let n = w.len() as int;
        let tail = parts.drop_first();
        assert forall|i: int| 0 <= i < tail.len() implies (#[trigger] tail[i]).len() > 0 && is_solid(
            tail[i],
        ) by {
            assert(tail[i] == parts[i + 1]);
        }
        splitting_undoes_joining(tail);
        assert(s[0] == w[0]);
        assert(s.take(n) =~= w);
        let rest = s.skip(n);
        if parts.len() == 1 {
            assert(tail =~= seq![]);
            lemma_solid_prefix_is(s, n);
            assert(rest =~= seq![]);
            assert(words(rest) =~= seq![]);
        } else {
            assert(s[n] == ' ');
            lemma_solid_prefix_is(s, n);
            assert(rest =~= seq![' '] + join(tail, seq![' ']));
            assert(rest.drop_first() =~= join(tail, seq![' ']));
            assert(trim_start(rest) == trim_start(rest.drop_first()));
            assert(words(rest) == words(rest.drop_first()));
        }
        assert(words(s) =~= seq![w] + words(rest));
        assert(parts =~= seq![w] + tail);
    }
}

/// Normalising keeps the words of a text.
pub proof fn normalizing_keeps_words(s: Seq<char>)
    ensures
        words(normalized(s)) == words(s),
{
    words_are_words(s);
    splitting_undoes_joining(words(s));
}

/// Normalising a second time changes nothing.
pub proof fn normalizing_is_idempotent(s: Seq<char>)
    ensures
        normalized(normalized(s)) == normalized(s),
{
    normalizing_keeps_words(s);
}

/// The only white space in `s` is single spaces between other characters.
pub open spec fn single_spaced(s: Seq<char>) -> bool {
    &&& s.len() > 0 ==> !is_white_space(s[0]) && !is_white_space(s.last())
    &&& forall|i: int|
        0 < i < s.len() - 1 && is_white_space(#[trigger] s[i]) ==> s[i] == ' ' && !is_white_space(
            s[i + 1],
        ) && !is_white_space(s[i - 1])
}

proof fn lemma_join_single_spaced(parts: Seq<Seq<char>>)
    requires
        all_words(parts),
    ensures
        single_spaced(join(parts, seq![' '])),
        parts.len() > 0 ==> join(parts, seq![' ']).len() > 0,
    decreases parts.len(),
{
    let s = join(parts, seq![' ']);
    if parts.len() > 0 {
        let w = parts[0];
        let n = w.len() as int;
        let tail = parts.drop_first();
        assert forall|i: int| 0 <= i < tail.len() implies (#[trigger] tail[i]).len() > 0 && is_solid(
            tail[i],
        ) by {
            assert(tail[i] == parts[i + 1]);
        }
        lemma_join_single_spaced(tail);
        let t = join(tail, seq![' ']);
        if parts.len() > 1 {
            assert(s == w + seq![' '] + t);
            assert(s.last() == t.last());
            assert forall|i: int| 0 < i < s.len() - 1 && is_white_space(#[trigger] s[i]) implies s[i]
                == ' ' && !is_white_space(s[i + 1]) && !is_white_space(s[i - 1]) by {
                if i < n {
                    assert(s[i] == w[i]);
                } else if i == n {
                    assert(s[i + 1] == t[0]);
                    assert(s[i - 1] == w[n - 1]);
                } else {
                    let k = i - n - 1;
                    assert(s[i] == t[k]);
                    if k > 0 {
                        assert(s[i + 1] == t[k + 1] && s[i - 1] == t[k - 1]);
                    }
                }
            }
        }
        assert(s[0] == w[0]);
    }
}

/// A normalised text holds single spaces between words and no other white
/// space.
pub proof fn normalized_is_single_spaced(s: Seq<char>)
    ensures
        single_spaced(normalized(s)),
{
    words_are_words(s);
    lemma_join_single_spaced(words(s));
}

/// A message preview is never longer than its limit and three dots, and a
/// short message is shown whole.
pub proof fn truncated_fits(s: Seq<char>)
    ensures
        truncated(s).len() <= PREVIEW_MESSAGE_MAX_CHARS + 3,
        normalized(s).len() <= PREVIEW_MESSAGE_MAX_CHARS ==> truncated(s) == normalized(s),
{
    reveal_strlit("...");
    lemma_trim_end_shape(normalized(s).take(PREVIEW_MESSAGE_MAX_CHARS as int));
}

/// Trimming a text keeps a match that lies between two characters, `first` and
/// `last`, that are not white space.
pub proof fn trimming_keeps_match(s: Seq<char>, term: Seq<char>, at: int, first: int, last: int)
    requires
        occurs_at(s, term, at),
        term.len() > 0,
        0 <= first <= at,
        at + term.len() - 1 <= last < s.len(),
        !is_white_space(s[first]),
        !is_white_space(s[last]),
    ensures
        contains_text(trim(s), term),
{
    let n = term.len() as int;
    lemma_trim_start_shape(s);
    let a = s.len() - trim_start(s).len();
    if a > first {
        assert(s.take(a)[first] == s[first]);
    }
    let t = trim_start(s);
    assert(t[last - a] == s[last]);
    lemma_trim_end_shape(t);
    let b = trim_end(t).len() as int;
    if b <= last - a {
        assert(t.skip(b)[last - a - b] == s[last]);
    }
    assert(trim(s).subrange(at - a, at - a + n) =~= s.subrange(at, at + n));
    assert(occurs_at(trim(s), term, at - a));
}

/// A search term gives an excerpt exactly where the normalised text holds it,
/// and the excerpt holds it too. The empty term, which every text holds, gives
/// one unless there is nothing to show.
pub proof fn excerpt_shows_term(s: Seq<char>, term: Seq<char>)
    ensures
        term.len() > 0 ==> (excerpt(s, term) is Some <==> contains_text(normalized(s), term)),
        term.len() == 0 ==> (excerpt(s, term) is Some <==> normalized(s).len() > 0),
        excerpt(s, term) is Some ==> contains_text(excerpt(s, term)->0, term),
{
    let normal = normalized(s);
    let n = term.len() as int;
    normalized_is_single_spaced(s);
    if n == 0 {
        assert(normal.subrange(0, 0) =~= term);
        assert(occurs_at(normal, term, 0));
    }
    if contains_text(normal, term) {
        position_is_first(normal, term);
        let at = position(normal, term)->0;
        let start = excerpt_start(at);
        let end = excerpt_end(at + n, normal.len() as int);
        let part = normal.subrange(start, end);
        let whole = framed(normal, start, end);
        if n == 0 {
            assert(at == 0) by {
                assert(!(0 < at));
            }
            if normal.len() > 0 {
                assert(part[0] == normal[0]);
                let one = seq![normal[0]];
                assert(part.subrange(0, 1) =~= one);
                trimming_keeps_match(part, one, 0, 0, 0);
                let k = choose|k: int| occurs_at(trim(part), one, k);
                assert(trim(part).len() > 0);
            } else {
                assert(part =~= seq![]);
                assert(trim(part) =~= seq![]);
            }
            assert(whole.subrange(0, 0) =~= term);
            assert(occurs_at(whole, term, 0));
        } else {
            assert(normal.subrange(at, at + n)[0] == normal[at]);
            assert(normal.subrange(at, at + n)[n - 1] == normal[at + n - 1]);
            // A space at either end of the match has a word beside it.
            let first = if is_white_space(normal[at]) {
                at - 1
            } else {
                at
            };
            let last = if is_white_space(normal[at + n - 1]) {
                at + n
            } else {
                at + n - 1
            };
            assert(!is_white_space(normal[first]) && !is_white_space(normal[last]));
            assert(part[first - start] == normal[first] && part[last - start] == normal[last]);
            assert(part.subrange(at - start, at - start + n) =~= normal.subrange(at, at + n));
            trimming_keeps_match(part, term, at - start, first - start, last - start);
            let inner = trim(part);
            let k = choose|k: int| occurs_at(inner, term, k);
            let before = if start > 0 {
                "... "@
            } else {
                seq![]
            };
            assert(whole.subrange(before.len() + k, before.len() + k + n) =~= inner.subrange(
                k,
                k + n,
            ));
            assert(occurs_at(whole, term, before.len() + k));
        }
    }
}

/// An excerpt shows at most its context on either side of the match and the
/// dots around it.
pub proof fn excerpt_fits(s: Seq<char>, term: Seq<char>)
    requires
        excerpt(s, term) is Some,
    ensures
        excerpt(s, term)->0.len() <= term.len() + MATCH_CONTEXT_BEFORE_CHARS + 1
            + MATCH_CONTEXT_AFTER_CHARS + 8,
{
    reveal_strlit("... ");
    reveal_strlit(" ...");
    let normal = normalized(s);
    let at = position(normal, term)->0;
    position_is_first(normal, term);
    let part = normal.subrange(
        excerpt_start(at),
        excerpt_end(at + term.len(), normal.len() as int),
    );
    lemma_trim_start_shape(part);
    lemma_trim_end_shape(trim_start(part));
}

/// A preview shows the front of a message. A message of up to 96 characters,
/// normalised, is shown whole. Of a longer one its first 96 characters are
/// shown, without the white space that they may end with, and three dots.
pub proof fn truncated_shows_the_front(s: Seq<char>)
    ensures
        normalized(s).len() <= 96 ==> truncated(s) == normalized(s),
        normalized(s).len() > 96 ==> {
            let shown = truncated(s).len() - 3;
            &&& 95 <= shown <= 96
            &&& truncated(s).take(shown) == normalized(s).take(shown)
            &&& truncated(s).skip(shown) == seq!['.', '.', '.']
            &&& shown == 95 <==> is_white_space(normalized(s)[95])
        },
{
    reveal_strlit("...");
    normalized_is_single_spaced(s);
    let normal = normalized(s);
    if normal.len() > 96 {
        let front = normal.take(96);
        lemma_trim_end_shape(front);
        let shown = trim_end(front).len() as int;
        assert("..."@ =~= seq!['.', '.', '.']);
        assert(front[95] == normal[95] && front[94] == normal[94]);
        if is_white_space(normal[95]) {
            assert(!is_white_space(normal[94]));
            assert(front.last() == normal[95]);
            if shown == 96 {
                assert(trim_end(front) =~= front);
            }
            if shown < 95 {
                assert(front.skip(shown)[94 - shown] == normal[94]);
            }
        } else if shown < 96 {
            assert(front.skip(shown)[95 - shown] == normal[95]);
        }
        assert(truncated(s).take(shown) =~= normal.take(shown));
        assert(truncated(s).skip(shown) =~= seq!['.', '.', '.']);
    }
}

/// Only the words of a text bear on its previews: how much white space stands
/// between them, and of which kind, makes no difference.
pub proof fn previews_go_by_words(a: Seq<char>, b: Seq<char>, term: Seq<char>)
    requires
        words(a) == words(b),
    ensures
        truncated(a) == truncated(b),
        excerpt(a, term) == excerpt(b, term),
{
}

/// Where the context of a match at `at` begins: at most 49 characters before
/// it.
pub open spec fn context_start(at: int) -> int {
    if at >= 49 {
        at - 49
    } else {
        0
    }
}

/// Where the context of a match that ends at `end` ends: at most 96 characters
/// behind it.
pub open spec fn context_end(end: int, len: int) -> int {
    if len - end > 96 {
        end + 96
    } else {
        len
    }
}

/// `shown` is the context of the match of `term` at `at`: all of it from `a` to
/// `b`, outside of which it holds only white space, between dots that stand for
/// what is left out of the text.
pub open spec fn shows_context(
    normal: Seq<char>,
    term: Seq<char>,
    at: int,
    a: int,
    b: int,
    shown: Seq<char>,
) -> bool {
    let start = context_start(at);
    let end = context_end(at + term.len(), normal.len() as int);
    let before = if start > 0 {
        seq!['.', '.', '.', ' ']
    } else {
        seq![]
    };
    let after = if end < normal.len() {
        seq![' ', '.', '.', '.']
    } else {
        seq![]
    };
    &&& start <= a < b <= end
    &&& is_blank(normal.subrange(start, a))
    &&& is_blank(normal.subrange(b, end))
    &&& !is_white_space(normal[a])
    &&& !is_white_space(normal[b - 1])
    &&& shown == before + normal.subrange(a, b) + after
}

/// An excerpt shows the first match with its context.
pub proof fn excerpt_shows_the_context(s: Seq<char>, term: Seq<char>)
    requires
        excerpt(s, term) is Some,
    ensures
        exists|at: int, a: int, b: int|
            first_occurrence(normalized(s), term, at) && #[trigger] shows_context(
                normalized(s),
                term,
                at,
                a,
                b,
                excerpt(s, term)->0,
            ),
{
    reveal_strlit("... ");
    reveal_strlit(" ...");
    assert("... "@ =~= seq!['.', '.', '.', ' ']);
    assert(" ..."@ =~= seq![' ', '.', '.', '.']);
    let normal = normalized(s);
    position_is_first(normal, term);
    let at = position(normal, term)->0;
    let start = context_start(at);
    let end = context_end(at + term.len(), normal.len() as int);
    assert(start == excerpt_start(at));
    assert(end == excerpt_end(at + term.len(), normal.len() as int));
    let part = normal.subrange(start, end);
    trimming_takes_white_space_off(part);
    let (x, y) = choose|x: int, y: int|
        0 <= x <= y <= part.len() && #[trigger] part.subrange(x, y) == trim(part) && is_blank(
            part.take(x),
        ) && is_blank(part.skip(y));
    let (a, b) = (start + x, start + y);
    assert(normal.subrange(a, b) =~= trim(part));
    assert(normal.subrange(start, a) =~= part.take(x));
    assert(normal.subrange(b, end) =~= part.skip(y));
    assert(trim(part)[0] == normal[a]);
    assert(trim(part).last() == normal[b - 1]);
    assert(excerpt(s, term)->0 == framed(normal, start, end));
    assert(shows_context(normal, term, at, a, b, excerpt(s, term)->0));
}

} // verus!
