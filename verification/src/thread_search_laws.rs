//! What holds of every listing of a thread search.
use vstd::prelude::*;

use crate::thread_item::{Cursor, SortDirection, ThreadItem, ThreadSortKey, item_cursor};
use crate::thread_search::{
    Candidate, SearchThreadsParams, ThreadSearchItem, ascending_order, beyond, candidate,
    candidate_order, candidate_order_flip, candidates, hits, next_token, page_items, sorted_from,
    stably_sorted,
};

verus! {

/// A sequence of `n` different numbers below `n` holds each of them.
proof fn lemma_full_range(from: Seq<int>, n: int, x: int)
    requires
        from.len() == n,
        from.no_duplicates(),
        forall|i: int| #![trigger from[i]] 0 <= i < n ==> 0 <= from[i] < n,
        0 <= x < n,
    ensures
        exists|i: int| 0 <= i < n && #[trigger] from[i] == x,
{
    from.unique_seq_to_set();
    vstd::set_lib::lemma_int_range(0, n);
    let range = vstd::set_lib::set_int_range(0, n);
    assert forall|y: int| from.to_set().contains(y) implies range.contains(y) by {
        let i = choose|i: int| 0 <= i < n && from[i] == y;
        assert(0 <= from[i] < n);
    }
    vstd::set_lib::lemma_subset_equality(from.to_set(), range);
    assert(range.contains(x));
    assert(from.contains(x));
}

/// Two stable sorts of the same candidates agree on the first `n` places.
proof fn lemma_sorts_agree(
    direction: SortDirection,
    input: Seq<Candidate>,
    a: Seq<Candidate>,
    b: Seq<Candidate>,
    from_a: Seq<int>,
    from_b: Seq<int>,
    n: int,
)
    requires
        sorted_from(direction, input, a, from_a),
        sorted_from(direction, input, b, from_b),
        0 <= n <= input.len(),
    ensures
        forall|i: int| 0 <= i < n ==> from_a[i] == from_b[i],
    decreases n,
{
    if n > 0 {
        lemma_sorts_agree(direction, input, a, b, from_a, from_b, n - 1);
        let (x, y) = (from_a[n - 1], from_b[n - 1]);
        if x != y {
            lemma_full_range(from_b, input.len() as int, x);
            lemma_full_range(from_a, input.len() as int, y);
            let j = choose|i: int| 0 <= i < input.len() && #[trigger] from_b[i] == x;
            let k = choose|i: int| 0 <= i < input.len() && #[trigger] from_a[i] == y;
            if j < n - 1 {
                assert(from_a[j] == x);
            }
            if k < n - 1 {
                assert(from_b[k] == y);
            }
            assert(a[n - 1] == input[x] && a[k] == input[y]);
            assert(b[n - 1] == input[y] && b[j] == input[x]);
            candidate_order_flip(direction, input[x], input[y]);
        }
    }
}

/// A listing leaves nothing open: there is only one way to sort candidates
/// stably.
pub proof fn stable_sort_is_unique(
    direction: SortDirection,
    input: Seq<Candidate>,
    a: Seq<Candidate>,
    b: Seq<Candidate>,
)
    requires
        stably_sorted(direction, input, a),
        stably_sorted(direction, input, b),
    ensures
        a == b,
{
    let from_a = choose|from: Seq<int>| sorted_from(direction, input, a, from);
    let from_b = choose|from: Seq<int>| sorted_from(direction, input, b, from);
    lemma_sorts_agree(direction, input, a, b, from_a, from_b, input.len() as int);
    assert forall|i: int| 0 <= i < a.len() implies a[i] == b[i] by {
        assert(from_a[i] == from_b[i]);
    }
    assert(a =~= b);
}

/// Sorting keeps every candidate: what is listed is what was selected.
pub proof fn sorting_keeps_candidates(
    direction: SortDirection,
    input: Seq<Candidate>,
    sorted: Seq<Candidate>,
    x: Candidate,
)
    requires
        stably_sorted(direction, input, sorted),
    ensures
        input.contains(x) <==> sorted.contains(x),
        input.len() == sorted.len(),
{
    let from = choose|from: Seq<int>| sorted_from(direction, input, sorted, from);
    if sorted.contains(x) {
        let i = choose|i: int| 0 <= i < sorted.len() && sorted[i] == x;
        assert(input[from[i]] == x);
    }
    if input.contains(x) {
        let k = choose|k: int| 0 <= k < input.len() && input[k] == x;
        lemma_full_range(from, input.len() as int, k);
        let i = choose|i: int| 0 <= i < input.len() && #[trigger] from[i] == k;
        assert(sorted[i] == x);
    }
}

/// Every candidate is one in its own right.
pub proof fn candidates_qualify(
    params: SearchThreadsParams,
    cursor: Option<Cursor>,
    items: Seq<Option<ThreadItem>>,
)
    ensures
        forall|i: int|
            #![trigger candidates(params, cursor, items)[i]]
            0 <= i < candidates(params, cursor, items).len() ==> candidate(
                params,
                cursor,
                Some(candidates(params, cursor, items)[i].item),
            ) == Some(candidates(params, cursor, items)[i]),
    decreases items.len(),
{
    if items.len() > 0 {
        candidates_qualify(params, cursor, items.drop_last());
        let before = candidates(params, cursor, items.drop_last());
        let all = candidates(params, cursor, items);
        assert forall|i: int| #![trigger all[i]] 0 <= i < all.len() implies candidate(
            params,
            cursor,
            Some(all[i].item),
        ) == Some(all[i]) by {
            if i < before.len() {
                assert(all[i] == before[i]);
            }
        }
    }
}

/// The positions of the candidates that answered with a snippet.
pub open spec fn hit_positions(answers: Seq<Option<String>>) -> Seq<int>
    decreases answers.len(),
{
    if answers.len() == 0 {
        seq![]
    } else if answers.last() is Some {
        hit_positions(answers.drop_last()).push(answers.len() - 1)
    } else {
        hit_positions(answers.drop_last())
    }
}

/// Matches stand in the order of the candidates.
pub proof fn hits_keep_order(candidates: Seq<Candidate>, answers: Seq<Option<String>>)
    ensures
        hits(candidates, answers).len() == hit_positions(answers).len(),
        forall|i: int|
            #![trigger hits(candidates, answers)[i]]
            #![trigger hit_positions(answers)[i]]
            0 <= i < hit_positions(answers).len() ==> {
                &&& 0 <= hit_positions(answers)[i] < answers.len()
                &&& hits(candidates, answers)[i].item == candidates[hit_positions(answers)[i]].item
                &&& answers[hit_positions(answers)[i]] == Some(hits(candidates, answers)[i].snippet)
            },
        forall|i: int, j: int|
            #![trigger hit_positions(answers)[i], hit_positions(answers)[j]]
            0 <= i < j < hit_positions(answers).len() ==> hit_positions(answers)[i] < hit_positions(
                answers,
            )[j],
    decreases answers.len(),
{
    if answers.len() > 0 {
        hits_keep_order(candidates, answers.drop_last());
        let before = hit_positions(answers.drop_last());
        let all = hit_positions(answers);
        assert forall|i: int| #![trigger all[i]] 0 <= i < all.len() implies {
            &&& 0 <= all[i] < answers.len()
            &&& hits(candidates, answers)[i].item == candidates[all[i]].item
            &&& answers[all[i]] == Some(hits(candidates, answers)[i].snippet)
        } by {
            if i < before.len() {
                assert(all[i] == before[i]);
            }
        }
        assert forall|i: int, j: int| #![trigger all[i], all[j]] 0 <= i < j < all.len() implies all[i] < all[j] by {
            assert(all[i] == before[i]);
            if j < before.len() {
                assert(all[j] == before[j]);
            }
        }
    }
}

/// More answers only add matches at the end.
proof fn lemma_hits_extend(candidates: Seq<Candidate>, full: Seq<Option<String>>, n: int)
    requires
        0 <= n <= full.len(),
    ensures
        hits(candidates, full.take(n)).len() <= hits(candidates, full).len(),
        hits(candidates, full.take(n)) == hits(candidates, full).take(
            hits(candidates, full.take(n)).len() as int,
        ),
    decreases full.len() - n,
{
    let part = hits(candidates, full.take(n));
    if n == full.len() {
        assert(full.take(n) =~= full);
        assert(part.take(part.len() as int) =~= part);
    } else {
        lemma_hits_extend(candidates, full.drop_last(), n);
        assert(full.drop_last().take(n) =~= full.take(n));
        let before = hits(candidates, full.drop_last());
        assert(hits(candidates, full).take(part.len() as int) =~= before.take(part.len() as int));
    }
}

/// Stopping once a page is complete loses nothing: reading every candidate
/// gives the same page and the same place for the next one.
pub proof fn reading_on_changes_no_page(
    candidates: Seq<Candidate>,
    answers: Seq<Option<String>>,
    full: Seq<Option<String>>,
    page_size: nat,
    sort_key: ThreadSortKey,
)
    requires
        full.len() == candidates.len(),
        answers.len() <= full.len(),
        full.take(answers.len() as int) == answers,
        answers.len() == candidates.len() || hits(candidates, answers).len() > page_size,
    ensures
        page_items(hits(candidates, full), page_size) == page_items(
            hits(candidates, answers),
            page_size,
        ),
        next_token(hits(candidates, full), page_size, sort_key) == next_token(
            hits(candidates, answers),
            page_size,
            sort_key,
        ),
{
    lemma_hits_extend(candidates, full, answers.len() as int);
    if answers.len() == candidates.len() {
        assert(full.take(full.len() as int) =~= full);
    } else {
        let part = hits(candidates, answers);
        let all = hits(candidates, full);
        if page_size > 0 {
            assert(all.take(part.len() as int)[page_size - 1] == all[page_size - 1]);
        }
        assert(page_items(all, page_size) =~= page_items(part, page_size));
    }
}

/// A page holds at most as many items as were asked for, and all matches
/// where they fit.
pub proof fn page_fits(matches: Seq<ThreadSearchItem>, page_size: nat)
    ensures
        page_items(matches, page_size).len() <= page_size,
        matches.len() <= page_size ==> page_items(matches, page_size) == matches,
{
}

/// The instant by which `item` is sorted.
pub open spec fn sort_instant(item: ThreadItem, sort_key: ThreadSortKey) -> int {
    item_cursor(item, sort_key)->0.timestamp as int
}

/// Pages do not overlap. Let a page end with some item, and let the next page
/// continue from the cursor of that item: everything on the page lies at or
/// before that cursor, and every candidate of the next page lies strictly
/// behind it.
pub proof fn pages_do_not_overlap(
    params: SearchThreadsParams,
    cursor: Option<Cursor>,
    items: Seq<Option<ThreadItem>>,
    sorted: Seq<Candidate>,
    answers: Seq<Option<String>>,
    later_items: Seq<Option<ThreadItem>>,
)
    requires
        stably_sorted(params.sort_direction, candidates(params, cursor, items), sorted),
        answers.len() <= sorted.len(),
        0 < params.page_size < hits(sorted, answers).len(),
    ensures
        ({
            let page = page_items(hits(sorted, answers), params.page_size as nat);
            let end = item_cursor(page.last().item, params.sort_key);
            &&& end is Some
            &&& forall|i: int|
                #![trigger page[i]]
                0 <= i < page.len() ==> !beyond(
                    params.sort_direction,
                    sort_instant(page[i].item, params.sort_key),
                    end->0.timestamp as int,
                )
            &&& forall|i: int|
                #![trigger candidates(params, end, later_items)[i]]
                0 <= i < candidates(params, end, later_items).len() ==> beyond(
                    params.sort_direction,
                    sort_instant(candidates(params, end, later_items)[i].item, params.sort_key),
                    end->0.timestamp as int,
                )
        }),
{
    let matches = hits(sorted, answers);
    let page = page_items(matches, params.page_size as nat);
    lemma_hits_are_sorted(params, cursor, items, sorted, answers);
    let n = params.page_size - 1;
    assert(page[n] == matches[n]);
    let end = item_cursor(page.last().item, params.sort_key);
    assert forall|i: int| #![trigger page[i]] 0 <= i < page.len() implies !beyond(
        params.sort_direction,
        sort_instant(page[i].item, params.sort_key),
        end->0.timestamp as int,
    ) by {
        assert(page[i] == matches[i]);
    }
    candidates_qualify(params, end, later_items);
}

/// No match is lost between pages, except one that shares its instant with the
/// end of a page: any other match that is left over is a candidate again when
/// the listing continues from there.
pub proof fn next_page_continues(
    params: SearchThreadsParams,
    cursor: Option<Cursor>,
    items: Seq<Option<ThreadItem>>,
    sorted: Seq<Candidate>,
    answers: Seq<Option<String>>,
    i: int,
)
    requires
        stably_sorted(params.sort_direction, candidates(params, cursor, items), sorted),
        answers.len() <= sorted.len(),
        0 < params.page_size <= i < hits(sorted, answers).len(),
        sort_instant(hits(sorted, answers)[i].item, params.sort_key) != sort_instant(
            hits(sorted, answers)[params.page_size - 1].item,
            params.sort_key,
        ),
    ensures
        ({
            let matches = hits(sorted, answers);
            let end = item_cursor(matches[params.page_size - 1].item, params.sort_key);
            candidate(params, end, Some(matches[i].item)) is Some
        }),
{
    lemma_hits_are_sorted(params, cursor, items, sorted, answers);
}

/// Matches are sorted by instant, and each of them is a candidate.
pub(crate) proof fn lemma_hits_are_sorted(
    params: SearchThreadsParams,
    cursor: Option<Cursor>,
    items: Seq<Option<ThreadItem>>,
    sorted: Seq<Candidate>,
    answers: Seq<Option<String>>,
)
    requires
        stably_sorted(params.sort_direction, candidates(params, cursor, items), sorted),
        answers.len() <= sorted.len(),
    ensures
        forall|i: int|
            #![trigger hits(sorted, answers)[i]]
            0 <= i < hits(sorted, answers).len() ==> candidate(
                params,
                cursor,
                Some(hits(sorted, answers)[i].item),
            ) is Some,
        forall|i: int, j: int|
            #![trigger hits(sorted, answers)[i], hits(sorted, answers)[j]]
            0 <= i <= j < hits(sorted, answers).len() ==> !beyond(
                params.sort_direction,
                sort_instant(hits(sorted, answers)[i].item, params.sort_key),
                sort_instant(hits(sorted, answers)[j].item, params.sort_key),
            ),
{
    let input = candidates(params, cursor, items);
    let matches = hits(sorted, answers);
    let at = hit_positions(answers);
    let from = choose|from: Seq<int>| sorted_from(params.sort_direction, input, sorted, from);
    candidates_qualify(params, cursor, items);
    hits_keep_order(sorted, answers);
    assert forall|i: int| #![trigger matches[i]] 0 <= i < matches.len() implies candidate(
        params,
        cursor,
        Some(matches[i].item),
    ) == Some(sorted[at[i]]) by {
        assert(sorted[at[i]] == input[from[at[i]]]);
    }
    assert forall|i: int, j: int| #![trigger matches[i], matches[j]] 0 <= i <= j < matches.len() implies !beyond(
        params.sort_direction,
        sort_instant(matches[i].item, params.sort_key),
        sort_instant(matches[j].item, params.sort_key),
    ) by {
        reveal(ascending_order);
        if i < j {
            assert(at[i] < at[j]);
            assert(candidate_order(params.sort_direction, sorted[at[i]], sorted[at[j]]) !is Greater);
        }
    }
}

} // verus!
