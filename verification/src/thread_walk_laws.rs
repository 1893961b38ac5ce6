//! What holds of reading a listing page by page.
use vstd::arithmetic::div_mod::lemma_fundamental_div_mod_converse;
use vstd::prelude::*;

use crate::thread_item::{Cursor, SortDirection, ThreadItem};
use crate::thread_search::{
    Candidate, SearchThreadsParams, ThreadSearchItem, ascending_order, beyond, candidate,
    candidate_order, candidates, cursor_token, hits,
    lemma_insert_keeps_sorted, next_token,
    page_items, sorted_from, stably_sorted,
};
use crate::thread_search_laws::{
    candidates_qualify, hit_positions, hits_keep_order, lemma_hits_are_sorted,
    reading_on_changes_no_page, sort_instant, stable_sort_is_unique,
};

verus! {

// ---------------------------------------------------------------------------
// A walk through the pages
// ---------------------------------------------------------------------------

/// One call of a search: where it continued from, the candidates in the order
/// of the listing, and what reading the first of them gave.
pub struct PageCall {
    pub cursor: Option<Cursor>,
    pub sorted: Seq<Candidate>,
    pub answers: Seq<Option<String>>,
}

/// What reading every one of `sorted` gives, where reading the rollout of a
/// thread gives what `reads` says.
pub open spec fn all_answers(
    sorted: Seq<Candidate>,
    reads: spec_fn(ThreadItem) -> Option<String>,
) -> Seq<Option<String>> {
    Seq::new(sorted.len(), |i: int| reads(sorted[i].item))
}

/// All matches among `sorted`.
pub open spec fn all_hits(
    sorted: Seq<Candidate>,
    reads: spec_fn(ThreadItem) -> Option<String>,
) -> Seq<ThreadSearchItem> {
    hits(sorted, all_answers(sorted, reads))
}

/// `call` is a call on these threads: its candidates are those behind its
/// cursor, sorted, and it read until its page was complete.
pub open spec fn is_call(
    params: SearchThreadsParams,
    items: Seq<Option<ThreadItem>>,
    reads: spec_fn(ThreadItem) -> Option<String>,
    call: PageCall,
) -> bool {
    &&& stably_sorted(params.sort_direction, candidates(params, call.cursor, items), call.sorted)
    &&& call.answers.len() <= call.sorted.len()
    &&& call.answers == all_answers(call.sorted, reads).take(call.answers.len() as int)
    &&& call.answers.len() == call.sorted.len() || hits(call.sorted, call.answers).len()
        > params.page_size
}

/// The items of the page that `call` gives.
pub open spec fn call_page(params: SearchThreadsParams, call: PageCall) -> Seq<ThreadSearchItem> {
    page_items(hits(call.sorted, call.answers), params.page_size as nat)
}

/// The token that `call` gives for the next page.
pub open spec fn call_token(params: SearchThreadsParams, call: PageCall) -> Option<Seq<char>> {
    next_token(hits(call.sorted, call.answers), params.page_size as nat, params.sort_key)
}

/// `next` continues where the page of `call` ended: `call` gave a token, and
/// what that token means is the instant of the last item of the page.
pub open spec fn continues(params: SearchThreadsParams, call: PageCall, next: PageCall) -> bool {
    &&& call_token(params, call) is Some
    &&& next.cursor is Some
    &&& next.cursor->0.timestamp == sort_instant(
        call_page(params, call).last().item,
        params.sort_key,
    )
}

/// `calls` start at the front, and each of them continues where the page of
/// the one before ended.
pub open spec fn calls_follow(
    params: SearchThreadsParams,
    items: Seq<Option<ThreadItem>>,
    reads: spec_fn(ThreadItem) -> Option<String>,
    calls: Seq<PageCall>,
) -> bool {
    &&& calls.len() > 0
    &&& calls[0].cursor is None
    &&& forall|k: int|
        0 <= k < calls.len() ==> is_call(params, items, reads, #[trigger] calls[k])
    &&& forall|j: int, k: int|
        0 <= j && j + 1 == k && k < calls.len() ==> #[trigger] continues(params, calls[j], calls[k])
}

/// `calls` read a listing page by page, until there is no token.
pub open spec fn is_walk(
    params: SearchThreadsParams,
    items: Seq<Option<ThreadItem>>,
    reads: spec_fn(ThreadItem) -> Option<String>,
    calls: Seq<PageCall>,
) -> bool {
    &&& calls_follow(params, items, reads, calls)
    &&& call_token(params, calls.last()) is None
}

/// The pages of `calls`, put together.
pub open spec fn pages_together(
    params: SearchThreadsParams,
    calls: Seq<PageCall>,
) -> Seq<ThreadSearchItem>
    decreases calls.len(),
{
    if calls.len() == 0 {
        seq![]
    } else {
        pages_together(params, calls.drop_last()) + call_page(params, calls.last())
    }
}

/// How many pages of `page_size` items it takes to list `total` of them: one
/// where there is nothing to list.
pub open spec fn page_count(total: nat, page_size: nat) -> int {
    if total == 0 {
        1
    } else {
        (total + page_size - 1) / page_size as int
    }
}

/// No two of `matches` are of one instant, and each has a token.
pub open spec fn is_tellable(
    params: SearchThreadsParams,
    matches: Seq<ThreadSearchItem>,
) -> bool {
    &&& forall|i: int, j: int|
        #![trigger matches[i], matches[j]]
        0 <= i < j < matches.len() ==> sort_instant(matches[i].item, params.sort_key)
            != sort_instant(matches[j].item, params.sort_key)
    &&& forall|i: int|
        0 <= i < matches.len() ==> cursor_token(
            (#[trigger] matches[i]).item,
            params.sort_key,
        ) is Some
}

// ---------------------------------------------------------------------------
// Continuing a listing
// ---------------------------------------------------------------------------

/// `next` can be put at `place` among what is sorted: everything from there on
/// comes after it, and nothing before does.
spec fn is_place(
    direction: SortDirection,
    before: Seq<Candidate>,
    next: Candidate,
    place: int,
) -> bool {
    &&& 0 <= place <= before.len()
    &&& forall|j: int|
        place <= j < before.len() ==> candidate_order(direction, #[trigger] before[j], next)
            is Greater
    &&& place > 0 ==> candidate_order(direction, before[place - 1], next) !is Greater
}

/// There is a place at which `next` can be put.
proof fn lemma_insert_place(
    direction: SortDirection,
    before: Seq<Candidate>,
    next: Candidate,
    at: int,
) -> (place: int)
    requires
        0 <= at <= before.len(),
        forall|j: int|
            at <= j < before.len() ==> candidate_order(direction, #[trigger] before[j], next)
                is Greater,
    ensures
        is_place(direction, before, next, place),
    decreases at,
{
    if at > 0 && candidate_order(direction, before[at - 1], next) is Greater {
        lemma_insert_place(direction, before, next, at - 1)
    } else {
        at
    }
}

/// Putting `next` at its place sorts it in.
proof fn lemma_sort_grows(
    direction: SortDirection,
    input: Seq<Candidate>,
    before: Seq<Candidate>,
    place: int,
    next: Candidate,
)
    requires
        stably_sorted(direction, input, before),
        is_place(direction, before, next, place),
    ensures
        stably_sorted(direction, input.push(next), before.insert(place, next)),
{
    let from = choose|from: Seq<int>| sorted_from(direction, input, before, from);
    lemma_insert_keeps_sorted(direction, input, before, from, place, next);
}

/// Candidates can be sorted stably.
proof fn lemma_sort_exists(direction: SortDirection, input: Seq<Candidate>) -> (sorted: Seq<
    Candidate,
>)
    ensures
        stably_sorted(direction, input, sorted),
    decreases input.len(),
{
    if input.len() == 0 {
        let sorted: Seq<Candidate> = seq![];
        assert(sorted_from(direction, input, sorted, seq![]));
        sorted
    } else {
        let rest = input.drop_last();
        let before = lemma_sort_exists(direction, rest);
        let place = lemma_insert_place(direction, before, input.last(), before.len() as int);
        lemma_sort_grows(direction, rest, before, place, input.last());
        assert(rest.push(input.last()) =~= input);
        before.insert(place, input.last())
    }
}

/// `sorted` is what stands in `whole` strictly behind `instant`, and that is
/// all from `place` on.
spec fn splits_at(
    direction: SortDirection,
    instant: int,
    whole: Seq<Candidate>,
    sorted: Seq<Candidate>,
    place: int,
) -> bool {
    &&& 0 <= place <= whole.len()
    &&& sorted == whole.skip(place)
    &&& forall|i: int|
        0 <= i < place ==> !beyond(direction, (#[trigger] whole[i]).timestamp as int, instant)
    &&& forall|i: int|
        place <= i < whole.len() ==> beyond(
            direction,
            (#[trigger] whole[i]).timestamp as int,
            instant,
        )
}

/// What comes behind `instant` is put into both listings at matching places.
proof fn lemma_split_grows_behind(
    direction: SortDirection,
    instant: int,
    whole: Seq<Candidate>,
    sorted: Seq<Candidate>,
    split: int,
    place: int,
    next: Candidate,
)
    requires
        splits_at(direction, instant, whole, sorted, split),
        is_place(direction, whole, next, place),
        beyond(direction, next.timestamp as int, instant),
    ensures
        is_place(direction, sorted, next, place - split),
        splits_at(
            direction,
            instant,
            whole.insert(place, next),
            sorted.insert(place - split, next),
            split,
        ),
{
    reveal(ascending_order);
    if place < split {
        assert(candidate_order(direction, whole[place], next) is Greater);
    }
    assert forall|j: int| place - split <= j < sorted.len() implies candidate_order(
        direction,
        #[trigger] sorted[j],
        next,
    ) is Greater by {
        assert(sorted[j] == whole[split + j]);
    }
    if place - split > 0 {
        assert(sorted[place - split - 1] == whole[place - 1]);
    }
    let after = whole.insert(place, next);
    assert(sorted.insert(place - split, next) =~= after.skip(split));
    assert forall|i: int| split <= i < after.len() implies beyond(
        direction,
        (#[trigger] after[i]).timestamp as int,
        instant,
    ) by {
        if i > place {
            assert(after[i] == whole[i - 1]);
        } else if i < place {
            assert(after[i] == whole[i]);
        }
    }
}

/// What does not come behind `instant` is put into the front of the whole
/// listing.
proof fn lemma_split_grows_in_front(
    direction: SortDirection,
    instant: int,
    whole: Seq<Candidate>,
    sorted: Seq<Candidate>,
    split: int,
    place: int,
    next: Candidate,
)
    requires
        splits_at(direction, instant, whole, sorted, split),
        is_place(direction, whole, next, place),
        !beyond(direction, next.timestamp as int, instant),
    ensures
        splits_at(direction, instant, whole.insert(place, next), sorted, split + 1),
{
    reveal(ascending_order);
    if place > split {
        assert(beyond(direction, whole[place - 1].timestamp as int, instant));
    }
    let after = whole.insert(place, next);
    assert(sorted =~= after.skip(split + 1));
    assert forall|i: int| 0 <= i < split + 1 implies !beyond(
        direction,
        (#[trigger] after[i]).timestamp as int,
        instant,
    ) by {
        if i > place {
            assert(after[i] == whole[i - 1]);
        } else if i < place {
            assert(after[i] == whole[i]);
        }
    }
    assert forall|i: int| split + 1 <= i < after.len() implies beyond(
        direction,
        (#[trigger] after[i]).timestamp as int,
        instant,
    ) by {
        assert(after[i] == whole[i - 1]);
    }
}

/// A listing that continues from a cursor is the end of the whole listing.
proof fn lemma_continued_listing(
    params: SearchThreadsParams,
    cursor: Cursor,
    items: Seq<Option<ThreadItem>>,
    whole: Seq<Candidate>,
    sorted: Seq<Candidate>,
) -> (place: int)
    requires
        stably_sorted(params.sort_direction, candidates(params, None, items), whole),
        stably_sorted(params.sort_direction, candidates(params, Some(cursor), items), sorted),
    ensures
        splits_at(params.sort_direction, cursor.timestamp as int, whole, sorted, place),
    decreases items.len(),
{
    let direction = params.sort_direction;
    let instant = cursor.timestamp as int;
    if items.len() == 0 {
        assert(whole =~= seq![]);
        assert(sorted =~= whole.skip(0));
        0
    } else {
        let rest = items.drop_last();
        let input = candidates(params, None, rest);
        let later = candidates(params, Some(cursor), rest);
        let before = lemma_sort_exists(direction, input);
        let behind = lemma_sort_exists(direction, later);
        let split = lemma_continued_listing(params, cursor, rest, before, behind);
        match candidate(params, None, items.last()) {
            None => {
                stable_sort_is_unique(direction, input, whole, before);
                stable_sort_is_unique(direction, later, sorted, behind);
                split
            },
            Some(next) => {
                let place = lemma_insert_place(direction, before, next, before.len() as int);
                lemma_sort_grows(direction, input, before, place, next);
                stable_sort_is_unique(
                    direction,
                    input.push(next),
                    whole,
                    before.insert(place, next),
                );
                if beyond(direction, next.timestamp as int, instant) {
                    lemma_split_grows_behind(
                        direction,
                        instant,
                        before,
                        behind,
                        split,
                        place,
                        next,
                    );
                    lemma_sort_grows(direction, later, behind, place - split, next);
                    stable_sort_is_unique(
                        direction,
                        later.push(next),
                        sorted,
                        behind.insert(place - split, next),
                    );
                    split
                } else {
                    lemma_split_grows_in_front(
                        direction,
                        instant,
                        before,
                        behind,
                        split,
                        place,
                        next,
                    );
                    stable_sort_is_unique(direction, later, sorted, behind);
                    split + 1
                }
            },
        }
    }
}

/// The matches of a listing are those of its front and then those of its end.
proof fn lemma_hits_split(whole: Seq<Candidate>, answers: Seq<Option<String>>, place: int)
    requires
        0 <= place <= answers.len() <= whole.len(),
    ensures
        hits(whole, answers) == hits(whole, answers.take(place)) + hits(
            whole.skip(place),
            answers.skip(place),
        ),
    decreases answers.len(),
{
    let front = hits(whole, answers.take(place));
    if place == answers.len() {
        assert(answers.take(place) =~= answers);
        assert(answers.skip(place).len() == 0);
        assert(front + hits(whole.skip(place), answers.skip(place)) =~= front);
    } else {
        let rest = answers.drop_last();
        lemma_hits_split(whole, rest, place);
        assert(rest.take(place) =~= answers.take(place));
        assert(rest.skip(place) =~= answers.skip(place).drop_last());
        assert(answers.skip(place).last() == answers.last());
        assert(whole.skip(place)[answers.skip(place).len() - 1] == whole[answers.len() - 1]);
        assert(hits(whole, answers) =~= front + hits(whole.skip(place), answers.skip(place)));
    }
}

/// Candidates in a listing carry the instant of their thread.
proof fn lemma_listed_instants(
    params: SearchThreadsParams,
    cursor: Option<Cursor>,
    items: Seq<Option<ThreadItem>>,
    sorted: Seq<Candidate>,
)
    requires
        stably_sorted(params.sort_direction, candidates(params, cursor, items), sorted),
    ensures
        forall|i: int|
            0 <= i < sorted.len() ==> (#[trigger] sorted[i]).timestamp == sort_instant(
                sorted[i].item,
                params.sort_key,
            ),
{
    let input = candidates(params, cursor, items);
    let from = choose|from: Seq<int>| sorted_from(params.sort_direction, input, sorted, from);
    candidates_qualify(params, cursor, items);
    assert forall|i: int| 0 <= i < sorted.len() implies (#[trigger] sorted[i]).timestamp
        == sort_instant(sorted[i].item, params.sort_key) by {
        assert(sorted[i] == input[from[i]]);
    }
}

/// Continuing from the instant of a match lists exactly the matches that come
/// after it.
proof fn lemma_continued_hits(
    params: SearchThreadsParams,
    cursor: Cursor,
    items: Seq<Option<ThreadItem>>,
    reads: spec_fn(ThreadItem) -> Option<String>,
    whole: Seq<Candidate>,
    sorted: Seq<Candidate>,
    listed: int,
)
    requires
        stably_sorted(params.sort_direction, candidates(params, None, items), whole),
        stably_sorted(params.sort_direction, candidates(params, Some(cursor), items), sorted),
        is_tellable(params, all_hits(whole, reads)),
        0 < listed < all_hits(whole, reads).len(),
        cursor.timestamp == sort_instant(
            all_hits(whole, reads)[listed - 1].item,
            params.sort_key,
        ),
    ensures
        all_hits(sorted, reads) == all_hits(whole, reads).skip(listed),
{
    let direction = params.sort_direction;
    let instant = cursor.timestamp as int;
    let matches = all_hits(whole, reads);
    let answers = all_answers(whole, reads);
    let place = lemma_continued_listing(params, cursor, items, whole, sorted);
    lemma_hits_split(whole, answers, place);
    assert(answers.skip(place) =~= all_answers(sorted, reads));
    let front = hits(whole, answers.take(place));
    let end = all_hits(sorted, reads);
    assert(matches == front + end);
    lemma_listed_instants(params, None, items, whole);
    lemma_listed_instants(params, Some(cursor), items, sorted);
    hits_keep_order(whole, answers.take(place));
    hits_keep_order(sorted, all_answers(sorted, reads));
    let at_front = hit_positions(answers.take(place));
    let at_end = hit_positions(all_answers(sorted, reads));
    assert forall|i: int| 0 <= i < front.len() implies !beyond(
        direction,
        sort_instant((#[trigger] front[i]).item, params.sort_key),
        instant,
    ) by {
        assert(front[i].item == whole[at_front[i]].item);
    }
    assert forall|i: int| 0 <= i < end.len() implies beyond(
        direction,
        sort_instant((#[trigger] end[i]).item, params.sort_key),
        instant,
    ) by {
        assert(end[i].item == sorted[at_end[i]].item);
        assert(sorted[at_end[i]] == whole[place + at_end[i]]);
    }
    lemma_hits_are_sorted(params, None, items, whole, answers);
    if listed > front.len() {
        assert(matches[listed - 1] == end[listed - 1 - front.len()]);
    }
    if listed < front.len() {
        assert(matches[listed] == front[listed]);
        assert(!beyond(
            direction,
            sort_instant(matches[listed - 1].item, params.sort_key),
            sort_instant(matches[listed].item, params.sort_key),
        ));
    }
    assert(end =~= matches.skip(listed));
}

// ---------------------------------------------------------------------------
// The laws
// ---------------------------------------------------------------------------

/// The calls before the one numbered `k` have listed `k` full pages, and it
/// finds exactly the matches that are left.
proof fn lemma_call_continues(
    params: SearchThreadsParams,
    items: Seq<Option<ThreadItem>>,
    reads: spec_fn(ThreadItem) -> Option<String>,
    calls: Seq<PageCall>,
    whole: Seq<Candidate>,
    k: int,
)
    requires
        params.page_size > 0,
        calls_follow(params, items, reads, calls),
        stably_sorted(params.sort_direction, candidates(params, None, items), whole),
        is_tellable(params, all_hits(whole, reads)),
        0 <= k < calls.len(),
    ensures
        k == 0 || k * params.page_size < all_hits(whole, reads).len(),
        0 <= k * params.page_size <= all_hits(whole, reads).len(),
        all_hits(calls[k].sorted, reads) == all_hits(whole, reads).skip(k * params.page_size),
        call_page(params, calls[k]) == page_items(
            all_hits(calls[k].sorted, reads),
            params.page_size as nat,
        ),
        call_token(params, calls[k]) == next_token(
            all_hits(calls[k].sorted, reads),
            params.page_size as nat,
            params.sort_key,
        ),
    decreases k,
{
    let matches = all_hits(whole, reads);
    let size = params.page_size as int;
    let call = calls[k];
    assert(is_call(params, items, reads, call));
    reading_on_changes_no_page(
        call.sorted,
        call.answers,
        all_answers(call.sorted, reads),
        params.page_size as nat,
        params.sort_key,
    );
    if k == 0 {
        stable_sort_is_unique(
            params.sort_direction,
            candidates(params, None, items),
            call.sorted,
            whole,
        );
        assert(k * size == 0) by (nonlinear_arith)
            requires
                k == 0,
        ;
        assert(matches.skip(0) =~= matches);
    } else {
        lemma_call_continues(params, items, reads, calls, whole, k - 1);
        assert(k * size == (k - 1) * size + size) by (nonlinear_arith);
        let before = all_hits(calls[k - 1].sorted, reads);
        let page = call_page(params, calls[k - 1]);
        assert(continues(params, calls[k - 1], call));
        assert(before.len() > size);
        assert(page.last() == before[size - 1]);
        assert(before[size - 1] == matches[k * size - 1]);
        lemma_continued_hits(
            params,
            call.cursor->0,
            items,
            reads,
            whole,
            call.sorted,
            k * size,
        );
    }
}

/// Every page of a walk stands in its place: the page numbered `k` holds the
/// matches of the unpaged listing from the `k`-fold page size on, full unless
/// the listing ends on it, and it comes with a token exactly where matches are
/// left behind it.
pub proof fn pages_stand_in_place(
    params: SearchThreadsParams,
    items: Seq<Option<ThreadItem>>,
    reads: spec_fn(ThreadItem) -> Option<String>,
    calls: Seq<PageCall>,
    whole: Seq<Candidate>,
    k: int,
)
    requires
        params.page_size > 0,
        calls_follow(params, items, reads, calls),
        stably_sorted(params.sort_direction, candidates(params, None, items), whole),
        is_tellable(params, all_hits(whole, reads)),
        0 <= k < calls.len(),
    ensures
        ({
            let matches = all_hits(whole, reads);
            let start = k * params.page_size;
            let end = (k + 1) * params.page_size;
            &&& call_token(params, calls[k]) is Some <==> end < matches.len()
            &&& call_page(params, calls[k]) == matches.subrange(
                start,
                if end < matches.len() {
                    end
                } else {
                    matches.len() as int
                },
            )
        }),
{
    let matches = all_hits(whole, reads);
    let size = params.page_size as int;
    lemma_call_continues(params, items, reads, calls, whole, k);
    assert((k + 1) * size == k * size + size) by (nonlinear_arith);
    let left = matches.skip(k * size);
    if left.len() > size {
        assert(left[size - 1] == matches[(k + 1) * size - 1]);
        assert(call_page(params, calls[k]) =~= matches.subrange(k * size, (k + 1) * size));
    } else {
        assert(call_page(params, calls[k]) =~= matches.subrange(k * size, matches.len() as int));
    }
}

/// The pages of the first `n` calls, put together, are the front of the
/// unpaged listing.
proof fn lemma_pages_together(
    params: SearchThreadsParams,
    items: Seq<Option<ThreadItem>>,
    reads: spec_fn(ThreadItem) -> Option<String>,
    calls: Seq<PageCall>,
    whole: Seq<Candidate>,
    n: int,
)
    requires
        params.page_size > 0,
        calls_follow(params, items, reads, calls),
        stably_sorted(params.sort_direction, candidates(params, None, items), whole),
        is_tellable(params, all_hits(whole, reads)),
        0 <= n <= calls.len(),
    ensures
        pages_together(params, calls.take(n)) == all_hits(whole, reads).take(
            if n * params.page_size < all_hits(whole, reads).len() {
                n * params.page_size
            } else {
                all_hits(whole, reads).len() as int
            },
        ),
    decreases n,
{
    let matches = all_hits(whole, reads);
    let size = params.page_size as int;
    if n == 0 {
        assert(n * size == 0) by (nonlinear_arith)
            requires
                n == 0,
        ;
        assert(calls.take(0).len() == 0);
        assert(matches.take(0) =~= seq![]);
    } else {
        lemma_pages_together(params, items, reads, calls, whole, n - 1);
        lemma_call_continues(params, items, reads, calls, whole, n - 1);
        pages_stand_in_place(params, items, reads, calls, whole, n - 1);
        assert(n * size == (n - 1) * size + size) by (nonlinear_arith);
        assert(calls.take(n).drop_last() =~= calls.take(n - 1));
        let end = if n * size < matches.len() {
            n * size
        } else {
            matches.len() as int
        };
        assert(matches.take((n - 1) * size) + matches.subrange((n - 1) * size, end)
            =~= matches.take(end));
    }
}

/// Paging loses nothing and repeats nothing. Read the same threads page by
/// page, following the tokens until there is none: where no two matches are of
/// one instant and every match has a token, the pages put together are the
/// unpaged listing, and there are as many as it takes to list it.
pub proof fn pages_make_up_the_listing(
    params: SearchThreadsParams,
    items: Seq<Option<ThreadItem>>,
    reads: spec_fn(ThreadItem) -> Option<String>,
    calls: Seq<PageCall>,
    whole: Seq<Candidate>,
)
    requires
        params.page_size > 0,
        is_walk(params, items, reads, calls),
        stably_sorted(params.sort_direction, candidates(params, None, items), whole),
        is_tellable(params, all_hits(whole, reads)),
    ensures
        pages_together(params, calls) == all_hits(whole, reads),
        calls.len() == page_count(all_hits(whole, reads).len(), params.page_size as nat),
{
    let matches = all_hits(whole, reads);
    let size = params.page_size as int;
    let n = calls.len() as int;
    let total = matches.len() as int;
    lemma_pages_together(params, items, reads, calls, whole, n);
    lemma_call_continues(params, items, reads, calls, whole, n - 1);
    pages_stand_in_place(params, items, reads, calls, whole, n - 1);
    assert(calls.take(n) =~= calls);
    assert(n * size == (n - 1) * size + size) by (nonlinear_arith);
    assert(matches.take(total) =~= matches);
    if total > 0 {
        if n == 1 {
            assert((n - 1) * size == 0) by (nonlinear_arith)
                requires
                    n == 1,
            ;
        }
        lemma_fundamental_div_mod_converse(total + size - 1, size, n, total + size - 1 - n * size);
    }
}

} // verus!
