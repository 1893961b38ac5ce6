//! Which threads a search lists, and where.
use vstd::prelude::*;

use crate::rollout_path::path_order;
use crate::thread_item::{
    Cursor, RecordedTime, SortDirection, ThreadItem, ThreadSortKey, item_cursor,
};
use crate::thread_search::{
    Candidate, PageScan, SearchThreadsParams, ThreadSearchItem, ascending_order, candidate,
    candidate_order, candidates, hits, next_token, page_items, sorted_from, stably_sorted,
};
use crate::thread_search_laws::{candidates_qualify, sorting_keeps_candidates};

verus! {

// ---------------------------------------------------------------------------
// Who is a candidate
// ---------------------------------------------------------------------------

/// The cursor that a noted time gives.
pub open spec fn noted_cursor(time: Option<RecordedTime>) -> Option<Cursor> {
    match time {
        Some(time) => time.cursor,
        None => None,
    }
}

/// A listing by creation goes by when a thread was created and by nothing else.
/// One by update goes by when it was last updated; where no update is noted, by
/// when it was created.
pub proof fn threads_sort_by_their_time(item: ThreadItem)
    ensures
        item_cursor(item, ThreadSortKey::CreatedAt) == noted_cursor(item.created_at),
        item.updated_at is Some ==> item_cursor(item, ThreadSortKey::UpdatedAt) == noted_cursor(
            item.updated_at,
        ),
        item.updated_at is None ==> item_cursor(item, ThreadSortKey::UpdatedAt) == noted_cursor(
            item.created_at,
        ),
{
}

/// The time by which `item` is listed.
pub open spec fn listed_time(item: ThreadItem, sort_key: ThreadSortKey) -> Option<Cursor> {
    if sort_key == ThreadSortKey::UpdatedAt && item.updated_at is Some {
        noted_cursor(item.updated_at)
    } else {
        noted_cursor(item.created_at)
    }
}

/// A thread is a candidate exactly if it could be read, its time is usable, its
/// source is one of those that were asked for, if any were, and it lies
/// strictly behind the cursor, if there is one. A candidate is the thread
/// itself, with its instant.
pub proof fn candidates_meet_the_request(
    params: SearchThreadsParams,
    cursor: Option<Cursor>,
    item: ThreadItem,
)
    ensures
        candidate(params, cursor, None) is None,
        candidate(params, cursor, Some(item)) is Some <==> {
            &&& listed_time(item, params.sort_key) is Some
            &&& params.allowed_sources@.len() == 0 || exists|i: int|
                0 <= i < params.allowed_sources@.len() && item.source is Some && (
                #[trigger] params.allowed_sources@[i])@ == item.source->0@
            &&& cursor is Some ==> match params.sort_direction {
                SortDirection::Asc => listed_time(item, params.sort_key)->0.timestamp
                    > cursor->0.timestamp,
                SortDirection::Desc => listed_time(item, params.sort_key)->0.timestamp
                    < cursor->0.timestamp,
            }
        },
        candidate(params, cursor, Some(item)) matches Some(found) ==> {
            &&& found.item == item
            &&& found.timestamp == listed_time(item, params.sort_key)->0.timestamp
        },
{
}

/// Without a cursor, a thread with a usable time is listed whichever of the
/// allowed sources it comes from, and where none is named, whatever its source.
pub proof fn every_allowed_source_is_listed(
    params: SearchThreadsParams,
    item: ThreadItem,
    i: int,
)
    requires
        listed_time(item, params.sort_key) is Some,
    ensures
        params.allowed_sources@.len() == 0 ==> candidate(params, None, Some(item)) is Some,
        0 <= i < params.allowed_sources@.len() && item.source is Some
            && params.allowed_sources@[i]@ == item.source->0@ ==> candidate(
            params,
            None,
            Some(item),
        ) is Some,
        params.allowed_sources@.len() > 0 && item.source is None ==> candidate(
            params,
            None,
            Some(item),
        ) is None,
{
}

/// `name` is among `sources`.
pub open spec fn names_source(sources: Seq<String>, name: Seq<char>) -> bool {
    exists|i: int| 0 <= i < sources.len() && (#[trigger] sources[i])@ == name
}

/// Only which sources are allowed counts, not in which order or how often they
/// are named.
pub proof fn order_of_sources_does_not_matter(
    params: SearchThreadsParams,
    other: SearchThreadsParams,
    cursor: Option<Cursor>,
    items: Seq<Option<ThreadItem>>,
)
    requires
        params.sort_key == other.sort_key,
        params.sort_direction == other.sort_direction,
        forall|name: Seq<char>| #[trigger]
            names_source(params.allowed_sources@, name) == names_source(
                other.allowed_sources@,
                name,
            ),
    ensures
        candidates(params, cursor, items) == candidates(other, cursor, items),
    decreases items.len(),
{
    if items.len() > 0 {
        order_of_sources_does_not_matter(params, other, cursor, items.drop_last());
        let (a, b) = (params.allowed_sources@, other.allowed_sources@);
        if a.len() > 0 {
            assert(names_source(a, a[0]@));
            assert(names_source(b, a[0]@));
        }
        if b.len() > 0 {
            assert(names_source(b, b[0]@));
            assert(names_source(a, b[0]@));
        }
        if let Some(item) = items.last() {
            candidates_meet_the_request(params, cursor, item);
            candidates_meet_the_request(other, cursor, item);
            if item.source is Some {
                assert(names_source(a, item.source->0@) == names_source(b, item.source->0@));
            }
            assert(candidate(params, cursor, Some(item)) == candidate(other, cursor, Some(item)));
        }
    }
}

/// Threads are considered one by one: the candidates among two lists are those
/// among the one and then those among the other, and no thread bears on
/// another.
pub proof fn threads_are_considered_one_by_one(
    params: SearchThreadsParams,
    cursor: Option<Cursor>,
    a: Seq<Option<ThreadItem>>,
    b: Seq<Option<ThreadItem>>,
    item: Option<ThreadItem>,
)
    ensures
        candidates(params, cursor, a + b) == candidates(params, cursor, a) + candidates(
            params,
            cursor,
            b,
        ),
        candidates(params, cursor, seq![item]) == match candidate(params, cursor, item) {
            Some(found) => seq![found],
            None => seq![],
        },
    decreases b.len(),
{
    let none: Seq<Option<ThreadItem>> = seq![];
    assert(seq![item].drop_last() =~= none);
    assert(candidates(params, cursor, none) =~= seq![]);
    assert(candidates(params, cursor, seq![item]) =~= match candidate(params, cursor, item) {
        Some(found) => seq![found],
        None => seq![],
    });
    if b.len() == 0 {
        assert(a + b =~= a);
        assert(candidates(params, cursor, a) + candidates(params, cursor, b) =~= candidates(
            params,
            cursor,
            a,
        ));
    } else {
        threads_are_considered_one_by_one(params, cursor, a, b.drop_last(), item);
        assert((a + b).drop_last() =~= a + b.drop_last());
        assert((a + b).last() == b.last());
        assert(candidates(params, cursor, a + b) =~= candidates(params, cursor, a) + candidates(
            params,
            cursor,
            b,
        ));
    }
}

/// A listing holds a thread exactly if it is a candidate.
pub proof fn listings_hold_the_candidates(
    params: SearchThreadsParams,
    cursor: Option<Cursor>,
    items: Seq<Option<ThreadItem>>,
    sorted: Seq<Candidate>,
    found: Candidate,
)
    requires
        stably_sorted(params.sort_direction, candidates(params, cursor, items), sorted),
    ensures
        sorted.contains(found) <==> exists|i: int|
            0 <= i < items.len() && candidate(params, cursor, #[trigger] items[i]) == Some(found),
{
    sorting_keeps_candidates(
        params.sort_direction,
        candidates(params, cursor, items),
        sorted,
        found,
    );
    lemma_candidates_contain(params, cursor, items, found);
}

proof fn lemma_candidates_contain(
    params: SearchThreadsParams,
    cursor: Option<Cursor>,
    items: Seq<Option<ThreadItem>>,
    found: Candidate,
)
    ensures
        candidates(params, cursor, items).contains(found) <==> exists|i: int|
            0 <= i < items.len() && candidate(params, cursor, #[trigger] items[i]) == Some(found),
    decreases items.len(),
{
    let all = candidates(params, cursor, items);
    if items.len() > 0 {
        let rest = items.drop_last();
        let before = candidates(params, cursor, rest);
        let last = items.len() - 1;
        lemma_candidates_contain(params, cursor, rest, found);
        assert(items.last() == items[last]);
        if all.contains(found) {
            let k = choose|k: int| 0 <= k < all.len() && all[k] == found;
            if k < before.len() {
                assert(before[k] == found);
                assert(before.contains(found));
                let i = choose|i: int|
                    0 <= i < rest.len() && candidate(params, cursor, #[trigger] rest[i]) == Some(
                        found,
                    );
                assert(items[i] == rest[i]);
            } else {
                assert(candidate(params, cursor, items[last]) == Some(found));
            }
        }
        if exists|i: int|
            0 <= i < items.len() && candidate(params, cursor, #[trigger] items[i]) == Some(found) {
            let i = choose|i: int|
                0 <= i < items.len() && candidate(params, cursor, #[trigger] items[i]) == Some(
                    found,
                );
            if i < last {
                assert(rest[i] == items[i]);
                assert(before.contains(found));
                let k = choose|k: int| 0 <= k < before.len() && before[k] == found;
                assert(all[k] == found);
            } else {
                assert(all[before.len() as int] == found);
            }
        }
    }
}

// ---------------------------------------------------------------------------
// The order of a listing
// ---------------------------------------------------------------------------

/// An ascending listing goes from the oldest thread to the newest, a descending
/// one from the newest to the oldest. Threads of one instant go by their paths,
/// in the same direction.
pub proof fn listings_go_by_time_and_path(
    direction: SortDirection,
    input: Seq<Candidate>,
    sorted: Seq<Candidate>,
    i: int,
    j: int,
)
    requires
        stably_sorted(direction, input, sorted),
        0 <= i < j < sorted.len(),
    ensures
        match direction {
            SortDirection::Asc => {
                ||| sorted[i].timestamp < sorted[j].timestamp
                ||| sorted[i].timestamp == sorted[j].timestamp && !(path_order(
                    sorted[i].item.path@,
                    sorted[j].item.path@,
                ) is Greater)
            },
            SortDirection::Desc => {
                ||| sorted[i].timestamp > sorted[j].timestamp
                ||| sorted[i].timestamp == sorted[j].timestamp && !(path_order(
                    sorted[j].item.path@,
                    sorted[i].item.path@,
                ) is Greater)
            },
        },
{
    reveal(ascending_order);
    let from = choose|from: Seq<int>| sorted_from(direction, input, sorted, from);
    assert(!(candidate_order(direction, sorted[i], sorted[j]) is Greater));
}

/// Every thread of a listing carries its own instant.
pub proof fn listed_threads_carry_their_instant(
    params: SearchThreadsParams,
    cursor: Option<Cursor>,
    items: Seq<Option<ThreadItem>>,
    sorted: Seq<Candidate>,
    i: int,
)
    requires
        stably_sorted(params.sort_direction, candidates(params, cursor, items), sorted),
        0 <= i < sorted.len(),
    ensures
        listed_time(sorted[i].item, params.sort_key) is Some,
        sorted[i].timestamp == listed_time(sorted[i].item, params.sort_key)->0.timestamp,
{
    let input = candidates(params, cursor, items);
    let from = choose|from: Seq<int>| sorted_from(params.sort_direction, input, sorted, from);
    candidates_qualify(params, cursor, items);
    assert(sorted[i] == input[from[i]]);
    candidates_meet_the_request(params, cursor, sorted[i].item);
}

// ---------------------------------------------------------------------------
// Pages
// ---------------------------------------------------------------------------

/// A thread is a match exactly if reading its rollout gave a snippet, and it is
/// shown with that snippet. Matches stand in the order in which the rollouts
/// were read.
pub proof fn matches_are_the_threads_with_snippets(
    sorted: Seq<Candidate>,
    a: Seq<Option<String>>,
    answer: Option<String>,
)
    requires
        a.len() < sorted.len(),
    ensures
        hits(sorted, seq![]).len() == 0,
        answer is None ==> hits(sorted, a.push(answer)) == hits(sorted, a),
        answer matches Some(snippet) ==> {
            &&& hits(sorted, a.push(answer)).len() == hits(sorted, a).len() + 1
            &&& hits(sorted, a.push(answer)).drop_last() == hits(sorted, a)
            &&& hits(sorted, a.push(answer)).last().item == sorted[a.len() as int].item
            &&& hits(sorted, a.push(answer)).last().snippet == snippet
        },
{
    assert(a.push(answer).drop_last() =~= a);
    if answer is Some {
        assert(hits(sorted, a.push(answer)).drop_last() =~= hits(sorted, a));
    }
}

/// Rollouts are read until it is known what stands on the page and whether more
/// matches are left: all of them were read, or there is a match more than fits.
pub proof fn reading_stops_one_match_behind_the_page(scan: PageScan)
    requires
        scan.well_formed(),
    ensures
        scan.is_done() ==> scan.answers().len() == scan.candidates().len() || hits(
            scan.candidates(),
            scan.answers(),
        ).len() > scan.page_size(),
        !scan.is_done() ==> scan.answers().len() < scan.candidates().len() && hits(
            scan.candidates(),
            scan.answers(),
        ).len() <= scan.page_size(),
{
    scan.lemma_reads_its_candidates();
}

/// A page holds the first matches: all of them where they fit, else as many as
/// were asked for.
pub proof fn pages_hold_the_first_matches(matches: Seq<ThreadSearchItem>, page_size: nat)
    ensures
        page_items(matches, page_size).len() == if matches.len() < page_size {
            matches.len()
        } else {
            page_size
        },
        forall|i: int|
            0 <= i < page_items(matches, page_size).len() ==> #[trigger] page_items(
                matches,
                page_size,
            )[i] == matches[i],
{
}

/// A page comes with a token exactly if matches are left over, it holds any
/// itself, and its last thread has a token; that is the token.
pub proof fn tokens_are_those_of_the_last_thread(
    matches: Seq<ThreadSearchItem>,
    page_size: nat,
    sort_key: ThreadSortKey,
)
    ensures
        matches.len() <= page_size ==> next_token(matches, page_size, sort_key) is None,
        page_size == 0 ==> next_token(matches, page_size, sort_key) is None,
        0 < page_size < matches.len() ==> {
            let end = listed_time(page_items(matches, page_size).last().item, sort_key);
            match next_token(matches, page_size, sort_key) {
                Some(token) => end is Some && end->0.token is Some && end->0.token->0@ == token,
                None => end is None || end->0.token is None,
            }
        },
{
    if 0 < page_size < matches.len() {
        threads_sort_by_their_time(matches[page_size - 1].item);
    }
}

} // verus!
