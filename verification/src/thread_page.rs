//! The page that a thread search answers with, and the names on it.
use std::collections::HashMap;

use vstd::prelude::*;

use crate::thread_item::token_text;
use crate::thread_search::ThreadSearchItem;

verus! {

broadcast use vstd::std_specs::hash::group_hash_axioms;

/// A thread as the store hands it out.
pub struct StoredThread {
    /// The thread's UUID as a number.
    pub thread_id: u128,
    /// The caller's number for the full record of the thread.
    pub record: usize,
}

/// One result of a thread search.
pub struct StoredThreadSearchResult {
    pub thread: StoredThread,
    pub snippet: String,
}

/// One page of results, and the token of the cursor of the next page.
pub struct ThreadSearchPage {
    pub items: Vec<StoredThreadSearchResult>,
    pub next_cursor: Option<String>,
}

/// The results among `matches` whose threads could be loaded: each match
/// stands with what loading its thread gave.
pub open spec fn results(matches: Seq<(ThreadSearchItem, Option<StoredThread>)>) -> Seq<
    StoredThreadSearchResult,
>
    decreases matches.len(),
{
    if matches.len() == 0 {
        seq![]
    } else {
        let before = results(matches.drop_last());
        match matches.last() {
            (hit, Some(thread)) => before.push(
                StoredThreadSearchResult { thread, snippet: hit.snippet },
            ),
            (_, None) => before,
        }
    }
}

/// The page of a search that found no rollout at all.
pub fn empty_page() -> (page: ThreadSearchPage)
    ensures
        page.items@.len() == 0,
        page.next_cursor is None,
{
    ThreadSearchPage { items: Vec::new(), next_cursor: None }
}

/// The page of results for the matches of a page. A thread that does not load
/// is left out; the cursor stays.
pub fn result_page(
    matches: Vec<(ThreadSearchItem, Option<StoredThread>)>,
    next_cursor: Option<String>,
) -> (page: ThreadSearchPage)
    ensures
        page.items@ == results(matches@),
        page.next_cursor == next_cursor,
{
    let mut items: Vec<StoredThreadSearchResult> = Vec::new();
    for pair in it: matches
        invariant
            it.seq() == matches@,
            items@ == results(matches@.take(it.index() as int)),
    {
        let ghost seen = matches@.take(it.index() as int);
        assert(matches@.take(it.index() + 1) =~= seen.push(pair));
        assert(seen.push(pair).drop_last() =~= seen);
        let (hit, thread) = pair;
        if let Some(thread) = thread {
            items.push(StoredThreadSearchResult { thread, snippet: hit.snippet });
        }
    }
    assert(matches@.take(matches@.len() as int) =~= matches@);
    ThreadSearchPage { items, next_cursor }
}

/// Results come page by page: those of two pages put together are those of the
/// one and then those of the other.
pub proof fn results_come_page_by_page(
    a: Seq<(ThreadSearchItem, Option<StoredThread>)>,
    b: Seq<(ThreadSearchItem, Option<StoredThread>)>,
)
    ensures
        results(a + b) == results(a) + results(b),
    decreases b.len(),
{
    if b.len() == 0 {
        assert(a + b =~= a);
        assert(results(a) + results(b) =~= results(a));
    } else {
        results_come_page_by_page(a, b.drop_last());
        assert((a + b).drop_last() =~= a + b.drop_last());
        assert((a + b).last() == b.last());
        assert(results(a + b) =~= results(a) + results(b));
    }
}

/// A thread is on the page exactly if it loads, and stands there with the
/// snippet of its match.
pub proof fn loaded_threads_are_on_the_page(hit: ThreadSearchItem, loaded: Option<StoredThread>)
    ensures
        results(seq![]).len() == 0,
        loaded is None ==> results(seq![(hit, loaded)]).len() == 0,
        loaded matches Some(thread) ==> {
            &&& results(seq![(hit, loaded)]).len() == 1
            &&& results(seq![(hit, loaded)])[0].thread == thread
            &&& results(seq![(hit, loaded)])[0].snippet == hit.snippet
        },
{
    let none: Seq<(ThreadSearchItem, Option<StoredThread>)> = seq![];
    assert(seq![(hit, loaded)].drop_last() =~= none);
    assert(results(none) =~= seq![]);
}

// ---------------------------------------------------------------------------
// Names
// ---------------------------------------------------------------------------

/// `id` is the thread of one of `items`.
pub open spec fn lists_thread(items: Seq<StoredThreadSearchResult>, id: u128) -> bool {
    exists|i: int| 0 <= i < items.len() && (#[trigger] items[i]).thread.thread_id == id
}

/// `names` with the title that the session index has for `id`.
pub open spec fn with_legacy_title(names: Map<u128, String>, id: u128, title: String) -> Map<
    u128,
    String,
> {
    if names.contains_key(id) {
        names
    } else {
        names.insert(id, title)
    }
}

/// The names of the threads on a page, as far as they are known. Titles from
/// the state database come first; titles from the older session index only
/// fill gaps.
pub struct ResultNames {
    ids: Vec<u128>,
    names: HashMap<u128, String>,
}

impl ResultNames {
    /// The threads on the page.
    pub closed spec fn ids(self) -> Set<u128> {
        self.ids@.to_set()
    }

    /// The titles that are known.
    pub closed spec fn names(self) -> Map<u128, String> {
        self.names@
    }

    /// Only threads on the page have names, and none is on it twice.
    pub closed spec fn well_formed(self) -> bool {
        &&& self.ids@.no_duplicates()
        &&& self.names@.dom().subset_of(self.ids@.to_set())
    }

    /// Starts with the threads on a page, none of them named.
    pub fn new(items: &Vec<StoredThreadSearchResult>) -> (names: Self)
        ensures
            names.well_formed(),
            names.names() == Map::<u128, String>::empty(),
            forall|id: u128| names.ids().contains(id) <==> lists_thread(items@, id),
    {
        let mut ids: Vec<u128> = Vec::new();
        let mut i: usize = 0;
        while i < items.len()
            invariant
                i <= items@.len(),
                ids@.no_duplicates(),
                forall|id: u128| ids@.contains(id) <==> lists_thread(items@.take(i as int), id),
            decreases items@.len() - i,
        {
            let id = items[i].thread.thread_id;
            let ghost before = ids@;
            let ghost seen = items@.take(i as int);
            let ghost more = items@.take(i + 1);
            let known = has_id(&ids, id);
            if !known {
                ids.push(id);
            }
            proof {
                assert(more =~= seen.push(items@[i as int]));
                assert forall|other: u128| ids@.contains(other) <==> lists_thread(more, other) by {
                    if before.contains(other) {
                        let k = choose|k: int| 0 <= k < before.len() && before[k] == other;
                        assert(ids@[k] == other);
                        let j = choose|j: int|
                            0 <= j < seen.len() && (#[trigger] seen[j]).thread.thread_id == other;
                        assert(more[j] == seen[j]);
                    }
                    if lists_thread(more, other) {
                        let j = choose|j: int|
                            0 <= j < more.len() && (#[trigger] more[j]).thread.thread_id == other;
                        if j < seen.len() {
                            assert(seen[j] == more[j]);
                            assert(lists_thread(seen, other));
                            assert(before.contains(other));
                        } else if !known {
                            assert(ids@[before.len() as int] == other);
                        }
                    }
                    if other == id {
                        assert(more[i as int].thread.thread_id == id);
                    }
                }
            }
            i = i + 1;
        }
        assert(items@.take(items@.len() as int) =~= items@);
        let names = HashMap::new();
        ResultNames { ids, names }
    }

    /// The threads on the page, each once.
    pub fn thread_ids(&self) -> (ids: &Vec<u128>)
        requires
            self.well_formed(),
        ensures
            ids@.no_duplicates(),
            ids@.to_set() == self.ids(),
    {
        &self.ids
    }

    /// Takes the title that the state database has for a thread. A thread that
    /// is not on the page gets no name.
    pub fn set_title(&mut self, id: u128, title: String)
        requires
            old(self).well_formed(),
        ensures
            final(self).well_formed(),
            final(self).ids() == old(self).ids(),
            final(self).names() == if old(self).ids().contains(id) {
                old(self).names().insert(id, title)
            } else {
                old(self).names()
            },
    {
        if has_id(&self.ids, id) {
            self.names.insert(id, title);
        }
    }

    /// Some thread on the page has no name yet, so the session index is worth
    /// asking.
    pub fn wants_legacy_names(&self) -> (wants: bool)
        requires
            self.well_formed(),
        ensures
            wants == exists|id: u128| self.ids().contains(id) && !self.names().contains_key(id),
    {
        proof {
            let known = self.names@.dom();
            let all = self.ids@.to_set();
            self.ids@.unique_seq_to_set();
            assert(known.finite());
            vstd::set_lib::lemma_len_subset(known, all);
            if known.len() == all.len() {
                vstd::set_lib::lemma_subset_equality(known, all);
            } else if forall|id: u128| all.contains(id) ==> known.contains(id) {
                assert(all =~= known);
            } else {
                let id = choose|id: u128| all.contains(id) && !known.contains(id);
                assert(self.ids().contains(id) && !self.names().contains_key(id));
            }
        }
        self.names.len() < self.ids.len()
    }

    /// Takes a title that the session index has for a thread on the page, unless
    /// the thread has a name already.
    pub fn add_legacy_title(&mut self, id: u128, title: String)
        requires
            old(self).well_formed(),
        ensures
            final(self).well_formed(),
            final(self).ids() == old(self).ids(),
            final(self).names() == if old(self).ids().contains(id) {
                with_legacy_title(old(self).names(), id, title)
            } else {
                old(self).names()
            },
    {
        if has_id(&self.ids, id) && !self.names.contains_key(&id) {
            self.names.insert(id, title);
        }
    }

    /// The title for a thread, if one is known.
    pub fn title_for(&self, id: u128) -> (title: Option<String>)
        requires
            self.well_formed(),
        ensures
            token_text(title) == if self.names().contains_key(id) {
                Some(self.names()[id]@)
            } else {
                None
            },
    {
        match self.names.get(&id) {
            Some(title) => Some(title.clone()),
            None => None,
        }
    }
}

/// Tests whether `id` is one of `ids`.
pub(crate) fn has_id(ids: &Vec<u128>, id: u128) -> (found: bool)
    ensures
        found == ids@.contains(id),
{
    let mut i: usize = 0;
    while i < ids.len()
        invariant
            i <= ids@.len(),
            forall|j: int| 0 <= j < i ==> ids@[j] != id,
        decreases ids@.len() - i,
    {
        if ids[i] == id {
            assert(ids@[i as int] == id);
            return true;
        }
        i = i + 1;
    }
    false
}

/// The threads on a page are those of its items, and no others.
pub proof fn pages_list_their_threads(items: Seq<StoredThreadSearchResult>, id: u128)
    ensures
        forall|i: int|
            0 <= i < items.len() ==> lists_thread(items, (#[trigger] items[i]).thread.thread_id),
        (forall|i: int| 0 <= i < items.len() ==> (#[trigger] items[i]).thread.thread_id != id)
            ==> !lists_thread(items, id),
{
}

/// A thread without a name takes the title of the session index, and only that
/// thread does.
pub proof fn legacy_titles_fill_gaps(
    names: Map<u128, String>,
    id: u128,
    title: String,
    other: u128,
)
    requires
        !names.contains_key(id),
    ensures
        with_legacy_title(names, id, title).contains_key(id),
        with_legacy_title(names, id, title)[id] == title,
        other != id ==> (with_legacy_title(names, id, title).contains_key(other)
            <==> names.contains_key(other)),
{
}

/// A title of the state database is never replaced by one of the session
/// index, and no thread loses its name.
pub proof fn legacy_titles_only_fill_gaps(
    names: Map<u128, String>,
    id: u128,
    title: String,
    other: u128,
)
    requires
        names.contains_key(other),
    ensures
        with_legacy_title(names, id, title).contains_key(other),
        with_legacy_title(names, id, title)[other] == names[other],
{
}

} // verus!
