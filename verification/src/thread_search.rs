//! Searching recorded threads page by page.
use vstd::prelude::*;

use crate::order::Rank;
use crate::rollout_path::{
    compare_paths, path_order, path_order_equal, path_order_flip, path_order_transitive,
};
use crate::thread_item::{
    Cursor, SortDirection, ThreadItem, ThreadSortKey, copy_token, cursor_from_thread_item, item_cursor,
    token_text,
};

verus! {

/// A thread store could not serve a request.
pub enum ThreadStoreError {
    /// The request makes no sense.
    InvalidRequest { message: String },
    /// Serving it failed.
    Internal { message: String },
}

/// What a client asks a thread search for.
pub struct SearchThreadsParams {
    pub page_size: usize,
    /// Where the previous page ended, as the client got it.
    pub cursor: Option<String>,
    pub sort_key: ThreadSortKey,
    pub sort_direction: SortDirection,
    /// The sources to list; all of them where this is empty.
    pub allowed_sources: Vec<String>,
    pub archived: bool,
    pub search_term: String,
}

// ---------------------------------------------------------------------------
// Candidates
// ---------------------------------------------------------------------------

/// A thread whose rollout may hold the search term, with the instant by which
/// it is sorted.
pub struct Candidate {
    pub timestamp: i128,
    pub item: ThreadItem,
}

/// `source` is one of the allowed sources.
pub open spec fn source_allowed(allowed: Seq<String>, source: Option<String>) -> bool {
    allowed.len() == 0 || (source is Some && exists|i: int|
        0 <= i < allowed.len() && (#[trigger] allowed[i])@ == source->0@)
}

/// `timestamp` lies strictly behind `cursor` in the direction of the listing.
pub open spec fn beyond(direction: SortDirection, timestamp: int, cursor: int) -> bool {
    match direction {
        SortDirection::Asc => timestamp > cursor,
        SortDirection::Desc => timestamp < cursor,
    }
}

/// What a search makes of one rollout: nothing where it could not be read,
/// comes from a source that was not asked for, carries no usable time, or lies
/// at or before the cursor.
pub open spec fn candidate(
    params: SearchThreadsParams,
    cursor: Option<Cursor>,
    item: Option<ThreadItem>,
) -> Option<Candidate> {
    match item {
        None => None,
        Some(item) => match item_cursor(item, params.sort_key) {
            None => None,
            Some(at) => if source_allowed(params.allowed_sources@, item.source) && (cursor is Some
                ==> beyond(params.sort_direction, at.timestamp as int, cursor->0.timestamp as int)) {
                Some(Candidate { timestamp: at.timestamp, item })
            } else {
                None
            },
        },
    }
}

/// The candidates among `items`, in the order of `items`.
pub open spec fn candidates(
    params: SearchThreadsParams,
    cursor: Option<Cursor>,
    items: Seq<Option<ThreadItem>>,
) -> Seq<Candidate>
    decreases items.len(),
{
    if items.len() == 0 {
        seq![]
    } else {
        let before = candidates(params, cursor, items.drop_last());
        match candidate(params, cursor, items.last()) {
            Some(found) => before.push(found),
            None => before,
        }
    }
}

/// The order of two candidates in a listing: by time, then by path.
pub open spec fn candidate_order(direction: SortDirection, a: Candidate, b: Candidate) -> Rank {
    match direction {
        SortDirection::Asc => ascending_order(a, b),
        SortDirection::Desc => ascending_order(b, a),
    }
}

/// The order of two candidates in an ascending listing.
#[verifier::opaque]
pub open spec fn ascending_order(a: Candidate, b: Candidate) -> Rank {
    if a.timestamp < b.timestamp {
        Rank::Less
    } else if b.timestamp < a.timestamp {
        Rank::Greater
    } else {
        path_order(a.item.path@, b.item.path@)
    }
}

/// `sorted` is `input` sorted stably: `from` gives for each place the position
/// in `input` of what stands there.
pub open spec fn sorted_from(
    direction: SortDirection,
    input: Seq<Candidate>,
    sorted: Seq<Candidate>,
    from: Seq<int>,
) -> bool {
    &&& sorted.len() == input.len()
    &&& from.len() == input.len()
    &&& from.no_duplicates()
    &&& forall|i: int|
        #![trigger from[i]]
        0 <= i < from.len() ==> 0 <= from[i] < input.len() && sorted[i] == input[from[i]]
    &&& forall|i: int, j: int|
        #![trigger sorted[i], sorted[j]]
        0 <= i < j < sorted.len() ==> match candidate_order(direction, sorted[i], sorted[j]) {
            Rank::Less => true,
            Rank::Equal => from[i] < from[j],
            Rank::Greater => false,
        }
}

/// `sorted` is `input` sorted in the direction of the listing; candidates that
/// rank equal keep their order.
pub open spec fn stably_sorted(
    direction: SortDirection,
    input: Seq<Candidate>,
    sorted: Seq<Candidate>,
) -> bool {
    exists|from: Seq<int>| sorted_from(direction, input, sorted, from)
}

/// Exchanging two candidates flips their order.
pub proof fn candidate_order_flip(direction: SortDirection, a: Candidate, b: Candidate)
    ensures
        candidate_order(direction, b, a) == crate::order::flip(candidate_order(direction, a, b)),
{
    reveal(ascending_order);
    path_order_flip(a.item.path@, b.item.path@);
}

/// The order of candidates is transitive, also across candidates that rank
/// equal.
pub proof fn candidate_order_transitive(
    direction: SortDirection,
    a: Candidate,
    b: Candidate,
    c: Candidate,
)
    requires
        candidate_order(direction, a, b) !is Greater,
        candidate_order(direction, b, c) !is Greater,
    ensures
        candidate_order(direction, a, c) !is Greater,
        candidate_order(direction, a, c) is Equal ==> candidate_order(direction, a, b) is Equal
            && candidate_order(direction, b, c) is Equal,
{
    reveal(ascending_order);
    let (x, y, z) = (a.item.path@, b.item.path@, c.item.path@);
    path_order_equal(x, y);
    path_order_equal(y, z);
    path_order_equal(x, z);
    path_order_flip(x, y);
    path_order_flip(y, z);
    path_order_flip(x, z);
    if path_order(x, y) is Less && path_order(y, z) is Less {
        path_order_transitive(x, y, z);
    }
    if path_order(z, y) is Less && path_order(y, x) is Less {
        path_order_transitive(z, y, x);
    }
}

fn compare_candidates(direction: SortDirection, a: &Candidate, b: &Candidate) -> (rank: Rank)
    ensures
        rank == candidate_order(direction, *a, *b),
{
    reveal(ascending_order);
    let (x, y) = match direction {
        SortDirection::Asc => (a, b),
        SortDirection::Desc => (b, a),
    };
    if x.timestamp < y.timestamp {
        Rank::Less
    } else if y.timestamp < x.timestamp {
        Rank::Greater
    } else {
        compare_paths(&x.item.path, &y.item.path)
    }
}

/// Putting `next` behind everything that does not come after it, and before
/// everything that does, keeps the order.
pub(crate) proof fn lemma_insert_keeps_sorted(
    direction: SortDirection,
    input: Seq<Candidate>,
    before: Seq<Candidate>,
    from: Seq<int>,
    place: int,
    next: Candidate,
)
    requires
        sorted_from(direction, input, before, from),
        0 <= place <= before.len(),
        forall|j: int|
            place <= j < before.len() ==> candidate_order(direction, #[trigger] before[j], next)
                is Greater,
        place > 0 ==> candidate_order(direction, before[place - 1], next) !is Greater,
    ensures
        stably_sorted(direction, input.push(next), before.insert(place, next)),
{
    let origin = from.insert(place, input.len() as int);
    let after = before.insert(place, next);
    let all = input.push(next);
    assert forall|i: int| #![trigger origin[i]] 0 <= i < origin.len() implies 0 <= origin[i] < all.len()
        && after[i] == all[origin[i]] by {
        if i < place {
            assert(origin[i] == from[i]);
        } else if i > place {
            assert(origin[i] == from[i - 1]);
        }
    }
    assert forall|i: int, j: int| 0 <= i < origin.len() && 0 <= j < origin.len() && i != j implies origin[i]
        != origin[j] by {
        let x = if i < place {
            i
        } else {
            i - 1
        };
        let y = if j < place {
            j
        } else {
            j - 1
        };
        if i != place {
            assert(origin[i] == from[x]);
        }
        if j != place {
            assert(origin[j] == from[y]);
        }
    }
    assert forall|i: int, j: int|
        #![trigger after[i], after[j]]
        0 <= i < j < after.len() implies match candidate_order(direction, after[i], after[j]) {
        Rank::Less => true,
        Rank::Equal => origin[i] < origin[j],
        Rank::Greater => false,
    } by {
        if i < place && j < place {
            assert(after[i] == before[i] && after[j] == before[j]);
        } else if i > place && j > place {
            assert(after[i] == before[i - 1] && after[j] == before[j - 1]);
        } else if i < place && j > place {
            assert(after[i] == before[i] && after[j] == before[j - 1]);
        } else if i < place {
            assert(after[i] == before[i] && after[j] == next);
            assert(origin[i] == from[i]);
            if i < place - 1 {
                assert(before[i] == before[i] && before[place - 1] == before[place - 1]);
                candidate_order_transitive(direction, before[i], before[place - 1], next);
            }
        } else {
            assert(after[i] == next && after[j] == before[j - 1]);
            candidate_order_flip(direction, before[j - 1], next);
        }
    }
    assert(sorted_from(direction, all, after, origin));
}

/// Inserts `next` behind everything in `sorted` that does not come after it.
fn insert_candidate(
    direction: SortDirection,
    sorted: &mut Vec<Candidate>,
    next: Candidate,
    Ghost(input): Ghost<Seq<Candidate>>,
)
    requires
        stably_sorted(direction, input, old(sorted)@),
    ensures
        stably_sorted(direction, input.push(next), final(sorted)@),
{
    let ghost from = choose|from: Seq<int>| sorted_from(direction, input, sorted@, from);
    let ghost before = sorted@;
    let mut at: usize = sorted.len();
    while at > 0
        invariant
            at <= sorted@.len(),
            sorted@ == before,
            forall|j: int|
                at <= j < before.len() ==> candidate_order(direction, #[trigger] before[j], next)
                    is Greater,
        ensures
            at <= sorted@.len(),
            sorted@ == before,
            forall|j: int|
                at <= j < before.len() ==> candidate_order(direction, #[trigger] before[j], next)
                    is Greater,
            at > 0 ==> candidate_order(direction, before[at - 1], next) !is Greater,
        decreases at,
    {
        match compare_candidates(direction, &sorted[at - 1], &next) {
            Rank::Greater => {},
            _ => {
                break;
            },
        }
        at = at - 1;
    }
    sorted.insert(at, next);
    proof {
        lemma_insert_keeps_sorted(direction, input, before, from, at as int, next);
    }
}

/// Tests whether `source` is one of the allowed sources.
fn allows_source(allowed: &Vec<String>, source: &Option<String>) -> (allows: bool)
    ensures
        allows == source_allowed(allowed@, *source),
{
    if allowed.len() == 0 {
        return true;
    }
    match source {
        None => false,
        Some(name) => {
            let mut i: usize = 0;
            while i < allowed.len()
                invariant
                    i <= allowed@.len(),
                    *source == Some(*name),
                    forall|j: int| 0 <= j < i ==> (#[trigger] allowed@[j])@ != name@,
                decreases allowed@.len() - i,
            {
                if allowed[i] == *name {
                    return true;
                }
                i = i + 1;
            }
            false
        },
    }
}

/// What a search makes of one rollout.
fn consider(
    params: &SearchThreadsParams,
    cursor: &Option<Cursor>,
    item: Option<ThreadItem>,
) -> (found: Option<Candidate>)
    ensures
        found == candidate(*params, *cursor, item),
{
    let item = match item {
        Some(item) => item,
        None => {
            return None;
        },
    };
    if !allows_source(&params.allowed_sources, &item.source) {
        return None;
    }
    let timestamp: i128 = match cursor_from_thread_item(&item, params.sort_key) {
        Some(at) => at.timestamp,
        None => {
            return None;
        },
    };
    if let Some(cursor) = cursor {
        let passed = match params.sort_direction {
            SortDirection::Asc => timestamp <= cursor.timestamp,
            SortDirection::Desc => timestamp >= cursor.timestamp,
        };
        if passed {
            return None;
        }
    }
    Some(Candidate { timestamp, item })
}

/// The candidates among the threads whose rollouts a content search found, in
/// the order of the listing. An entry is `None` where no thread could be read
/// from the rollout.
pub fn select_candidates(
    params: &SearchThreadsParams,
    cursor: &Option<Cursor>,
    items: Vec<Option<ThreadItem>>,
) -> (sorted: Vec<Candidate>)
    ensures
        stably_sorted(params.sort_direction, candidates(*params, *cursor, items@), sorted@),
{
    let mut sorted: Vec<Candidate> = Vec::new();
    proof {
        assert(sorted_from(params.sort_direction, seq![], sorted@, seq![]));
        assert(items@.take(0) =~= seq![]);
    }
    for item in it: items
        invariant
            it.seq() == items@,
            stably_sorted(
                params.sort_direction,
                candidates(*params, *cursor, items@.take(it.index() as int)),
                sorted@,
            ),
    {
        let ghost seen = items@.take(it.index() as int);
        assert(items@.take(it.index() + 1) =~= seen.push(item));
        assert(seen.push(item).drop_last() =~= seen);
        if let Some(found) = consider(params, cursor, item) {
            insert_candidate(
                params.sort_direction,
                &mut sorted,
                found,
                Ghost(candidates(*params, *cursor, seen)),
            );
        }
    }
    assert(items@.take(items@.len() as int) =~= items@);
    sorted
}

// ---------------------------------------------------------------------------
// The request
// ---------------------------------------------------------------------------

/// Checks a search request. `parsed` is what the text of the request's cursor
/// means, if it means anything; the answer is the cursor to continue from.
pub fn accept_search(params: &SearchThreadsParams, parsed: Option<Cursor>) -> (accepted: Result<
    Option<Cursor>,
    ThreadStoreError,
>)
    ensures
        match accepted {
            Ok(cursor) => {
                &&& params.search_term@.len() > 0
                &&& params.cursor is Some ==> parsed is Some
                &&& cursor == if params.cursor is Some {
                    parsed
                } else {
                    None
                }
            },
            Err(ThreadStoreError::InvalidRequest { message }) => {
                ||| params.search_term@.len() == 0 && message@ == "thread/search requires search_term"@
                ||| params.search_term@.len() > 0 && params.cursor is Some && parsed is None && message@
                    == "invalid cursor: "@ + params.cursor->0@
            },
            Err(ThreadStoreError::Internal { .. }) => false,
        },
{
    if params.search_term.as_str().is_empty() {
        return Err(
            ThreadStoreError::InvalidRequest {
                message: "thread/search requires search_term".to_string(),
            },
        );
    }
    match &params.cursor {
        None => Ok(None),
        Some(text) => match parsed {
            Some(cursor) => Ok(Some(cursor)),
            None => Err(
                ThreadStoreError::InvalidRequest {
                    message: "invalid cursor: ".to_string().concat(text.as_str()),
                },
            ),
        },
    }
}

/// The error for a content search that failed.
pub fn search_failed(reason: &str) -> (error: ThreadStoreError)
    ensures
        error matches ThreadStoreError::Internal { message } && message@
            == "failed to search rollout contents: "@ + reason@,
{
    ThreadStoreError::Internal {
        message: "failed to search rollout contents: ".to_string().concat(reason),
    }
}

// ---------------------------------------------------------------------------
// One page
// ---------------------------------------------------------------------------

/// A thread whose rollout holds the search term, with the text around it.
pub struct ThreadSearchItem {
    pub item: ThreadItem,
    pub snippet: String,
}

/// The threads among `candidates` whose rollouts answered with a snippet:
/// `answers` holds the answers for the first candidates, in order.
pub open spec fn hits(candidates: Seq<Candidate>, answers: Seq<Option<String>>) -> Seq<
    ThreadSearchItem,
>
    decreases answers.len(),
{
    if answers.len() == 0 {
        seq![]
    } else {
        let before = hits(candidates, answers.drop_last());
        match answers.last() {
            Some(snippet) => before.push(
                ThreadSearchItem { item: candidates[answers.len() - 1].item, snippet },
            ),
            None => before,
        }
    }
}

/// A page in the making. Rollouts are read one by one until one match more
/// than fits the page has turned up, or none is left.
pub struct PageScan {
    /// The candidates that were not read yet, the next one last.
    waiting: Vec<Candidate>,
    matching: Vec<ThreadSearchItem>,
    page_size: usize,
    all: Ghost<Seq<Candidate>>,
    answers: Ghost<Seq<Option<String>>>,
}

/// What is left of `all` after `done` of them, the next one last.
pub open spec fn left_over(all: Seq<Candidate>, done: int) -> Seq<Candidate> {
    all.skip(done).reverse()
}

impl PageScan {
    /// The candidates of the page, in the order of the listing.
    pub closed spec fn candidates(self) -> Seq<Candidate> {
        self.all@
    }

    /// What reading the first candidates gave.
    pub closed spec fn answers(self) -> Seq<Option<String>> {
        self.answers@
    }

    /// The most items that the page may hold.
    pub closed spec fn page_size(self) -> nat {
        self.page_size as nat
    }

    /// The parts of a scan fit together, and no rollout was read in vain.
    pub closed spec fn well_formed(self) -> bool {
        &&& self.answers@.len() <= self.all@.len()
        &&& self.waiting@ == left_over(self.all@, self.answers@.len() as int)
        &&& self.matching@ == hits(self.all@, self.answers@)
        &&& self.matching@.len() <= self.page_size + 1
    }

    /// No more rollouts were read than there are candidates.
    pub(crate) proof fn lemma_reads_its_candidates(self)
        requires
            self.well_formed(),
        ensures
            self.answers().len() <= self.candidates().len(),
    {
    }

    /// The scan needs no more answers.
    pub open spec fn is_done(self) -> bool {
        ||| self.answers().len() == self.candidates().len()
        ||| hits(self.candidates(), self.answers()).len() > self.page_size()
    }
}

/// The matches that make up a page, out of all matches.
pub open spec fn page_items(matches: Seq<ThreadSearchItem>, page_size: nat) -> Seq<ThreadSearchItem> {
    if matches.len() <= page_size {
        matches
    } else {
        matches.take(page_size as int)
    }
}

/// The token of the cursor of `item`.
pub open spec fn cursor_token(item: ThreadItem, sort_key: ThreadSortKey) -> Option<Seq<char>> {
    match item_cursor(item, sort_key) {
        Some(cursor) => token_text(cursor.token),
        None => None,
    }
}

/// The token at which the next page starts: that of the last item of the page,
/// where matches are left over.
pub open spec fn next_token(
    matches: Seq<ThreadSearchItem>,
    page_size: nat,
    sort_key: ThreadSortKey,
) -> Option<Seq<char>> {
    if matches.len() > page_size && page_size > 0 {
        cursor_token(matches[page_size - 1].item, sort_key)
    } else {
        None
    }
}

/// The matches of one page and where the next page starts.
pub struct MatchedPage {
    pub items: Vec<ThreadSearchItem>,
    pub next_cursor: Option<String>,
}

impl PageScan {
    /// Starts a page of at most `page_size` items over sorted candidates.
    pub fn new(candidates: Vec<Candidate>, page_size: usize) -> (scan: Self)
        ensures
            scan.well_formed(),
            scan.candidates() == candidates@,
            scan.answers() == Seq::<Option<String>>::empty(),
            scan.page_size() == page_size,
    {
        let ghost all = candidates@;
        let mut rest = candidates;
        let mut waiting: Vec<Candidate> = Vec::new();
        let ghost mut n = all.len() as int;
        proof {
            assert(rest@ =~= all.take(n));
            assert(waiting@ =~= left_over(all, n));
        }
        while rest.len() > 0
            invariant
                0 <= n <= all.len(),
                rest@ == all.take(n),
                waiting@ == left_over(all, n),
            decreases rest@.len(),
        {
            if let Some(last) = rest.pop() {
                proof {
                    assert(all.take(n).drop_last() =~= all.take(n - 1));
                    assert(left_over(all, n).push(all[n - 1]) =~= left_over(all, n - 1));
                    n = n - 1;
                }
                waiting.push(last);
            }
        }
        PageScan {
            waiting,
            matching: Vec::new(),
            page_size,
            all: Ghost(all),
            answers: Ghost(Seq::empty()),
        }
    }

    /// The thread whose rollout is to be read next; none once the page is
    /// complete.
    pub fn next_read(&self) -> (next: Option<&ThreadItem>)
        requires
            self.well_formed(),
        ensures
            next is None <==> self.is_done(),
            next is Some ==> *next->0 == self.candidates()[self.answers().len() as int].item,
    {
        if self.matching.len() > self.page_size || self.waiting.len() == 0 {
            None
        } else {
            Some(&self.waiting[self.waiting.len() - 1].item)
        }
    }

    /// Takes what reading the next rollout gave: the text around the search
    /// term, nothing where the rollout does not hold it, or why it could not be
    /// read.
    pub fn offer(&mut self, answer: Result<Option<String>, String>) -> (taken: Result<
        (),
        ThreadStoreError,
    >)
        requires
            old(self).well_formed(),
            !old(self).is_done(),
        ensures
            final(self).well_formed(),
            final(self).candidates() == old(self).candidates(),
            final(self).page_size() == old(self).page_size(),
            match answer {
                Ok(answer) => {
                    &&& taken is Ok
                    &&& final(self).answers() == old(self).answers().push(answer)
                },
                Err(reason) => {
                    &&& final(self).answers() == old(self).answers()
                    &&& taken matches Err(ThreadStoreError::Internal { message }) && message@
                        == "failed to read rollout search match: "@ + reason@
                },
            },
    {
        let snippet = match answer {
            Ok(snippet) => snippet,
            Err(reason) => {
                return Err(
                    ThreadStoreError::Internal {
                        message: "failed to read rollout search match: ".to_string().concat(
                            reason.as_str(),
                        ),
                    },
                );
            },
        };
        let ghost all = self.all@;
        let ghost done = self.answers@.len() as int;
        if let Some(next) = self.waiting.pop() {
            proof {
                assert(next == all[done]);
                assert(left_over(all, done).drop_last() =~= left_over(all, done + 1));
                assert(self.answers@.push(snippet).drop_last() =~= self.answers@);
            }
            self.answers = Ghost(self.answers@.push(snippet));
            if let Some(snippet) = snippet {
                self.matching.push(ThreadSearchItem { item: next.item, snippet });
            }
        }
        Ok(())
    }

    /// The finished page, for a listing by `sort_key`.
    pub fn finish(self, sort_key: ThreadSortKey) -> (page: MatchedPage)
        requires
            self.well_formed(),
            self.is_done(),
        ensures
            page.items@ == page_items(hits(self.candidates(), self.answers()), self.page_size()),
            token_text(page.next_cursor) == next_token(
                hits(self.candidates(), self.answers()),
                self.page_size(),
                sort_key,
            ),
    {
        let ghost matches = self.matching@;
        let mut items = self.matching;
        let more = items.len() > self.page_size;
        items.truncate(self.page_size);
        let next_cursor = if more && items.len() > 0 {
            match cursor_from_thread_item(&items[items.len() - 1].item, sort_key) {
                Some(cursor) => copy_token(&cursor.token),
                None => None,
            }
        } else {
            None
        };
        assert(items@ =~= page_items(matches, self.page_size as nat));
        MatchedPage { items, next_cursor }
    }
}

} // verus!
