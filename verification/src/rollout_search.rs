//! Finding threads by what their rollouts say or what they are called.
use std::collections::HashMap;

use vstd::prelude::*;

use crate::conversation::{
    PreviewView, RolloutItem, ThreadSearchPreview, content_match_preview, content_preview,
    preview_view,
};
use crate::path_text::{is_below, join_paths};
use crate::rollout_path::{RolloutPath, resolves, same_path};
use crate::text::{chars_of, contains_text, has_text, texts};
use crate::thread_item::ThreadItem;
use crate::thread_page::has_id;

verus! {

broadcast use vstd::std_specs::hash::group_hash_axioms;

// ---------------------------------------------------------------------------
// Running ripgrep
// ---------------------------------------------------------------------------

/// The names of the directories that rollouts are kept in.
pub struct SessionDirs {
    /// For sessions in use.
    pub sessions: String,
    /// For archived sessions.
    pub archived_sessions: String,
}

/// The directory to search, below `codex_home`.
pub fn search_root(codex_home: &str, archived: bool, dirs: &SessionDirs) -> (root: String)
    ensures
        is_below(
            codex_home@,
            if archived {
                dirs.archived_sessions@
            } else {
                dirs.sessions@
            },
            root@,
        ),
{
    if archived {
        join_paths(codex_home, dirs.archived_sessions.as_str())
    } else {
        join_paths(codex_home, dirs.sessions.as_str())
    }
}

/// The arguments that make ripgrep report, as JSON, every line of a rollout
/// below `root` that holds `term`.
pub open spec fn ripgrep_texts(term: Seq<char>, root: Seq<char>) -> Seq<Seq<char>> {
    seq![
        "--json"@,
        "--fixed-strings"@,
        "--no-ignore"@,
        "--glob"@,
        "*.jsonl"@,
        "--"@,
        term,
        root,
    ]
}

/// The arguments that make ripgrep report, as JSON, every line of a rollout
/// below `root` that holds `search_term`.
pub fn ripgrep_arguments(search_term: &str, root: &str) -> (arguments: Vec<String>)
    ensures
        texts(arguments@) == ripgrep_texts(search_term@, root@),
{
    let mut arguments: Vec<String> = Vec::new();
    arguments.push("--json".to_string());
    arguments.push("--fixed-strings".to_string());
    arguments.push("--no-ignore".to_string());
    arguments.push("--glob".to_string());
    arguments.push("*.jsonl".to_string());
    arguments.push("--".to_string());
    arguments.push(search_term.to_string());
    arguments.push(root.to_string());
    assert(texts(arguments@) =~= ripgrep_texts(search_term@, root@));
    arguments
}

/// A line on which ripgrep found the search term.
pub struct RipgrepMatchData {
    /// The path of the rollout, where it is text.
    pub path: Option<String>,
    /// The line, where it is text.
    pub line: Option<MatchedLine>,
}

/// A line of a rollout: what it records, if it parses.
pub struct MatchedLine {
    pub item: Option<RolloutItem>,
}

/// One message of ripgrep's JSON output.
pub enum RipgrepEvent {
    Match { data: RipgrepMatchData },
    Other,
}

/// How running ripgrep went.
pub enum RipgrepRun {
    /// There is no directory to search.
    RootMissing,
    /// There is no ripgrep.
    ProgramMissing,
    /// It could not be started.
    NotStarted { reason: String },
    /// It ran: how it ended, and its output line by line, `None` for a line
    /// that does not parse.
    Finished {
        success: bool,
        code: Option<i32>,
        stderr_empty: bool,
        events: Vec<Option<RipgrepEvent>>,
    },
}

/// A content search failed.
pub enum RolloutSearchError {
    /// ripgrep could not be started.
    NotStarted { reason: String },
    /// ripgrep reported a failure.
    Failed { message: String },
}

/// The output of a run to go by; none where there is nothing to be found.
pub open spec fn usable_events(run: RipgrepRun) -> Seq<Option<RipgrepEvent>> {
    match run {
        RipgrepRun::Finished { success, events, .. } => if success {
            events@
        } else {
            seq![]
        },
        _ => seq![],
    }
}

/// ripgrep ended without a match: it says so by the exit code 1 and says
/// nothing else.
pub open spec fn ended_without_match(run: RipgrepRun) -> bool {
    match run {
        RipgrepRun::Finished { success, code, stderr_empty, .. } => !success && code == Some(1i32)
            && stderr_empty,
        _ => false,
    }
}

/// A run that is no failure.
pub open spec fn run_is_usable(run: RipgrepRun) -> bool {
    match run {
        RipgrepRun::RootMissing => true,
        RipgrepRun::ProgramMissing => true,
        RipgrepRun::NotStarted { .. } => false,
        RipgrepRun::Finished { success, .. } => success || ended_without_match(run),
    }
}

/// A match in a rollout whose path is known.
pub struct RolloutMatch {
    pub path: RolloutPath,
    pub item: Option<RolloutItem>,
}

/// What is known of the rollout that `event` reports a match in.
pub open spec fn match_parts(event: Option<RipgrepEvent>) -> Option<(Seq<char>, Option<RolloutItem>)> {
    match event {
        Some(RipgrepEvent::Match { data }) => match (data.path, data.line) {
            (Some(path), Some(line)) => Some((path@, line.item)),
            _ => None,
        },
        _ => None,
    }
}

/// `found` are the matches that `events` report, in order, with their paths
/// resolved below `root`.
pub open spec fn resolved_matches(
    root: Seq<char>,
    events: Seq<Option<RipgrepEvent>>,
    found: Seq<RolloutMatch>,
) -> bool
    decreases events.len(),
{
    if events.len() == 0 {
        found.len() == 0
    } else {
        match match_parts(events.last()) {
            Some((path, item)) => {
                &&& found.len() > 0
                &&& found.last().item == item
                &&& resolves(root, path, found.last().path)
                &&& resolved_matches(root, events.drop_last(), found.drop_last())
            },
            None => resolved_matches(root, events.drop_last(), found),
        }
    }
}

/// The matches that `events` report, with their paths resolved below `root`.
pub fn resolve_matches(root: &str, events: Vec<Option<RipgrepEvent>>) -> (found: Vec<RolloutMatch>)
    ensures
        resolved_matches(root@, events@, found@),
{
    let mut found: Vec<RolloutMatch> = Vec::new();
    for event in it: events
        invariant
            it.seq() == events@,
            resolved_matches(root@, events@.take(it.index() as int), found@),
    {
        let ghost seen = events@.take(it.index() as int);
        let ghost before = found@;
        assert(events@.take(it.index() + 1) =~= seen.push(event));
        assert(seen.push(event).drop_last() =~= seen);
        if let Some(RipgrepEvent::Match { data }) = event {
            if let (Some(path), Some(line)) = (data.path, data.line) {
                let path = RolloutPath::resolve(root, path.as_str());
                found.push(RolloutMatch { path, item: line.item });
                assert(found@.drop_last() =~= before);
            }
        }
    }
    assert(events@.take(events@.len() as int) =~= events@);
    found
}

// ---------------------------------------------------------------------------
// Previews by path
// ---------------------------------------------------------------------------

/// The first preview that the matches in each rollout give.
pub open spec fn previews_by_path(
    found: Seq<RolloutMatch>,
    term: Seq<char>,
    marker: Seq<char>,
) -> Map<Seq<Seq<int>>, PreviewView>
    decreases found.len(),
{
    if found.len() == 0 {
        Map::empty()
    } else {
        let before = previews_by_path(found.drop_last(), term, marker);
        let path = found.last().path@;
        match content_preview(found.last().item, term, marker) {
            Some(preview) if !before.contains_key(path) => before.insert(path, preview),
            _ => before,
        }
    }
}

/// A preview for each of a number of rollouts.
pub struct ContentPreviews {
    entries: Vec<(RolloutPath, ThreadSearchPreview)>,
}

impl View for ContentPreviews {
    type V = Map<Seq<Seq<int>>, PreviewView>;

    closed spec fn view(&self) -> Map<Seq<Seq<int>>, PreviewView> {
        entry_map(self.entries@)
    }
}

/// The map that a list of entries stands for.
spec fn entry_map(entries: Seq<(RolloutPath, ThreadSearchPreview)>) -> Map<Seq<Seq<int>>, PreviewView>
    decreases entries.len(),
{
    if entries.len() == 0 {
        Map::empty()
    } else {
        entry_map(entries.drop_last()).insert(entries.last().0@, entries.last().1@)
    }
}

/// No path occurs twice.
spec fn paths_differ(entries: Seq<(RolloutPath, ThreadSearchPreview)>) -> bool {
    forall|i: int, j: int|
        #![trigger entries[i], entries[j]]
        0 <= i < j < entries.len() ==> entries[i].0@ != entries[j].0@
}

/// An entry of a list is an entry of its map.
proof fn lemma_entry_map(entries: Seq<(RolloutPath, ThreadSearchPreview)>, path: Seq<Seq<int>>)
    requires
        paths_differ(entries),
    ensures
        entry_map(entries).contains_key(path) <==> exists|i: int|
            0 <= i < entries.len() && (#[trigger] entries[i]).0@ == path,
        forall|i: int|
            0 <= i < entries.len() && (#[trigger] entries[i]).0@ == path ==> entry_map(entries)[path]
                == entries[i].1@,
    decreases entries.len(),
{
    if entries.len() > 0 {
        let rest = entries.drop_last();
        assert forall|i: int, j: int|
            #![trigger rest[i], rest[j]]
            0 <= i < j < rest.len() implies rest[i].0@ != rest[j].0@ by {
            assert(rest[i] == entries[i] && rest[j] == entries[j]);
        }
        lemma_entry_map(rest, path);
        let last = entries.len() - 1;
        if entry_map(entries).contains_key(path) {
            if entries.last().0@ == path {
                assert(entries[last].0@ == path);
            } else {
                let i = choose|i: int| 0 <= i < rest.len() && (#[trigger] rest[i]).0@ == path;
                assert(entries[i] == rest[i]);
            }
        }
        if exists|i: int| 0 <= i < entries.len() && (#[trigger] entries[i]).0@ == path {
            let i = choose|i: int| 0 <= i < entries.len() && (#[trigger] entries[i]).0@ == path;
            if i < last {
                assert(rest[i] == entries[i]);
            }
        }
        assert forall|i: int|
            0 <= i < entries.len() && (#[trigger] entries[i]).0@ == path implies entry_map(
            entries,
        )[path] == entries[i].1@ by {
            if i < last {
                assert(rest[i] == entries[i]);
                assert(entries[last] == entries.last());
            }
        }
    }
}

impl ContentPreviews {
    /// No rollout has two previews.
    pub closed spec fn well_formed(self) -> bool {
        paths_differ(self.entries@)
    }

    /// No previews.
    pub fn new() -> (previews: Self)
        ensures
            previews.well_formed(),
            previews@ == Map::<Seq<Seq<int>>, PreviewView>::empty(),
    {
        ContentPreviews { entries: Vec::new() }
    }

    /// The preview for the rollout at `path`.
    pub fn get(&self, path: &RolloutPath) -> (preview: Option<&ThreadSearchPreview>)
        requires
            self.well_formed(),
        ensures
            match preview {
                Some(preview) => self@.contains_key(path@) && self@[path@] == preview@,
                None => !self@.contains_key(path@),
            },
    {
        proof {
            lemma_entry_map(self.entries@, path@);
        }
        let mut i: usize = 0;
        while i < self.entries.len()
            invariant
                self.well_formed(),
                i <= self.entries@.len(),
                forall|j: int| 0 <= j < i ==> (#[trigger] self.entries@[j]).0@ != path@,
            decreases self.entries@.len() - i,
        {
            if same_path(&self.entries[i].0, path) {
                proof {
                    lemma_entry_map(self.entries@, path@);
                    assert(self.entries@[i as int].0@ == path@);
                }
                return Some(&self.entries[i].1);
            }
            i = i + 1;
        }
        None
    }

    /// Adds the preview for a rollout that has none.
    fn add_preview(&mut self, path: RolloutPath, preview: ThreadSearchPreview)
        requires
            old(self).well_formed(),
            !old(self)@.contains_key(path@),
        ensures
            final(self).well_formed(),
            final(self)@ == old(self)@.insert(path@, preview@),
    {
        let ghost before = self.entries@;
        proof {
            lemma_entry_map(before, path@);
        }
        self.entries.push((path, preview));
        proof {
            let after = self.entries@;
            assert(after.drop_last() =~= before);
            assert forall|i: int, j: int|
                #![trigger after[i], after[j]]
                0 <= i < j < after.len() implies after[i].0@ != after[j].0@ by {
                assert(after[i] == before[i]);
                if j < before.len() {
                    assert(after[j] == before[j]);
                }
            }
        }
    }
}

/// The first preview that the matches in each rollout give.
pub fn collect_previews(found: Vec<RolloutMatch>, search_term: &str, marker: &str) -> (previews:
    ContentPreviews)
    ensures
        previews.well_formed(),
        previews@ == previews_by_path(found@, search_term@, marker@),
{
    let mut previews = ContentPreviews::new();
    for next in it: found
        invariant
            it.seq() == found@,
            previews.well_formed(),
            previews@ == previews_by_path(
                found@.take(it.index() as int),
                search_term@,
                marker@,
            ),
    {
        let ghost seen = found@.take(it.index() as int);
        assert(found@.take(it.index() + 1) =~= seen.push(next));
        assert(seen.push(next).drop_last() =~= seen);
        if previews.get(&next.path).is_none() {
            if let Some(preview) = content_match_preview(&next.item, search_term, marker) {
                previews.add_preview(next.path, preview);
            }
        }
    }
    assert(found@.take(found@.len() as int) =~= found@);
    previews
}

/// The previews that a run of ripgrep below `root` gives, by rollout.
pub fn ripgrep_rollout_matches(run: RipgrepRun, root: &str, search_term: &str, marker: &str) -> (outcome:
    Result<ContentPreviews, RolloutSearchError>)
    ensures
        match outcome {
            Ok(previews) => {
                &&& run_is_usable(run)
                &&& previews.well_formed()
                &&& exists|found: Seq<RolloutMatch>| #[trigger]
                    resolved_matches(root@, usable_events(run), found) && previews@
                        == previews_by_path(found, search_term@, marker@)
            },
            Err(RolloutSearchError::NotStarted { reason }) => run matches RipgrepRun::NotStarted {
                reason: cause,
            } && reason == cause,
            Err(RolloutSearchError::Failed { message }) => {
                &&& run is Finished
                &&& !run_is_usable(run)
                &&& message@ == "ripgrep rollout search failed under "@ + root@
            },
        },
{
    let events = match run {
        RipgrepRun::RootMissing => Vec::new(),
        RipgrepRun::ProgramMissing => Vec::new(),
        RipgrepRun::NotStarted { reason } => {
            return Err(RolloutSearchError::NotStarted { reason });
        },
        RipgrepRun::Finished { success, code, stderr_empty, events } => {
            if success {
                events
            } else {
                let without_match = match code {
                    Some(code) => code == 1 && stderr_empty,
                    None => false,
                };
                if !without_match {
                    return Err(
                        RolloutSearchError::Failed {
                            message: "ripgrep rollout search failed under ".to_string().concat(root),
                        },
                    );
                }
                Vec::new()
            }
        },
    };
    assert(events@ =~= usable_events(run));
    let found = resolve_matches(root, events);
    Ok(collect_previews(found, search_term, marker))
}

// ---------------------------------------------------------------------------
// Matching threads
// ---------------------------------------------------------------------------

/// A thread that a search found, with context to show for it.
pub struct ThreadSearchItem {
    pub item: ThreadItem,
    pub search_preview: Option<ThreadSearchPreview>,
}

/// What a content search found.
pub struct ThreadSearchMatches {
    search_term: String,
    content_preview_by_path: ContentPreviews,
}

/// Why a thread is among the results of a search.
pub enum MatchReason {
    /// Its rollout holds the search term in what was said.
    Content(PreviewView),
    /// Its title holds the search term.
    Title,
    /// It is not among them.
    NoMatch,
}

/// Why `item` matches a search for `term`, given the previews by path and the
/// titles of threads. What was said goes before the title.
pub open spec fn match_reason(
    previews: Map<Seq<Seq<int>>, PreviewView>,
    term: Seq<char>,
    titles: Map<u128, String>,
    item: ThreadItem,
) -> MatchReason {
    if previews.contains_key(item.path@) {
        MatchReason::Content(previews[item.path@])
    } else if item.thread_id is Some && titles.contains_key(item.thread_id->0) && contains_text(
        titles[item.thread_id->0]@,
        term,
    ) {
        MatchReason::Title
    } else {
        MatchReason::NoMatch
    }
}

/// The results of a search: each thread stands with what its rollout says of
/// how the conversation opens, which only counts for a match by title.
pub open spec fn matching(
    previews: Map<Seq<Seq<int>>, PreviewView>,
    term: Seq<char>,
    titles: Map<u128, String>,
    items: Seq<(ThreadItem, Option<ThreadSearchPreview>)>,
) -> Seq<(ThreadItem, Option<PreviewView>)>
    decreases items.len(),
{
    if items.len() == 0 {
        seq![]
    } else {
        let before = matching(previews, term, titles, items.drop_last());
        let (item, opening) = items.last();
        match match_reason(previews, term, titles, item) {
            MatchReason::Content(preview) => before.push((item, Some(preview))),
            MatchReason::Title => before.push((item, preview_view(opening))),
            MatchReason::NoMatch => before,
        }
    }
}

/// The model of a list of results.
pub open spec fn item_views(items: Seq<ThreadSearchItem>) -> Seq<(ThreadItem, Option<PreviewView>)> {
    items.map_values(|item: ThreadSearchItem| (item.item, preview_view(item.search_preview)))
}

/// `id` is the thread of one of `items`.
pub open spec fn lists_thread(items: Seq<ThreadItem>, id: u128) -> bool {
    exists|i: int| 0 <= i < items.len() && (#[trigger] items[i]).thread_id == Some(id)
}

/// The threads of `items`, each once: those whose titles are worth asking for.
pub fn listed_threads(items: &Vec<ThreadItem>) -> (ids: Vec<u128>)
    ensures
        ids@.no_duplicates(),
        forall|id: u128| ids@.contains(id) <==> lists_thread(items@, id),
{
    let mut ids: Vec<u128> = Vec::new();
    let mut i: usize = 0;
    while i < items.len()
        invariant
            i <= items@.len(),
            ids@.no_duplicates(),
            forall|id: u128| ids@.contains(id) <==> lists_thread(items@.take(i as int), id),
        decreases items@.len() - i,
    {
        let ghost before = ids@;
        let ghost seen = items@.take(i as int);
        let ghost more = items@.take(i + 1);
        if let Some(id) = items[i].thread_id {
            if !has_id(&ids, id) {
                ids.push(id);
            }
        }
        proof {
            assert(more =~= seen.push(items@[i as int]));
            assert(more[i as int] == items@[i as int]);
            assert forall|other: u128| ids@.contains(other) <==> lists_thread(more, other) by {
                if before.contains(other) {
                    let k = choose|k: int| 0 <= k < before.len() && before[k] == other;
                    assert(ids@[k] == other);
                    let j = choose|j: int| 0 <= j < seen.len() && (#[trigger] seen[j]).thread_id == Some(
                        other,
                    );
                    assert(more[j] == seen[j]);
                }
                if lists_thread(more, other) {
                    let j = choose|j: int| 0 <= j < more.len() && (#[trigger] more[j]).thread_id == Some(
                        other,
                    );
                    if j < seen.len() {
                        assert(seen[j] == more[j]);
                        assert(lists_thread(seen, other));
                        assert(before.contains(other));
                    } else if ids@.len() > before.len() {
                        assert(ids@[before.len() as int] == other);
                    }
                }
            }
        }
        i = i + 1;
    }
    assert(items@.take(items@.len() as int) =~= items@);
    ids
}

impl ThreadSearchMatches {
    /// The text that was searched for.
    pub closed spec fn search_term(self) -> Seq<char> {
        self.search_term@
    }

    /// The previews for the rollouts that hold it in what was said.
    pub closed spec fn previews(self) -> Map<Seq<Seq<int>>, PreviewView> {
        self.content_preview_by_path@
    }

    /// No rollout has two previews.
    pub closed spec fn well_formed(self) -> bool {
        self.content_preview_by_path.well_formed()
    }

    /// Takes what running ripgrep below `root` gave.
    pub fn load(root: &str, search_term: &str, marker: &str, run: RipgrepRun) -> (loaded: Result<
        Self,
        RolloutSearchError,
    >)
        ensures
            match loaded {
                Ok(matches) => {
                    &&& run_is_usable(run)
                    &&& matches.well_formed()
                    &&& matches.search_term() == search_term@
                    &&& exists|found: Seq<RolloutMatch>| #[trigger]
                        resolved_matches(root@, usable_events(run), found) && matches.previews()
                            == previews_by_path(found, search_term@, marker@)
                },
                Err(RolloutSearchError::NotStarted { reason }) => run matches RipgrepRun::NotStarted {
                    reason: cause,
                } && reason == cause,
                Err(RolloutSearchError::Failed { message }) => {
                    &&& run is Finished
                    &&& !run_is_usable(run)
                    &&& message@ == "ripgrep rollout search failed under "@ + root@
                },
            },
    {
        match ripgrep_rollout_matches(run, root, search_term, marker) {
            Ok(content_preview_by_path) => Ok(
                ThreadSearchMatches {
                    search_term: search_term.to_string(),
                    content_preview_by_path,
                },
            ),
            Err(error) => Err(error),
        }
    }

    /// The matches in rollouts whose paths are known already.
    pub fn from_matches(search_term: &str, found: Vec<RolloutMatch>, marker: &str) -> (matches: Self)
        ensures
            matches.well_formed(),
            matches.search_term() == search_term@,
            matches.previews() == previews_by_path(found@, search_term@, marker@),
    {
        ThreadSearchMatches {
            search_term: search_term.to_string(),
            content_preview_by_path: collect_previews(found, search_term, marker),
        }
    }

    /// Tests whether the title of `item` holds the search term.
    fn title_matches(&self, titles: &HashMap<u128, String>, item: &ThreadItem) -> (found: bool)
        ensures
            found == (item.thread_id is Some && titles@.contains_key(item.thread_id->0)
                && contains_text(titles@[item.thread_id->0]@, self.search_term())),
    {
        match item.thread_id {
            Some(id) => match titles.get(&id) {
                Some(title) => {
                    let chars = chars_of(title.as_str());
                    has_text(&chars, self.search_term.as_str())
                },
                None => false,
            },
            None => false,
        }
    }

    /// The rollout of `item` is to be read for how its conversation opens: its
    /// title holds the search term, and what was said does not.
    pub fn needs_opening(&self, titles: &HashMap<u128, String>, item: &ThreadItem) -> (needs: bool)
        requires
            self.well_formed(),
        ensures
            needs == (match_reason(self.previews(), self.search_term(), titles@, *item) is Title),
    {
        self.content_preview_by_path.get(&item.path).is_none() && self.title_matches(titles, item)
    }

    /// The results among `items`, in their order. Each item stands with how its
    /// conversation opens, for those that need it.
    pub fn matching_items(
        &self,
        titles: &HashMap<u128, String>,
        items: Vec<(ThreadItem, Option<ThreadSearchPreview>)>,
    ) -> (found: Vec<ThreadSearchItem>)
        requires
            self.well_formed(),
        ensures
            item_views(found@) == matching(self.previews(), self.search_term(), titles@, items@),
    {
        let mut found: Vec<ThreadSearchItem> = Vec::new();
        assert(item_views(found@) =~= seq![]);
        for pair in it: items
            invariant
                it.seq() == items@,
                self.well_formed(),
                item_views(found@) == matching(
                    self.previews(),
                    self.search_term(),
                    titles@,
                    items@.take(it.index() as int),
                ),
        {
            let ghost seen = items@.take(it.index() as int);
            let ghost before = found@;
            assert(items@.take(it.index() + 1) =~= seen.push(pair));
            assert(seen.push(pair).drop_last() =~= seen);
            let (item, opening) = pair;
            let content = match self.content_preview_by_path.get(&item.path) {
                Some(preview) => Some(preview.clone()),
                None => None,
            };
            if content.is_some() {
                found.push(ThreadSearchItem { item, search_preview: content });
                assert(item_views(found@) =~= item_views(before).push(
                    (item, preview_view(content)),
                ));
            } else if self.title_matches(titles, &item) {
                found.push(ThreadSearchItem { item, search_preview: opening });
                assert(item_views(found@) =~= item_views(before).push(
                    (item, preview_view(opening)),
                ));
            }
        }
        assert(items@.take(items@.len() as int) =~= items@);
        found
    }
}

// ---------------------------------------------------------------------------
// Laws
// ---------------------------------------------------------------------------

/// The search term is ripgrep's first positional argument, whatever it looks
/// like: it comes right behind the end of the options.
pub proof fn term_is_no_option(term: Seq<char>, root: Seq<char>)
    ensures
        ripgrep_texts(term, root)[5] == "--"@,
        ripgrep_texts(term, root)[6] == term,
        ripgrep_texts(term, root)[7] == root,
        forall|i: int| 0 <= i < 5 ==> #[trigger] ripgrep_texts(term, root)[i] != "--"@,
{
    reveal_strlit("--json");
    reveal_strlit("--fixed-strings");
    reveal_strlit("--no-ignore");
    reveal_strlit("--glob");
    reveal_strlit("*.jsonl");
    reveal_strlit("--");
    let all = ripgrep_texts(term, root);
    assert("--"@.len() == 2);
    assert(all[0].len() == 6 && all[1].len() == 15 && all[2].len() == 11);
    assert(all[3].len() == 6 && all[4].len() == 7);
    assert forall|i: int| 0 <= i < 5 implies #[trigger] all[i] != "--"@ by {
        assert(i == 0 || i == 1 || i == 2 || i == 3 || i == 4);
    }
}

/// More matches change no preview that there is already: the first one that a
/// rollout gives stays.
pub proof fn first_preview_stays(
    found: Seq<RolloutMatch>,
    more: Seq<RolloutMatch>,
    term: Seq<char>,
    marker: Seq<char>,
)
    ensures
        forall|path: Seq<Seq<int>>| #[trigger]
            previews_by_path(found, term, marker).contains_key(path) ==> {
                &&& previews_by_path(found + more, term, marker).contains_key(path)
                &&& previews_by_path(found + more, term, marker)[path] == previews_by_path(
                    found,
                    term,
                    marker,
                )[path]
            },
    decreases more.len(),
{
    if more.len() == 0 {
        assert(found + more =~= found);
    } else {
        first_preview_stays(found, more.drop_last(), term, marker);
        assert((found + more).drop_last() =~= found + more.drop_last());
    }
}

/// A rollout has a preview exactly if one of the matches in it gives one.
pub proof fn previewed_paths_gave_a_preview(
    found: Seq<RolloutMatch>,
    term: Seq<char>,
    marker: Seq<char>,
    path: Seq<Seq<int>>,
)
    ensures
        previews_by_path(found, term, marker).contains_key(path) <==> exists|i: int|
            #![trigger found[i]]
            0 <= i < found.len() && found[i].path@ == path && content_preview(
                found[i].item,
                term,
                marker,
            ) is Some,
    decreases found.len(),
{
    if found.len() > 0 {
        let rest = found.drop_last();
        let last = found.len() - 1;
        previewed_paths_gave_a_preview(rest, term, marker, path);
        assert(found.last() == found[last]);
        if previews_by_path(rest, term, marker).contains_key(path) {
            let i = choose|i: int|
                #![trigger rest[i]]
                0 <= i < rest.len() && rest[i].path@ == path && content_preview(
                    rest[i].item,
                    term,
                    marker,
                ) is Some;
            assert(found[i] == rest[i]);
        }
        if exists|i: int|
            #![trigger found[i]]
            0 <= i < found.len() && found[i].path@ == path && content_preview(
                found[i].item,
                term,
                marker,
            ) is Some {
            let i = choose|i: int|
                #![trigger found[i]]
                0 <= i < found.len() && found[i].path@ == path && content_preview(
                    found[i].item,
                    term,
                    marker,
                ) is Some;
            if i < last {
                assert(rest[i] == found[i]);
            }
        }
    }
}

/// Two lists of threads give their results one after the other: a search keeps
/// the order of the threads, and no thread bears on another.
pub proof fn results_keep_order(
    previews: Map<Seq<Seq<int>>, PreviewView>,
    term: Seq<char>,
    titles: Map<u128, String>,
    items: Seq<(ThreadItem, Option<ThreadSearchPreview>)>,
    more: Seq<(ThreadItem, Option<ThreadSearchPreview>)>,
)
    ensures
        matching(previews, term, titles, items + more) == matching(previews, term, titles, items)
            + matching(previews, term, titles, more),
    decreases more.len(),
{
    if more.len() == 0 {
        assert(items + more =~= items);
        assert(matching(previews, term, titles, items) + matching(previews, term, titles, more)
            =~= matching(previews, term, titles, items));
    } else {
        results_keep_order(previews, term, titles, items, more.drop_last());
        assert((items + more).drop_last() =~= items + more.drop_last());
        assert(matching(previews, term, titles, items + more) =~= matching(
            previews,
            term,
            titles,
            items,
        ) + matching(previews, term, titles, more));
    }
}

/// A result without a preview of what was said was found by its title.
pub proof fn results_have_a_reason(
    previews: Map<Seq<Seq<int>>, PreviewView>,
    term: Seq<char>,
    titles: Map<u128, String>,
    items: Seq<(ThreadItem, Option<ThreadSearchPreview>)>,
)
    ensures
        forall|k: int|
            #![trigger matching(previews, term, titles, items)[k]]
            0 <= k < matching(previews, term, titles, items).len() ==> {
                let (item, preview) = matching(previews, term, titles, items)[k];
                match match_reason(previews, term, titles, item) {
                    MatchReason::Content(shown) => preview == Some(shown),
                    MatchReason::Title => true,
                    MatchReason::NoMatch => false,
                }
            },
    decreases items.len(),
{
    if items.len() > 0 {
        results_have_a_reason(previews, term, titles, items.drop_last());
        let before = matching(previews, term, titles, items.drop_last());
        let all = matching(previews, term, titles, items);
        assert forall|k: int| #![trigger all[k]] 0 <= k < all.len() implies {
            let (item, preview) = all[k];
            match match_reason(previews, term, titles, item) {
                MatchReason::Content(shown) => preview == Some(shown),
                MatchReason::Title => true,
                MatchReason::NoMatch => false,
            }
        } by {
            if k < before.len() {
                assert(all[k] == before[k]);
            }
        }
    }
}

} // verus!
