//! What holds of every search of rollouts.
use vstd::prelude::*;

use crate::conversation::{PreviewView, ThreadSearchPreview, content_preview, preview_view};
use crate::rollout_path::resolves;
use crate::rollout_search::{
    RipgrepEvent, RipgrepRun, RolloutMatch, lists_thread, match_parts, match_reason, matching,
    previews_by_path, resolved_matches, ripgrep_texts, run_is_usable, usable_events,
};
use crate::text::contains_text;
use crate::thread_item::ThreadItem;

verus! {

// ---------------------------------------------------------------------------
// Running ripgrep
// ---------------------------------------------------------------------------

/// ripgrep looks for the term as it stands, in every rollout below the root,
/// ignored or not, and reports in JSON.
pub proof fn ripgrep_looks_at_every_rollout(term: Seq<char>, root: Seq<char>)
    ensures
        ripgrep_texts(term, root).len() == 8,
        ripgrep_texts(term, root).take(5).contains("--json"@),
        ripgrep_texts(term, root).take(5).contains("--fixed-strings"@),
        ripgrep_texts(term, root).take(5).contains("--no-ignore"@),
        exists|i: int|
            0 <= i < 4 && #[trigger] ripgrep_texts(term, root)[i] == "--glob"@ && ripgrep_texts(
                term,
                root,
            )[i + 1] == "*.jsonl"@,
{
    let all = ripgrep_texts(term, root);
    let options = all.take(5);
    assert(options[0] == "--json"@);
    assert(options[1] == "--fixed-strings"@);
    assert(options[2] == "--no-ignore"@);
    assert(all[3] == "--glob"@ && all[4] == "*.jsonl"@);
}

/// A search fails exactly if ripgrep could not be started, or ended without
/// success in another way than by finding nothing: with the exit code 1 and no
/// word of complaint. Without a directory or without ripgrep nothing is found,
/// which is no failure.
pub proof fn searches_fail_with_ripgrep(run: RipgrepRun)
    ensures
        !run_is_usable(run) <==> match run {
            RipgrepRun::RootMissing => false,
            RipgrepRun::ProgramMissing => false,
            RipgrepRun::NotStarted { .. } => true,
            RipgrepRun::Finished { success, code, stderr_empty, .. } => !success && !(code
                == Some(1i32) && stderr_empty),
        },
        run matches RipgrepRun::Finished { success, events, .. } ==> success ==> usable_events(run)
            == events@,
        run_is_usable(run) && !(run matches RipgrepRun::Finished { success, .. } && success)
            ==> usable_events(run).len() == 0,
{
}

/// `event` reports a match in a rollout whose path is text, on a line that is
/// text.
pub open spec fn reports_a_match(event: Option<RipgrepEvent>) -> bool {
    match event {
        Some(RipgrepEvent::Match { data }) => data.path is Some && data.line is Some,
        _ => false,
    }
}

/// The places of the events that report a match.
pub open spec fn match_places(events: Seq<Option<RipgrepEvent>>) -> Seq<int>
    decreases events.len(),
{
    if events.len() == 0 {
        seq![]
    } else if reports_a_match(events.last()) {
        match_places(events.drop_last()).push(events.len() - 1)
    } else {
        match_places(events.drop_last())
    }
}

/// `found` is the match that `event` reports: what its line records, in the
/// rollout at its path.
pub open spec fn is_match_of(
    root: Seq<char>,
    event: Option<RipgrepEvent>,
    found: RolloutMatch,
) -> bool {
    match event {
        Some(RipgrepEvent::Match { data }) => {
            &&& data.line is Some && found.item == data.line->0.item
            &&& data.path is Some && resolves(root, data.path->0@, found.path)
        },
        _ => false,
    }
}

/// Every match that ripgrep reports is taken, in order, with what its line
/// records and under its path; nothing else that it prints is.
pub proof fn reported_matches_are_taken(
    root: Seq<char>,
    events: Seq<Option<RipgrepEvent>>,
    found: Seq<RolloutMatch>,
    i: int,
)
    requires
        resolved_matches(root, events, found),
    ensures
        found.len() == match_places(events).len(),
        0 <= i < found.len() ==> 0 <= match_places(events)[i] < events.len() && is_match_of(
            root,
            events[match_places(events)[i]],
            found[i],
        ),
    decreases events.len(),
{
    if events.len() > 0 {
        let rest = events.drop_last();
        let places = match_places(rest);
        if match_parts(events.last()) is Some {
            let before = found.drop_last();
            reported_matches_are_taken(root, rest, before, i);
            assert(match_places(events) == places.push(events.len() - 1));
            if 0 <= i < before.len() {
                assert(found[i] == before[i]);
                assert(rest[places[i]] == events[places[i]]);
            }
        } else {
            reported_matches_are_taken(root, rest, found, i);
            assert(match_places(events) == places);
            if 0 <= i < found.len() {
                assert(rest[places[i]] == events[places[i]]);
            }
        }
    }
}

// ---------------------------------------------------------------------------
// Previews
// ---------------------------------------------------------------------------

/// A rollout is shown by the first of its matches that gives a preview.
pub proof fn previews_show_the_first_match(
    found: Seq<RolloutMatch>,
    term: Seq<char>,
    marker: Seq<char>,
    i: int,
)
    requires
        0 <= i < found.len(),
        content_preview(found[i].item, term, marker) is Some,
        forall|k: int|
            0 <= k < i && (#[trigger] found[k]).path@ == found[i].path@ ==> content_preview(
                found[k].item,
                term,
                marker,
            ) is None,
    ensures
        previews_by_path(found, term, marker).contains_key(found[i].path@),
        Some(previews_by_path(found, term, marker)[found[i].path@]) == content_preview(
            found[i].item,
            term,
            marker,
        ),
    decreases found.len(),
{
    let rest = found.drop_last();
    let path = found[i].path@;
    if i < rest.len() {
        assert forall|k: int| 0 <= k < i && (#[trigger] rest[k]).path@ == path implies
            content_preview(rest[k].item, term, marker) is None by {
            assert(found[k] == rest[k]);
        }
        previews_show_the_first_match(rest, term, marker, i);
    } else {
        lemma_no_preview_yet(rest, term, marker, path);
        assert(found.last() == found[i]);
    }
}

proof fn lemma_no_preview_yet(
    found: Seq<RolloutMatch>,
    term: Seq<char>,
    marker: Seq<char>,
    path: Seq<Seq<int>>,
)
    requires
        forall|k: int|
            0 <= k < found.len() && (#[trigger] found[k]).path@ == path ==> content_preview(
                found[k].item,
                term,
                marker,
            ) is None,
    ensures
        !previews_by_path(found, term, marker).contains_key(path),
    decreases found.len(),
{
    if found.len() > 0 {
        let rest = found.drop_last();
        assert forall|k: int| 0 <= k < rest.len() && (#[trigger] rest[k]).path@ == path implies
            content_preview(rest[k].item, term, marker) is None by {
            assert(found[k] == rest[k]);
        }
        lemma_no_preview_yet(rest, term, marker, path);
        assert(found.last() == found[found.len() - 1]);
    }
}

// ---------------------------------------------------------------------------
// Results
// ---------------------------------------------------------------------------

/// A thread is a result exactly if its rollout has a preview or its title holds
/// the term. It is shown with that preview; without one, with how its
/// conversation opens.
pub proof fn threads_match_by_content_or_title(
    previews: Map<Seq<Seq<int>>, PreviewView>,
    term: Seq<char>,
    titles: Map<u128, String>,
    item: ThreadItem,
    opening: Option<ThreadSearchPreview>,
)
    ensures
        ({
            let found = matching(previews, term, titles, seq![(item, opening)]);
            let titled = match item.thread_id {
                Some(id) => titles.contains_key(id) && contains_text(titles[id]@, term),
                None => false,
            };
            &&& found.len() == if previews.contains_key(item.path@) || titled {
                1nat
            } else {
                0nat
            }
            &&& found.len() == 1 ==> found[0].0 == item
            &&& previews.contains_key(item.path@) ==> found[0].1 == Some(previews[item.path@])
            &&& !previews.contains_key(item.path@) && titled ==> found[0].1 == preview_view(
                opening,
            )
        }),
        matching(previews, term, titles, seq![]).len() == 0,
{
    let none: Seq<(ThreadItem, Option<ThreadSearchPreview>)> = seq![];
    assert(seq![(item, opening)].drop_last() =~= none);
    assert(matching(previews, term, titles, none) =~= seq![]);
}

/// A rollout is read for how its conversation opens exactly if the thread is
/// found by its title alone.
pub proof fn openings_are_for_titles(
    previews: Map<Seq<Seq<int>>, PreviewView>,
    term: Seq<char>,
    titles: Map<u128, String>,
    item: ThreadItem,
)
    ensures
        match_reason(previews, term, titles, item) is Title <==> {
            &&& !previews.contains_key(item.path@)
            &&& match item.thread_id {
                Some(id) => titles.contains_key(id) && contains_text(titles[id]@, term),
                None => false,
            }
        },
{
}

/// A preview is what it shows.
pub proof fn previews_are_what_they_show(preview: ThreadSearchPreview)
    ensures
        preview_view(None) is None,
        preview_view(Some(preview)) == Some(preview@),
        match preview {
            ThreadSearchPreview::ContentMatch { snippet } => preview@
                == (PreviewView::ContentMatch { snippet: snippet@ }),
            ThreadSearchPreview::Conversation { user_message, assistant_message } => {
                &&& preview@ matches PreviewView::Conversation {
                    user_message: asked,
                    assistant_message: replied,
                }
                &&& asked == user_message@
                &&& replied == match assistant_message {
                    Some(text) => Some(text@),
                    None => None,
                }
            },
        },
{
}

/// The titles that are asked for are those of the threads in the list.
pub proof fn titles_are_asked_for_all(items: Seq<ThreadItem>, id: u128)
    ensures
        lists_thread(items, id) <==> exists|i: int|
            #![trigger items[i]]
            0 <= i < items.len() && items[i].thread_id == Some(id),
{
}

} // verus!
