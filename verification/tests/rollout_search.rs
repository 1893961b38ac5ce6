use std::collections::HashMap;

use codex_recall::conversation::{EventMsg, RolloutItem, ThreadSearchPreview};
use codex_recall::rollout_path::RolloutPath;
use codex_recall::rollout_search::{
    ContentPreviews, MatchedLine, RipgrepEvent, RipgrepMatchData, RipgrepRun, RolloutMatch,
    RolloutSearchError, SessionDirs, ThreadSearchMatches, collect_previews, listed_threads,
    resolve_matches, ripgrep_arguments, ripgrep_rollout_matches, search_root,
};
use codex_recall::thread_item::ThreadItem;

const MARKER: &str = "## My request:";

fn said(message: &str) -> RolloutItem {
    RolloutItem::EventMsg(EventMsg::UserMessage {
        message: message.to_string(),
    })
}

fn event(path: Option<&str>, line: Option<Option<RolloutItem>>) -> Option<RipgrepEvent> {
    Some(RipgrepEvent::Match {
        data: RipgrepMatchData {
            path: path.map(str::to_string),
            line: line.map(|item| MatchedLine { item }),
        },
    })
}

fn found(path: &str, item: Option<RolloutItem>) -> RolloutMatch {
    RolloutMatch {
        path: RolloutPath::new(path),
        item,
    }
}

fn snippet(text: &str) -> ThreadSearchPreview {
    ThreadSearchPreview::ContentMatch {
        snippet: text.to_string(),
    }
}

fn item(record: usize, path: &str, thread_id: Option<u128>) -> ThreadItem {
    ThreadItem {
        record,
        path: RolloutPath::new(path),
        thread_id,
        source: None,
        created_at: None,
        updated_at: None,
    }
}

fn finished(success: bool, code: Option<i32>, stderr_empty: bool) -> RipgrepRun {
    RipgrepRun::Finished {
        success,
        code,
        stderr_empty,
        events: vec![event(
            Some("/r/a.jsonl"),
            Some(Some(said("the needle"))),
        )],
    }
}

fn preview(previews: &ContentPreviews, path: &str) -> Option<ThreadSearchPreview> {
    previews.get(&RolloutPath::new(path)).cloned()
}

#[test]
fn ripgrep_is_told_what_to_do() {
    assert_eq!(
        ripgrep_arguments("--help", "/home/sessions"),
        vec![
            "--json",
            "--fixed-strings",
            "--no-ignore",
            "--glob",
            "*.jsonl",
            "--",
            "--help",
            "/home/sessions",
        ]
    );
}

#[test]
fn archived_sessions_have_their_own_directory() {
    let dirs = SessionDirs {
        sessions: "sessions".to_string(),
        archived_sessions: "archived_sessions".to_string(),
    };
    let expected = std::path::Path::new("/home").join("sessions");
    assert_eq!(
        search_root("/home", false, &dirs),
        expected.to_string_lossy()
    );
    let expected = std::path::Path::new("/home").join("archived_sessions");
    assert_eq!(
        search_root("/home", true, &dirs),
        expected.to_string_lossy()
    );
}

#[test]
fn matches_are_resolved_below_the_root() {
    let matches = resolve_matches(
        "/r",
        vec![
            event(Some("/r/a.jsonl"), Some(None)),
            event(Some("b.jsonl"), Some(Some(said("x")))),
            event(None, Some(None)),
            event(Some("/r/c.jsonl"), None),
            Some(RipgrepEvent::Other),
            None,
        ],
    );
    assert_eq!(matches.len(), 2);
    assert_eq!(matches[0].path.text, "/r/a.jsonl");
    assert!(matches[0].item.is_none());
    assert_eq!(
        matches[1].path.text,
        std::path::Path::new("/r").join("b.jsonl").to_string_lossy()
    );
    assert!(matches[1].item.is_some());
}

#[test]
fn the_first_preview_of_a_rollout_counts() {
    let previews = collect_previews(
        vec![
            found("/r/a.jsonl", None),
            found("/r/a.jsonl", Some(said("no such word"))),
            found("/r/a.jsonl", Some(said("first needle"))),
            found("/r//a.jsonl", Some(said("second needle"))),
            found("/r/b.jsonl", Some(RolloutItem::SessionMeta)),
            found("/r/c.jsonl", Some(said("needle three"))),
        ],
        "needle",
        MARKER,
    );
    assert_eq!(preview(&previews, "/r/a.jsonl"), Some(snippet("first needle")));
    assert_eq!(preview(&previews, "/r/b.jsonl"), None);
    assert_eq!(preview(&previews, "/r/c.jsonl"), Some(snippet("needle three")));
}

#[test]
fn runs_without_anything_to_find_are_empty() {
    for run in [
        RipgrepRun::RootMissing,
        RipgrepRun::ProgramMissing,
        finished(false, Some(1), true),
    ] {
        let previews = match ripgrep_rollout_matches(run, "/r", "needle", MARKER) {
            Ok(previews) => previews,
            Err(_) => panic!("nothing to find is no failure"),
        };
        assert_eq!(preview(&previews, "/r/a.jsonl"), None);
    }
}

#[test]
fn runs_that_succeed_give_previews() {
    let previews = match ripgrep_rollout_matches(finished(true, Some(0), true), "/r", "needle", MARKER) {
        Ok(previews) => previews,
        Err(_) => panic!("this run succeeded"),
    };
    assert_eq!(preview(&previews, "/r/a.jsonl"), Some(snippet("the needle")));
}

#[test]
fn runs_that_fail_are_errors() {
    for run in [
        finished(false, Some(1), false),
        finished(false, Some(2), true),
        finished(false, None, true),
    ] {
        match ripgrep_rollout_matches(run, "/r", "needle", MARKER) {
            Err(RolloutSearchError::Failed { message }) => {
                assert_eq!(message, "ripgrep rollout search failed under /r");
            }
            _ => panic!("this run failed"),
        }
    }
    let run = RipgrepRun::NotStarted {
        reason: "no permission".to_string(),
    };
    match ThreadSearchMatches::load("/r", "needle", MARKER, run) {
        Err(RolloutSearchError::NotStarted { reason }) => assert_eq!(reason, "no permission"),
        _ => panic!("this run did not start"),
    }
}

#[test]
fn threads_match_by_content_or_title() {
    let matches = match ThreadSearchMatches::load(
        "/r",
        "needle",
        MARKER,
        finished(true, Some(0), true),
    ) {
        Ok(matches) => matches,
        Err(_) => panic!("this run succeeded"),
    };
    let titles = HashMap::from([
        (1, "needle in the title".to_string()),
        (2, "needle too".to_string()),
        (3, "something else".to_string()),
    ]);
    let opening = ThreadSearchPreview::Conversation {
        user_message: "q".to_string(),
        assistant_message: None,
    };
    let items = vec![
        item(10, "/r/z.jsonl", None),
        item(11, "/r/a.jsonl", Some(1)),
        item(12, "/r/b.jsonl", Some(2)),
        item(13, "/r/c.jsonl", Some(3)),
        item(14, "/r/d.jsonl", Some(4)),
    ];
    assert_eq!(listed_threads(&items), vec![1, 2, 3, 4]);
    let needed: Vec<usize> = items
        .iter()
        .filter(|item| matches.needs_opening(&titles, item))
        .map(|item| item.record)
        .collect();
    assert_eq!(needed, vec![12]);

    let results = matches.matching_items(
        &titles,
        items
            .into_iter()
            .map(|item| (item, Some(opening.clone())))
            .collect(),
    );
    let results: Vec<(usize, Option<ThreadSearchPreview>)> = results
        .into_iter()
        .map(|result| (result.item.record, result.search_preview))
        .collect();
    assert_eq!(
        results,
        vec![(11, Some(snippet("the needle"))), (12, Some(opening))]
    );
}

#[test]
fn title_matches_may_lack_an_opening() {
    let matches = ThreadSearchMatches::from_matches("needle", Vec::new(), MARKER);
    let titles = HashMap::from([(1, "a needle".to_string())]);
    let results = matches.matching_items(&titles, vec![(item(0, "/r/a.jsonl", Some(1)), None)]);
    assert_eq!(results.len(), 1);
    assert_eq!(results[0].search_preview, None);
}

#[test]
fn threads_are_listed_once() {
    let items = vec![
        item(0, "a", Some(7)),
        item(1, "b", None),
        item(2, "c", Some(7)),
        item(3, "d", Some(5)),
    ];
    assert_eq!(listed_threads(&items), vec![7, 5]);
}

#[test]
fn results_of_two_lists_follow_one_another() {
    let matches = ThreadSearchMatches::from_matches(
        "needle",
        vec![found("/r/a.jsonl", Some(said("a needle")))],
        MARKER,
    );
    let titles = HashMap::from([(2, "needle".to_string())]);
    let first = || vec![(item(1, "/r/a.jsonl", None), None), (item(2, "/r/x.jsonl", None), None)];
    let second = || vec![(item(3, "/r/b.jsonl", Some(2)), None), (item(4, "/r/a.jsonl", Some(9)), None)];
    let records = |items: Vec<(ThreadItem, Option<ThreadSearchPreview>)>| -> Vec<usize> {
        matches
            .matching_items(&titles, items)
            .iter()
            .map(|result| result.item.record)
            .collect()
    };
    let mut apart = records(first());
    apart.extend(records(second()));
    let mut both = first();
    both.extend(second());
    assert_eq!(records(both), apart);
    assert_eq!(apart, vec![1, 3, 4]);
}
