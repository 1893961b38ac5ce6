use codex_recall::rollout_path::RolloutPath;
use codex_recall::thread_item::{
    Cursor, RecordedTime, SortDirection, ThreadItem, ThreadSortKey, cursor_from_thread_item,
};
use codex_recall::thread_page::{ResultNames, StoredThread, empty_page, result_page};
use codex_recall::thread_search::{
    Candidate, MatchedPage, PageScan, SearchThreadsParams, ThreadStoreError, accept_search,
    search_failed, select_candidates,
};

fn params(search_term: &str, page_size: usize) -> SearchThreadsParams {
    SearchThreadsParams {
        page_size,
        cursor: None,
        sort_key: ThreadSortKey::CreatedAt,
        sort_direction: SortDirection::Desc,
        allowed_sources: Vec::new(),
        archived: false,
        search_term: search_term.to_string(),
    }
}

fn cursor(timestamp: i128) -> Cursor {
    Cursor {
        timestamp,
        token: Some(format!("t{timestamp}")),
    }
}

fn time(timestamp: i128) -> Option<RecordedTime> {
    Some(RecordedTime {
        cursor: Some(cursor(timestamp)),
    })
}

fn thread(record: usize, path: &str, created: i128) -> Option<ThreadItem> {
    Some(ThreadItem {
        record,
        path: RolloutPath::new(path),
        thread_id: Some(record as u128),
        source: Some("cli".to_string()),
        created_at: time(created),
        updated_at: None,
    })
}

fn records(candidates: &[Candidate]) -> Vec<usize> {
    candidates.iter().map(|found| found.item.record).collect()
}

fn page_of(
    params: &SearchThreadsParams,
    candidates: Vec<Candidate>,
    snippet: impl Fn(&ThreadItem) -> Option<String>,
) -> (usize, MatchedPage) {
    let mut scan = PageScan::new(candidates, params.page_size);
    let mut read = 0;
    while let Some(item) = scan.next_read() {
        let answer = snippet(item);
        read += 1;
        assert!(scan.offer(Ok(answer)).is_ok());
    }
    (read, scan.finish(params.sort_key))
}

#[test]
fn requests_need_a_search_term() {
    match accept_search(&params("", 10), None) {
        Err(ThreadStoreError::InvalidRequest { message }) => {
            assert_eq!(message, "thread/search requires search_term");
        }
        _ => panic!("a search term is needed"),
    }
}

#[test]
fn requests_need_a_valid_cursor() {
    let mut request = params("needle", 10);
    assert!(matches!(accept_search(&request, None), Ok(None)));
    request.cursor = Some("garbage".to_string());
    match accept_search(&request, None) {
        Err(ThreadStoreError::InvalidRequest { message }) => {
            assert_eq!(message, "invalid cursor: garbage");
        }
        _ => panic!("the cursor is invalid"),
    }
    match accept_search(&request, Some(cursor(5))) {
        Ok(Some(accepted)) => assert_eq!(accepted.timestamp, 5),
        _ => panic!("the cursor is valid"),
    }
    request.search_term = String::new();
    match accept_search(&request, None) {
        Err(ThreadStoreError::InvalidRequest { message }) => {
            assert_eq!(message, "thread/search requires search_term");
        }
        _ => panic!("the search term goes first"),
    }
}

#[test]
fn failures_are_internal_errors() {
    match search_failed("no rg") {
        ThreadStoreError::Internal { message } => {
            assert_eq!(message, "failed to search rollout contents: no rg");
        }
        _ => panic!("this is an internal error"),
    }
    let mut scan = PageScan::new(
        select_candidates(&params("x", 1), &None, vec![thread(0, "a", 1)]),
        1,
    );
    match scan.offer(Err("gone".to_string())) {
        Err(ThreadStoreError::Internal { message }) => {
            assert_eq!(message, "failed to read rollout search match: gone");
        }
        _ => panic!("this is an internal error"),
    }
}

#[test]
fn candidates_are_sorted_by_time_and_path() {
    let items = || {
        vec![
            thread(0, "/s/b", 2),
            None,
            thread(1, "/s/a", 2),
            thread(2, "/s/c", 1),
            thread(3, "/s/d", 3),
        ]
    };
    let mut request = params("x", 10);
    assert_eq!(
        records(&select_candidates(&request, &None, items())),
        vec![3, 0, 1, 2]
    );
    request.sort_direction = SortDirection::Asc;
    assert_eq!(
        records(&select_candidates(&request, &None, items())),
        vec![2, 1, 0, 3]
    );
}

#[test]
fn equal_candidates_keep_their_order() {
    let items = || vec![thread(5, "/s/a", 1), thread(3, "/s//a", 1), thread(4, "/s/a", 1)];
    for direction in [SortDirection::Asc, SortDirection::Desc] {
        let mut request = params("x", 10);
        request.sort_direction = direction;
        assert_eq!(
            records(&select_candidates(&request, &None, items())),
            vec![5, 3, 4]
        );
    }
}

#[test]
fn candidates_lie_behind_the_cursor() {
    let items = || vec![thread(1, "a", 1), thread(2, "b", 2), thread(3, "c", 3)];
    let mut request = params("x", 10);
    assert_eq!(
        records(&select_candidates(&request, &Some(cursor(2)), items())),
        vec![1]
    );
    request.sort_direction = SortDirection::Asc;
    assert_eq!(
        records(&select_candidates(&request, &Some(cursor(2)), items())),
        vec![3]
    );
}

#[test]
fn candidates_come_from_allowed_sources() {
    let mut nameless = thread(9, "n", 9);
    if let Some(item) = &mut nameless {
        item.source = None;
    }
    let mut request = params("x", 10);
    request.allowed_sources = vec!["vscode".to_string()];
    assert!(select_candidates(&request, &None, vec![thread(1, "a", 1)]).is_empty());
    request.allowed_sources.push("cli".to_string());
    assert_eq!(
        records(&select_candidates(
            &request,
            &None,
            vec![thread(1, "a", 1), nameless]
        )),
        vec![1]
    );
}

#[test]
fn candidates_need_a_usable_time() {
    let mut untimed = thread(1, "a", 1);
    let mut garbled = thread(2, "b", 1);
    if let (Some(untimed), Some(garbled)) = (&mut untimed, &mut garbled) {
        untimed.created_at = None;
        garbled.created_at = Some(RecordedTime { cursor: None });
    }
    assert!(select_candidates(&params("x", 10), &None, vec![untimed, garbled]).is_empty());
}

#[test]
fn updates_fall_back_to_creation() {
    let mut item = match thread(1, "a", 4) {
        Some(item) => item,
        None => unreachable!(),
    };
    let at = |item: &ThreadItem, key| cursor_from_thread_item(item, key).map(|at| at.timestamp);
    assert_eq!(at(&item, ThreadSortKey::UpdatedAt), Some(4));
    item.updated_at = time(8);
    assert_eq!(at(&item, ThreadSortKey::UpdatedAt), Some(8));
    assert_eq!(at(&item, ThreadSortKey::CreatedAt), Some(4));
    item.updated_at = Some(RecordedTime { cursor: None });
    assert_eq!(at(&item, ThreadSortKey::UpdatedAt), None);
}

#[test]
fn pages_hold_matches_in_order() {
    let request = params("x", 2);
    let items = vec![
        thread(1, "a", 1),
        thread(2, "b", 2),
        thread(3, "c", 3),
        thread(4, "d", 4),
        thread(5, "e", 5),
    ];
    let candidates = select_candidates(&request, &None, items);
    let (read, page) = page_of(&request, candidates, |item| {
        (item.record != 4).then_some(format!("s{}", item.record))
    });
    // One match more than fits the page is looked for.
    assert_eq!(read, 4);
    let shown: Vec<(usize, String)> = page
        .items
        .into_iter()
        .map(|found| (found.item.record, found.snippet))
        .collect();
    assert_eq!(shown, vec![(5, "s5".to_string()), (3, "s3".to_string())]);
    assert_eq!(page.next_cursor, Some("t3".to_string()));
}

#[test]
fn last_pages_have_no_cursor() {
    let request = params("x", 2);
    let candidates = select_candidates(
        &request,
        &None,
        vec![thread(1, "a", 1), thread(2, "b", 2)],
    );
    let (read, page) = page_of(&request, candidates, |_| Some(String::new()));
    assert_eq!(read, 2);
    assert_eq!(page.items.len(), 2);
    assert_eq!(page.next_cursor, None);
}

#[test]
fn pages_follow_one_another() {
    let mut request = params("x", 1);
    let items = || {
        vec![
            thread(1, "a", 1),
            thread(2, "b", 2),
            thread(3, "c", 3),
        ]
    };
    let mut seen = Vec::new();
    let mut from = None;
    loop {
        let candidates = select_candidates(&request, &from, items());
        let (_, page) = page_of(&request, candidates, |_| Some(String::new()));
        for found in &page.items {
            seen.push(found.item.record);
        }
        match page.next_cursor {
            Some(token) => {
                let timestamp = token[1..].parse().expect("a number");
                request.cursor = Some(token);
                from = Some(cursor(timestamp));
            }
            None => break,
        }
    }
    assert_eq!(seen, vec![3, 2, 1]);
}

/// Reads a listing page by page: the records and how many pages it took.
fn walk(
    request: &SearchThreadsParams,
    items: impl Fn() -> Vec<Option<ThreadItem>>,
    snippet: impl Fn(&ThreadItem) -> Option<String>,
) -> (Vec<usize>, usize) {
    let mut seen = Vec::new();
    let mut pages = 0;
    let mut from = None;
    loop {
        let candidates = select_candidates(request, &from, items());
        let (_, page) = page_of(request, candidates, &snippet);
        pages += 1;
        seen.extend(page.items.iter().map(|found| found.item.record));
        match page.next_cursor {
            Some(token) => from = Some(cursor(token[1..].parse().expect("a number"))),
            None => return (seen, pages),
        }
    }
}

#[test]
fn pages_make_up_the_listing() {
    let snippet = |item: &ThreadItem| (item.record % 3 != 0).then_some(String::new());
    for total in 0..12 {
        let items = || (0..total).map(|n| thread(n, "p", n as i128 * 7 % 12)).collect();
        for direction in [SortDirection::Asc, SortDirection::Desc] {
            let mut request = params("x", 100);
            request.sort_direction = direction;
            let (whole, once) = walk(&request, items, snippet);
            assert_eq!(once, 1);
            for page_size in 1..6 {
                request.page_size = page_size;
                let (seen, pages) = walk(&request, items, snippet);
                assert_eq!(seen, whole);
                assert_eq!(pages, whole.len().div_ceil(page_size).max(1));
            }
        }
    }
}

#[test]
fn matches_of_one_instant_may_fall_between_pages() {
    let items = || vec![thread(1, "a", 5), thread(2, "b", 5), thread(3, "c", 4)];
    let (seen, pages) = walk(&params("x", 1), items, |_| Some(String::new()));
    assert_eq!(seen, vec![2, 3]);
    assert_eq!(pages, 2);
}

#[test]
fn empty_pages_have_no_cursor_to_start_from() {
    let request = params("x", 0);
    let candidates = select_candidates(&request, &None, vec![thread(1, "a", 1)]);
    let (read, page) = page_of(&request, candidates, |_| Some(String::new()));
    assert_eq!(read, 1);
    assert!(page.items.is_empty());
    assert_eq!(page.next_cursor, None);
    let page = empty_page();
    assert!(page.items.is_empty());
    assert_eq!(page.next_cursor, None);
}

fn results(ids: &[u128]) -> Vec<(codex_recall::thread_search::ThreadSearchItem, Option<StoredThread>)> {
    ids.iter()
        .map(|id| {
            let item = match thread(*id as usize, "p", 1) {
                Some(item) => item,
                None => unreachable!(),
            };
            let stored = (*id != 13).then_some(StoredThread {
                thread_id: *id,
                record: *id as usize,
            });
            (
                codex_recall::thread_search::ThreadSearchItem {
                    item,
                    snippet: format!("s{id}"),
                },
                stored,
            )
        })
        .collect()
}

#[test]
fn pages_hold_threads_that_load() {
    let page = result_page(results(&[7, 13, 8]), Some("next".to_string()));
    let shown: Vec<(u128, String)> = page
        .items
        .into_iter()
        .map(|result| (result.thread.thread_id, result.snippet))
        .collect();
    assert_eq!(shown, vec![(7, "s7".to_string()), (8, "s8".to_string())]);
    assert_eq!(page.next_cursor, Some("next".to_string()));
}

#[test]
fn state_titles_go_before_legacy_titles() {
    let page = result_page(results(&[7, 8, 7]), None);
    let mut names = ResultNames::new(&page.items);
    assert_eq!(names.thread_ids(), &vec![7, 8]);
    names.set_title(7, "from state".to_string());
    names.set_title(99, "not on the page".to_string());
    assert!(names.wants_legacy_names());
    names.add_legacy_title(7, "older".to_string());
    names.add_legacy_title(8, "only older".to_string());
    names.add_legacy_title(99, "not on the page".to_string());
    assert!(!names.wants_legacy_names());
    assert_eq!(names.title_for(7), Some("from state".to_string()));
    assert_eq!(names.title_for(8), Some("only older".to_string()));
    assert_eq!(names.title_for(99), None);
}

#[test]
fn complete_titles_need_no_index() {
    let page = result_page(results(&[7]), None);
    let mut names = ResultNames::new(&page.items);
    assert!(names.wants_legacy_names());
    names.set_title(7, "t".to_string());
    assert!(!names.wants_legacy_names());
    assert!(!ResultNames::new(&Vec::new()).wants_legacy_names());
}

#[test]
fn search_threads_reads_matching_rollout_paths_not_state_db_listing() {
    let request = SearchThreadsParams {
        page_size: 10,
        cursor: None,
        sort_key: ThreadSortKey::CreatedAt,
        sort_direction: SortDirection::Desc,
        allowed_sources: Vec::new(),
        archived: false,
        search_term: "needle".to_string(),
    };
    let accepted = match accept_search(&request, None) {
        Ok(accepted) => accepted,
        Err(_) => panic!("thread search"),
    };
    let path = "/home/sessions/2025/01/03/rollout-2025-01-03T12-00-00-1.jsonl";
    let candidates = select_candidates(&request, &accepted, vec![thread(1, path, 1735905600)]);
    let (_, page) = page_of(&request, candidates, |_| Some("needle from rollout".to_string()));
    let stored = page
        .items
        .into_iter()
        .map(|found| {
            let thread_id = found.item.thread_id.expect("valid thread id");
            let record = found.item.record;
            (found, Some(StoredThread { thread_id, record }))
        })
        .collect();
    let page = result_page(stored, page.next_cursor);

    assert_eq!(
        page.items
            .iter()
            .map(|item| item.thread.thread_id)
            .collect::<Vec<_>>(),
        vec![1]
    );
    assert_eq!(page.items[0].snippet, "needle from rollout");
}
