//! What is known of a recorded thread before its rollout is read in full.
use vstd::prelude::*;

use crate::rollout_path::RolloutPath;

verus! {

/// A point in time at which a listing can continue.
pub struct Cursor {
    /// The instant, as a count of nanoseconds.
    pub timestamp: i128,
    /// The text by which a client hands the cursor back, where it has one.
    pub token: Option<String>,
}

impl View for Cursor {
    type V = (int, Option<Seq<char>>);

    open spec fn view(&self) -> (int, Option<Seq<char>>) {
        (self.timestamp as int, token_text(self.token))
    }
}

/// The text of an optional token.
pub open spec fn token_text(token: Option<String>) -> Option<Seq<char>> {
    match token {
        Some(token) => Some(token@),
        None => None,
    }
}

/// A copy of an optional text.
pub fn copy_token(token: &Option<String>) -> (copy: Option<String>)
    ensures
        token_text(copy) == token_text(*token),
{
    match token {
        Some(token) => Some(token.clone()),
        None => None,
    }
}

/// A time noted in a rollout; without a cursor where the note does not parse.
pub struct RecordedTime {
    pub cursor: Option<Cursor>,
}

/// A recorded thread, as a listing sees it.
pub struct ThreadItem {
    /// The caller's number for the full record of the thread.
    pub record: usize,
    pub path: RolloutPath,
    /// The thread's UUID as a number.
    pub thread_id: Option<u128>,
    /// Where the session came from.
    pub source: Option<String>,
    pub created_at: Option<RecordedTime>,
    pub updated_at: Option<RecordedTime>,
}

/// The time by which a listing sorts.
#[derive(Clone, Copy, PartialEq, Eq, Structural, Debug)]
pub enum ThreadSortKey {
    CreatedAt,
    UpdatedAt,
}

#[derive(Clone, Copy, PartialEq, Eq, Structural, Debug)]
pub enum SortDirection {
    Asc,
    Desc,
}

/// The note that a listing by `sort_key` goes by: a thread that was never
/// updated counts as updated when it was created.
pub open spec fn sort_time(item: ThreadItem, sort_key: ThreadSortKey) -> Option<RecordedTime> {
    match sort_key {
        ThreadSortKey::CreatedAt => item.created_at,
        ThreadSortKey::UpdatedAt => if item.updated_at is Some {
            item.updated_at
        } else {
            item.created_at
        },
    }
}

/// The cursor of `item` in a listing by `sort_key`.
pub open spec fn item_cursor(item: ThreadItem, sort_key: ThreadSortKey) -> Option<Cursor> {
    match sort_time(item, sort_key) {
        Some(time) => time.cursor,
        None => None,
    }
}

/// The cursor of `item` in a listing by `sort_key`.
pub fn cursor_from_thread_item(item: &ThreadItem, sort_key: ThreadSortKey) -> (cursor: Option<
    &Cursor,
>)
    ensures
        match cursor {
            Some(cursor) => item_cursor(*item, sort_key) == Some(*cursor),
            None => item_cursor(*item, sort_key) is None,
        },
{
    let time = match sort_key {
        ThreadSortKey::CreatedAt => &item.created_at,
        ThreadSortKey::UpdatedAt => match &item.updated_at {
            Some(_) => &item.updated_at,
            None => &item.created_at,
        },
    };
    match time {
        Some(time) => match &time.cursor {
            Some(cursor) => Some(cursor),
            None => None,
        },
        None => None,
    }
}

} // verus!
