use codex_recall::recover_api::{
    RecoverAnswer, RecoverCall, RecoverFailure, RecoveryHandle, has_nul, recover,
};

fn name(call: &RecoverCall) -> &'static str {
    match call {
        RecoverCall::Open { .. } => "open",
        RecoverCall::ErrorMessage => "errmsg",
        RecoverCall::Init { .. } => "init",
        RecoverCall::Configure { .. } => "config",
        RecoverCall::Run => "run",
        RecoverCall::Describe => "describe",
        RecoverCall::Finish => "finish",
        RecoverCall::Close => "close",
        RecoverCall::Nothing => "nothing",
    }
}

/// Plays `answers` and returns the calls that were made and the outcome.
fn play(
    mut recovery: RecoveryHandle,
    answers: Vec<RecoverAnswer>,
) -> (Vec<&'static str>, Result<(), String>) {
    let mut calls = Vec::new();
    for answer in answers {
        calls.push(name(&recovery.next_call()));
        recovery = recovery.answered(answer);
    }
    assert_eq!(name(&recovery.next_call()), "nothing");
    let outcome = recovery.outcome().expect("the recovery is over");
    (calls, outcome.map_err(|failure| failure.message()))
}

fn returned(rc: i32) -> RecoverAnswer {
    RecoverAnswer::Returned { rc }
}

fn opened() -> RecoverAnswer {
    RecoverAnswer::Opened {
        rc: 0,
        is_null: false,
    }
}

fn initialized() -> RecoverAnswer {
    RecoverAnswer::Initialized { is_null: false }
}

#[test]
fn recovery_that_succeeds() {
    let (calls, outcome) = play(
        recover("bad.sqlite", "good.sqlite"),
        vec![
            opened(),
            initialized(),
            returned(0),
            returned(0),
            returned(0),
            returned(0),
        ],
    );
    assert_eq!(
        calls,
        vec!["open", "init", "config", "run", "finish", "close"]
    );
    assert_eq!(outcome, Ok(()));
}

#[test]
fn calls_carry_their_arguments() {
    let recovery = recover("bad.sqlite", "good.sqlite");
    match recovery.next_call() {
        RecoverCall::Open { path, flags } => {
            assert_eq!(path, "bad.sqlite");
            assert_eq!(
                flags,
                libsqlite3_sys::SQLITE_OPEN_READWRITE | libsqlite3_sys::SQLITE_OPEN_URI
            );
        }
        _ => panic!("the database is opened first"),
    }
    let recovery = recovery.answered(opened());
    match recovery.next_call() {
        RecoverCall::Init {
            schema,
            recovered_path,
        } => {
            assert_eq!(schema, "main");
            assert_eq!(recovered_path, "good.sqlite");
        }
        _ => panic!("the recovery is set up next"),
    }
    match recovery.configure_lost_and_found() {
        RecoverCall::Configure { op, argument } => {
            assert_eq!(op, 1);
            assert_eq!(argument, "lost_and_found");
        }
        _ => panic!("this names the table"),
    }
}

#[test]
fn result_codes_agree_with_sqlite() {
    assert_eq!(
        codex_recall::recover_api::SQLITE_OK,
        libsqlite3_sys::SQLITE_OK
    );
    assert_eq!(
        codex_recall::malformed::SQLITE_CORRUPT,
        libsqlite3_sys::SQLITE_CORRUPT
    );
    assert_eq!(
        codex_recall::malformed::SQLITE_NOTADB,
        libsqlite3_sys::SQLITE_NOTADB
    );
}

#[test]
fn opening_fails() {
    let (calls, outcome) = play(
        recover("bad.sqlite", "good.sqlite"),
        vec![
            RecoverAnswer::Opened {
                rc: 14,
                is_null: false,
            },
            RecoverAnswer::Message {
                message: Some("unable to open database file".to_string()),
            },
            returned(0),
        ],
    );
    assert_eq!(calls, vec!["open", "errmsg", "close"]);
    assert_eq!(
        outcome,
        Err("failed to open malformed database for recovery (14): unable to open database file"
            .to_string())
    );
}

#[test]
fn opening_fails_without_a_handle() {
    let (calls, outcome) = play(
        recover("bad.sqlite", "good.sqlite"),
        vec![RecoverAnswer::Opened {
            rc: 7,
            is_null: true,
        }],
    );
    assert_eq!(calls, vec!["open"]);
    assert_eq!(
        outcome,
        Err("failed to open malformed database for recovery (7): out of memory".to_string())
    );
}

#[test]
fn opening_fails_without_a_message() {
    let (_, outcome) = play(
        recover("bad.sqlite", "good.sqlite"),
        vec![
            RecoverAnswer::Opened {
                rc: -3,
                is_null: false,
            },
            RecoverAnswer::Message { message: None },
            returned(0),
        ],
    );
    assert_eq!(
        outcome,
        Err("failed to open malformed database for recovery (-3): unknown error".to_string())
    );
}

#[test]
fn setting_up_fails() {
    let (calls, outcome) = play(
        recover("bad.sqlite", "good.sqlite"),
        vec![
            opened(),
            RecoverAnswer::Initialized { is_null: true },
            returned(0),
        ],
    );
    assert_eq!(calls, vec!["open", "init", "close"]);
    assert_eq!(
        outcome,
        Err("failed to initialize SQLite recovery: out of memory".to_string())
    );
}

#[test]
fn configuring_fails() {
    let (calls, outcome) = play(
        recover("bad.sqlite", "good.sqlite"),
        vec![
            opened(),
            initialized(),
            returned(21),
            RecoverAnswer::Description {
                code: 21,
                message: Some("misuse".to_string()),
            },
            returned(21),
            returned(5),
        ],
    );
    assert_eq!(
        calls,
        vec!["open", "init", "config", "describe", "finish", "close"]
    );
    assert_eq!(
        outcome,
        Err("failed to configure SQLite recovery (21): 21: misuse".to_string())
    );
}

#[test]
fn running_fails() {
    let (calls, outcome) = play(
        recover("bad.sqlite", "good.sqlite"),
        vec![
            opened(),
            initialized(),
            returned(0),
            returned(11),
            RecoverAnswer::Description {
                code: 26,
                message: None,
            },
            returned(26),
            returned(0),
        ],
    );
    assert_eq!(
        calls,
        vec!["open", "init", "config", "run", "describe", "finish", "close"]
    );
    assert_eq!(
        outcome,
        Err("SQLite recovery failed (11): 26: unknown error".to_string())
    );
}

#[test]
fn finishing_fails() {
    let (calls, outcome) = play(
        recover("bad.sqlite", "good.sqlite"),
        vec![
            opened(),
            initialized(),
            returned(0),
            returned(0),
            returned(8),
            returned(0),
        ],
    );
    assert_eq!(
        calls,
        vec!["open", "init", "config", "run", "finish", "close"]
    );
    assert_eq!(
        outcome,
        Err("SQLite recovery cleanup failed (8)".to_string())
    );
}

#[test]
fn closing_may_fail() {
    let (_, outcome) = play(
        recover("bad.sqlite", "good.sqlite"),
        vec![
            opened(),
            initialized(),
            returned(0),
            returned(0),
            returned(0),
            returned(5),
        ],
    );
    assert_eq!(outcome, Ok(()));
}

#[test]
fn paths_with_nul_are_refused() {
    let (calls, outcome) = play(recover("ba\0d", "good.sqlite"), Vec::new());
    assert_eq!(calls, Vec::<&str>::new());
    assert_eq!(outcome, Err("path contains a NUL byte: ba\0d".to_string()));

    let (calls, outcome) = play(recover("bad", "go\0od"), vec![opened(), returned(0)]);
    assert_eq!(calls, vec!["open", "close"]);
    assert_eq!(outcome, Err("path contains a NUL byte: go\0od".to_string()));

    assert!(has_nul("\0"));
    assert!(!has_nul("plain"));
}

#[test]
fn failures_tell_paths_from_messages() {
    let failed = recover("a\0", "b").outcome().expect("over at once");
    assert!(matches!(failed, Err(RecoverFailure::NulByte { .. })));
}

#[test]
fn answers_to_other_calls_change_nothing() {
    let recovery = recover("bad.sqlite", "good.sqlite").answered(returned(0));
    assert_eq!(name(&recovery.next_call()), "open");
    assert!(recovery.outcome().is_none());
}
