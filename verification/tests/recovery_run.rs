use codex_recall::recovery_database::{DatabaseAction, DatabaseAnswer, RecoverDatabase};
use codex_recall::recovery_error::{FailureCause, RecoveryError};
use codex_recall::recovery_prepare::RecoveryPaths;
use codex_recall::recovery_replace::{ReplaceAction, ReplaceAnswer, ReplaceDatabase};
use codex_recall::recovery_run::{RunAction, RunAnswer, RunRecovery};
use codex_recall::recovery_status::RuntimeDbSpec;

type Fault = &'static str;

fn text(error: RecoveryError<Fault>) -> String {
    let mut parts: Vec<String> = error.contexts.into_iter().rev().collect();
    parts.push(match error.cause {
        FailureCause::Message(message) => message,
        FailureCause::Outside(error) => format!("[{error}]"),
    });
    parts.join(" <- ")
}

fn run_name(action: &RunAction) -> String {
    match action {
        RunAction::Recover {
            path,
            recovered_path,
        } => format!("recover {path} {recovered_path}"),
        RunAction::OpenPool {
            path,
            create_if_missing,
            busy_timeout_secs,
            max_connections,
        } => {
            assert_eq!((*busy_timeout_secs, *max_connections), (5, 1));
            format!("open {path} {create_if_missing}")
        }
        RunAction::CountTables => "count".to_string(),
        RunAction::CheckIntegrity => "check".to_string(),
        RunAction::Migrate => "migrate".to_string(),
        RunAction::ClosePool => "close".to_string(),
        RunAction::CheckExists { path } => format!("exists {path}"),
        RunAction::CopyTables { recovered_path } => format!("copy {recovered_path}"),
        RunAction::Remove { path } => format!("remove {path}"),
        RunAction::Rename { from, to } => format!("rename {from} {to}"),
        RunAction::Nothing => "nothing".to_string(),
    }
}

fn ok() -> RunAnswer<Fault> {
    RunAnswer::Rows(vec!["ok".to_string()])
}

fn unmigrated() -> RunAnswer<Fault> {
    RunAnswer::MigrationFailed {
        reason: "no such table: _sqlx_migrations".to_string(),
        error: "migrate",
    }
}

fn run(answers: Vec<RunAnswer<Fault>>) -> (Vec<String>, Result<(), String>) {
    let mut run = RunRecovery::new("s.sqlite", "r.sqlite");
    let mut actions = Vec::new();
    for answer in answers {
        actions.push(run_name(&run.action()));
        run = run.answered(answer);
    }
    assert_eq!(run_name(&run.action()), "nothing");
    let outcome = run.outcome().expect("the run is over");
    (actions, outcome.map_err(text))
}

const FRESH: &str = "r.sqlite.codex-recovery-normalized.0.sqlite";
const NORMALIZE: &str =
    "failed to normalize recovered database after migration failure: no such table: _sqlx_migrations";

/// The answers up to the search for a fresh name.
fn start_of_rebuild() -> Vec<RunAnswer<Fault>> {
    vec![
        RunAnswer::Done,
        RunAnswer::Done,
        RunAnswer::Count(2),
        ok(),
        unmigrated(),
        RunAnswer::Done,
    ]
}

fn rebuild(more: Vec<RunAnswer<Fault>>) -> (Vec<String>, Result<(), String>) {
    let mut answers = start_of_rebuild();
    answers.extend(more);
    let (actions, outcome) = run(answers);
    (actions[6..].to_vec(), outcome)
}

#[test]
fn databases_that_migrate_are_accepted() {
    let (actions, outcome) = run(vec![
        RunAnswer::Done,
        RunAnswer::Done,
        RunAnswer::Count(2),
        ok(),
        RunAnswer::Done,
        ok(),
        RunAnswer::Done,
    ]);
    assert_eq!(outcome, Ok(()));
    assert_eq!(
        actions,
        vec![
            "recover s.sqlite r.sqlite",
            "open r.sqlite false",
            "count",
            "check",
            "migrate",
            "check",
            "close",
        ]
    );
}

#[test]
fn databases_without_tables_are_refused() {
    let (_, outcome) = run(vec![RunAnswer::Done, RunAnswer::Done, RunAnswer::Count(0)]);
    assert_eq!(
        outcome,
        Err("SQLite recovery did not recover any user tables".to_string())
    );
}

#[test]
fn unsound_databases_are_refused() {
    let bad = || RunAnswer::Rows(vec!["page 2".to_string()]);
    let (_, outcome) = run(vec![
        RunAnswer::Done,
        RunAnswer::Done,
        RunAnswer::Count(1),
        bad(),
    ]);
    assert_eq!(
        outcome,
        Err("recovered database failed integrity_check: page 2".to_string())
    );
    let (_, outcome) = run(vec![
        RunAnswer::Done,
        RunAnswer::Done,
        RunAnswer::Count(1),
        ok(),
        RunAnswer::Done,
        bad(),
    ]);
    assert_eq!(
        outcome,
        Err("recovered database failed integrity_check: page 2".to_string())
    );
}

#[test]
fn outside_errors_end_a_run() {
    let (_, outcome) = run(vec![RunAnswer::Failed("api")]);
    assert_eq!(outcome, Err("[api]".to_string()));
    let (_, outcome) = run(vec![RunAnswer::Panicked("join")]);
    assert_eq!(
        outcome,
        Err("sqlite recovery task panicked <- [join]".to_string())
    );
    let (_, outcome) = run(vec![RunAnswer::Done, RunAnswer::Failed("open")]);
    assert_eq!(outcome, Err("[open]".to_string()));
    let (_, outcome) = run(vec![
        RunAnswer::Done,
        RunAnswer::Done,
        RunAnswer::Failed("count"),
    ]);
    assert_eq!(outcome, Err("[count]".to_string()));
    let (_, outcome) = run(vec![
        RunAnswer::Done,
        RunAnswer::Done,
        RunAnswer::Count(1),
        RunAnswer::Failed("check"),
    ]);
    assert_eq!(outcome, Err("[check]".to_string()));
}

#[test]
fn databases_that_do_not_migrate_are_rebuilt() {
    let (actions, outcome) = rebuild(vec![
        RunAnswer::Exists(false),
        RunAnswer::Done,
        RunAnswer::Done,
        RunAnswer::Done,
        RunAnswer::Count(3),
        ok(),
        RunAnswer::Done,
        RunAnswer::Done,
        RunAnswer::Done,
    ]);
    assert_eq!(outcome, Ok(()));
    assert_eq!(
        actions,
        vec![
            format!("exists {FRESH}"),
            format!("open {FRESH} true"),
            "migrate".to_string(),
            "copy r.sqlite".to_string(),
            "count".to_string(),
            "check".to_string(),
            "close".to_string(),
            "remove r.sqlite".to_string(),
            format!("rename {FRESH} r.sqlite"),
        ]
    );
}

#[test]
fn taken_names_of_fresh_databases_are_passed_over() {
    let (actions, outcome) = rebuild(vec![
        RunAnswer::Exists(true),
        RunAnswer::Exists(true),
        RunAnswer::Failed("stat"),
    ]);
    assert_eq!(
        actions,
        vec![
            "exists r.sqlite.codex-recovery-normalized.0.sqlite",
            "exists r.sqlite.codex-recovery-normalized.1.sqlite",
            "exists r.sqlite.codex-recovery-normalized.2.sqlite",
        ]
    );
    assert_eq!(outcome, Err(format!("{NORMALIZE} <- [stat]")));
}

#[test]
fn fresh_databases_may_not_open_or_migrate() {
    let (_, outcome) = rebuild(vec![RunAnswer::Exists(false), RunAnswer::Failed("open")]);
    assert_eq!(outcome, Err(format!("{NORMALIZE} <- [open]")));
    let (_, outcome) = rebuild(vec![
        RunAnswer::Exists(false),
        RunAnswer::Done,
        unmigrated(),
    ]);
    assert_eq!(
        outcome,
        Err(format!(
            "{NORMALIZE} <- failed to migrate fresh database for recovered data <- [migrate]"
        ))
    );
}

#[test]
fn useless_fresh_databases_are_removed() {
    let begin = || vec![RunAnswer::Exists(false), RunAnswer::Done, RunAnswer::Done];
    let failures: Vec<(Vec<RunAnswer<Fault>>, &str)> = vec![
        (
            vec![RunAnswer::CopyFailed(RecoveryError::plain(
                "nothing to copy".to_string(),
            ))],
            "nothing to copy",
        ),
        (
            vec![RunAnswer::Done, RunAnswer::Count(0)],
            "SQLite recovery did not recover any user tables",
        ),
        (
            vec![RunAnswer::Done, RunAnswer::Failed("count")],
            "[count]",
        ),
        (
            vec![
                RunAnswer::Done,
                RunAnswer::Count(1),
                RunAnswer::Rows(vec!["bad".to_string()]),
            ],
            "recovered database failed integrity_check: bad",
        ),
        (
            vec![RunAnswer::Done, RunAnswer::Count(1), RunAnswer::Failed("check")],
            "[check]",
        ),
    ];
    for (middle, expected) in failures {
        for removal in [RunAnswer::Done, RunAnswer::Failed("in use")] {
            let mut answers = begin();
            let middle = middle.iter().map(|answer| match answer {
                RunAnswer::Done => RunAnswer::Done,
                RunAnswer::Count(count) => RunAnswer::Count(*count),
                RunAnswer::Rows(rows) => RunAnswer::Rows(rows.clone()),
                RunAnswer::Failed(error) => RunAnswer::Failed(*error),
                _ => RunAnswer::CopyFailed(RecoveryError::plain("nothing to copy".to_string())),
            });
            answers.extend(middle);
            answers.push(RunAnswer::Done);
            answers.push(removal);
            let (actions, outcome) = rebuild(answers);
            assert_eq!(outcome, Err(format!("{NORMALIZE} <- {expected}")));
            let count = actions.len();
            assert_eq!(actions[count - 2], "close");
            assert_eq!(actions[count - 1], format!("remove {FRESH}"));
        }
    }
}

#[test]
fn fresh_databases_may_not_take_their_place() {
    let begin = || {
        vec![
            RunAnswer::Exists(false),
            RunAnswer::Done,
            RunAnswer::Done,
            RunAnswer::Done,
            RunAnswer::Count(1),
            ok(),
            RunAnswer::Done,
        ]
    };
    let mut answers = begin();
    answers.push(RunAnswer::Failed("remove"));
    assert_eq!(
        rebuild(answers).1,
        Err(format!("{NORMALIZE} <- [remove]"))
    );
    let mut answers = begin();
    answers.push(RunAnswer::Done);
    answers.push(RunAnswer::Failed("rename"));
    assert_eq!(
        rebuild(answers).1,
        Err(format!("{NORMALIZE} <- [rename]"))
    );
}

#[test]
fn nameless_databases_cannot_be_rebuilt() {
    let mut run = RunRecovery::<Fault>::new("s.sqlite", "..");
    for answer in start_of_rebuild() {
        run = run.answered(answer);
    }
    assert_eq!(
        run.outcome().expect("over").map_err(text),
        Err(format!(
            "{NORMALIZE} <- cannot create a recovery file name for .."
        ))
    );
}

#[test]
fn answers_that_do_not_fit_change_nothing() {
    let run = RunRecovery::<Fault>::new("s.sqlite", "r.sqlite").answered(RunAnswer::Count(0));
    assert_eq!(run_name(&run.action()), "recover s.sqlite r.sqlite");
    assert!(run.outcome().is_none());
}

fn replace(
    clear_target: bool,
    answers: Vec<ReplaceAnswer<Fault>>,
) -> (Vec<String>, Option<Result<(), Fault>>) {
    let mut replace = ReplaceDatabase::new("s.sqlite", "r.sqlite", clear_target);
    let mut actions = Vec::new();
    for answer in answers {
        actions.push(match replace.action() {
            ReplaceAction::Remove { path } => format!("remove {path}"),
            ReplaceAction::Rename { from, to } => format!("rename {from} {to}"),
            ReplaceAction::Nothing => "nothing".to_string(),
        });
        replace = replace.answered(answer);
    }
    (actions, replace.outcome())
}

fn missing() -> ReplaceAnswer<Fault> {
    ReplaceAnswer::Failed {
        error: "not found",
        not_found: true,
    }
}

fn refused() -> ReplaceAnswer<Fault> {
    ReplaceAnswer::Failed {
        error: "refused",
        not_found: false,
    }
}

#[test]
fn sidecars_are_removed_before_the_database_is_replaced() {
    let (actions, outcome) = replace(
        false,
        vec![ReplaceAnswer::Done, missing(), ReplaceAnswer::Done],
    );
    assert_eq!(outcome, Some(Ok(())));
    assert_eq!(
        actions,
        vec![
            "remove s.sqlite-wal",
            "remove s.sqlite-shm",
            "rename r.sqlite s.sqlite",
        ]
    );
}

#[test]
fn targets_are_cleared_where_they_have_to_be() {
    let (actions, outcome) = replace(
        true,
        vec![
            missing(),
            missing(),
            ReplaceAnswer::Done,
            ReplaceAnswer::Done,
        ],
    );
    assert_eq!(outcome, Some(Ok(())));
    assert_eq!(actions[2], "remove s.sqlite");
    assert_eq!(actions[3], "rename r.sqlite s.sqlite");
}

#[test]
fn replacements_may_fail() {
    assert_eq!(replace(false, vec![refused()]).1, Some(Err("refused")));
    assert_eq!(
        replace(false, vec![missing(), missing(), missing()]).1,
        Some(Err("not found"))
    );
    assert_eq!(replace(false, vec![missing(), missing()]).1, None);
}

fn database_name(action: &DatabaseAction) -> String {
    match action {
        DatabaseAction::Prepare { path } => format!("prepare {path}"),
        DatabaseAction::Log { message } => format!("log: {message}"),
        DatabaseAction::Print { message } => format!("print: {message}"),
        DatabaseAction::Run {
            path,
            recovered_path,
        } => format!("run {path} {recovered_path}"),
        DatabaseAction::Replace {
            path,
            recovered_path,
        } => format!("replace {path} {recovered_path}"),
        DatabaseAction::Remove { path } => format!("remove {path}"),
        DatabaseAction::Nothing => "nothing".to_string(),
    }
}

fn database(answers: Vec<DatabaseAnswer<Fault>>) -> (Vec<String>, Result<(), String>) {
    let spec = RuntimeDbSpec {
        label: "state DB".to_string(),
    };
    let mut recovery = RecoverDatabase::new("s.sqlite", spec, "file is not a database");
    let mut actions = Vec::new();
    for answer in answers {
        actions.push(database_name(&recovery.action()));
        recovery = recovery.answered(answer);
    }
    assert_eq!(database_name(&recovery.action()), "nothing");
    let outcome = recovery.outcome().expect("the recovery is over");
    (actions, outcome.map_err(text))
}

fn prepared() -> DatabaseAnswer<Fault> {
    DatabaseAnswer::Prepared(RecoveryPaths {
        recovered_path: "r.sqlite".to_string(),
        backup_paths: vec!["s.bak".to_string()],
    })
}

fn failed(message: &str) -> DatabaseAnswer<Fault> {
    DatabaseAnswer::Failed(RecoveryError::plain(message.to_string()))
}

const STARTED: &str = "print: Codex detected a malformed state DB at s.sqlite. Please wait while Codex attempts to recover it automatically. Backup files: s.bak";
const FAILED: &str = "print: Codex could not automatically recover state DB at s.sqlite. Backup files remain at s.bak.";

#[test]
fn recoveries_that_succeed() {
    let (actions, outcome) = database(vec![
        prepared(),
        DatabaseAnswer::Done,
        DatabaseAnswer::Done,
        DatabaseAnswer::Done,
        DatabaseAnswer::Done,
        DatabaseAnswer::Done,
        DatabaseAnswer::Done,
    ]);
    assert_eq!(outcome, Ok(()));
    assert_eq!(
        actions,
        vec![
            "prepare s.sqlite",
            "log: state DB at s.sqlite appears malformed (file is not a database); attempting automatic recovery after backing up to s.bak",
            STARTED,
            "run s.sqlite r.sqlite",
            "replace s.sqlite r.sqlite",
            "log: automatically recovered state DB at s.sqlite with the SQLite recovery API",
            "print: Codex successfully recovered state DB at s.sqlite.",
        ]
    );
}

#[test]
fn recoveries_that_cannot_be_prepared() {
    let (actions, outcome) = database(vec![failed("database file does not exist")]);
    assert_eq!(actions, vec!["prepare s.sqlite"]);
    assert_eq!(
        outcome,
        Err("failed to prepare automatic recovery for state DB at s.sqlite <- database file does not exist".to_string())
    );
}

#[test]
fn recoveries_whose_run_fails() {
    let (actions, outcome) = database(vec![
        prepared(),
        DatabaseAnswer::Done,
        DatabaseAnswer::Done,
        failed("SQLite recovery did not recover any user tables"),
        DatabaseAnswer::Done,
        DatabaseAnswer::Done,
    ]);
    assert_eq!(actions[3..], ["run s.sqlite r.sqlite", "remove r.sqlite", FAILED]);
    assert_eq!(
        outcome,
        Err("automatic recovery failed for state DB at s.sqlite; backup files remain at s.bak <- SQLite recovery did not recover any user tables".to_string())
    );
}

#[test]
fn recoveries_whose_replacement_fails() {
    let (actions, outcome) = database(vec![
        prepared(),
        DatabaseAnswer::Done,
        DatabaseAnswer::Done,
        DatabaseAnswer::Done,
        DatabaseAnswer::Failed(RecoveryError::outside("rename")),
        DatabaseAnswer::Done,
    ]);
    assert_eq!(actions[4..], ["replace s.sqlite r.sqlite", FAILED]);
    assert_eq!(
        outcome,
        Err("automatic recovery rebuilt state DB at s.sqlite but failed to replace the original database; backup files remain at s.bak <- [rename]".to_string())
    );
}
