//! Running a recovery: the damaged database is recovered into a new file, which
//! then has to show that it is sound and migrate; where it does not migrate,
//! its tables move into a fresh database.
use vstd::prelude::*;

use crate::recovery_error::{
    RecoveryError, RecoveryErrorView, error_view, in_context, outside_error, plain_error,
};
use crate::recovery_files::{
    LAST_SEQUENCE, SearchView, SiblingSearch, is_candidate, is_first_search, no_name_message,
};
use crate::recovery_tables::{
    assert_integrity_ok, assert_recovered_schema, is_sound, unsound_message,
};
use crate::path_text::is_named;
use crate::text::texts;

verus! {

/// How long a statement waits for a lock, in seconds.
pub const BUSY_TIMEOUT_SECS: u64 = 5;

/// How many connections a pool has.
pub const MAX_CONNECTIONS: u32 = 1;

// ---------------------------------------------------------------------------
// Actions and answers
// ---------------------------------------------------------------------------

/// What to do next.
pub enum RunAction {
    /// Recover one database into another.
    Recover { path: String, recovered_path: String },
    /// Open a pool of connections to a database.
    OpenPool { path: String, create_if_missing: bool, busy_timeout_secs: u64, max_connections: u32 },
    /// Count the user tables of the open database.
    CountTables,
    /// Check the open database.
    CheckIntegrity,
    /// Migrate the open database.
    Migrate,
    /// Close the pool.
    ClosePool,
    /// Find out whether there is a file.
    CheckExists { path: String },
    /// Copy the tables of a database into the open one.
    CopyTables { recovered_path: String },
    /// Remove a file.
    Remove { path: String },
    /// Move a file.
    Rename { from: String, to: String },
    /// Nothing: the run is over.
    Nothing,
}

/// The model of what to do next.
pub enum RunActionView {
    Recover { path: Seq<char>, recovered_path: Seq<char> },
    OpenPool {
        path: Seq<char>,
        create_if_missing: bool,
        busy_timeout_secs: u64,
        max_connections: u32,
    },
    CountTables,
    CheckIntegrity,
    Migrate,
    ClosePool,
    CheckExists { path: Seq<char> },
    CopyTables { recovered_path: Seq<char> },
    Remove { path: Seq<char> },
    Rename { from: Seq<char>, to: Seq<char> },
    Nothing,
}

impl View for RunAction {
    type V = RunActionView;

    open spec fn view(&self) -> RunActionView {
        match self {
            RunAction::Recover { path, recovered_path } => RunActionView::Recover {
                path: path@,
                recovered_path: recovered_path@,
            },
            RunAction::OpenPool { path, create_if_missing, busy_timeout_secs, max_connections } => {
                RunActionView::OpenPool {
                    path: path@,
                    create_if_missing: *create_if_missing,
                    busy_timeout_secs: *busy_timeout_secs,
                    max_connections: *max_connections,
                }
            },
            RunAction::CountTables => RunActionView::CountTables,
            RunAction::CheckIntegrity => RunActionView::CheckIntegrity,
            RunAction::Migrate => RunActionView::Migrate,
            RunAction::ClosePool => RunActionView::ClosePool,
            RunAction::CheckExists { path } => RunActionView::CheckExists { path: path@ },
            RunAction::CopyTables { recovered_path } => RunActionView::CopyTables {
                recovered_path: recovered_path@,
            },
            RunAction::Remove { path } => RunActionView::Remove { path: path@ },
            RunAction::Rename { from, to } => RunActionView::Rename { from: from@, to: to@ },
            RunAction::Nothing => RunActionView::Nothing,
        }
    }
}

/// What came of it.
pub enum RunAnswer<E> {
    /// It was done.
    Done,
    /// Whether there is a file.
    Exists(bool),
    /// How many user tables there are.
    Count(i64),
    /// What the check said.
    Rows(Vec<String>),
    /// It failed.
    Failed(E),
    /// The task that recovers did not come to an end.
    Panicked(E),
    /// The migration failed, with a reason and with the error itself.
    MigrationFailed { reason: String, error: E },
    /// The tables could not be copied.
    CopyFailed(RecoveryError<E>),
}

/// The model of what came of it.
pub enum RunAnswerView<E> {
    Done,
    Exists(bool),
    Count(i64),
    Rows(Seq<Seq<char>>),
    Failed(E),
    Panicked(E),
    MigrationFailed { reason: Seq<char>, error: E },
    CopyFailed(RecoveryErrorView<E>),
}

impl<E> View for RunAnswer<E> {
    type V = RunAnswerView<E>;

    open spec fn view(&self) -> RunAnswerView<E> {
        match self {
            RunAnswer::Done => RunAnswerView::Done,
            RunAnswer::Exists(exists) => RunAnswerView::Exists(*exists),
            RunAnswer::Count(count) => RunAnswerView::Count(*count),
            RunAnswer::Rows(rows) => RunAnswerView::Rows(texts(rows@)),
            RunAnswer::Failed(error) => RunAnswerView::Failed(*error),
            RunAnswer::Panicked(error) => RunAnswerView::Panicked(*error),
            RunAnswer::MigrationFailed { reason, error } => RunAnswerView::MigrationFailed {
                reason: reason@,
                error: *error,
            },
            RunAnswer::CopyFailed(error) => RunAnswerView::CopyFailed(error@),
        }
    }
}

// ---------------------------------------------------------------------------
// Progress
// ---------------------------------------------------------------------------

enum RunPhase<E> {
    Recover,
    OpenRecovered,
    CountRecovered,
    CheckRecovered,
    MigrateRecovered,
    CheckMigrated,
    CloseMigrated,
    CloseUnmigrated,
    FindName { search: SiblingSearch },
    OpenFresh,
    MigrateFresh,
    CopyTables,
    CountFresh,
    CheckFresh,
    CloseFresh { failure: Option<RecoveryError<E>> },
    RemoveFresh { error: RecoveryError<E> },
    RemoveRecovered,
    RenameFresh,
    Finished { failure: Option<RecoveryError<E>> },
}

/// How far a run has come.
pub enum RunPhaseView<E> {
    /// The damaged database is to be recovered.
    Recover,
    /// What was recovered is to be opened,
    OpenRecovered,
    /// to show that it has tables,
    CountRecovered,
    /// that it is sound,
    CheckRecovered,
    /// that it migrates,
    MigrateRecovered,
    /// and that it still is sound.
    CheckMigrated,
    /// It is to be closed.
    CloseMigrated,
    /// It did not migrate, and is to be closed.
    CloseUnmigrated,
    /// A name for a fresh database is searched for.
    FindName { search: SearchView },
    /// The fresh database is to be opened,
    OpenFresh,
    /// migrated,
    MigrateFresh,
    /// and filled.
    CopyTables,
    /// It has to show that it has tables,
    CountFresh,
    /// and that it is sound.
    CheckFresh,
    /// It is to be closed.
    CloseFresh { failure: Option<RecoveryErrorView<E>> },
    /// It is of no use and is to be removed.
    RemoveFresh { error: RecoveryErrorView<E> },
    /// It takes the place of what was recovered, which is to be removed.
    RemoveRecovered,
    /// It is to be moved there.
    RenameFresh,
    /// The run is over.
    Finished { failure: Option<RecoveryErrorView<E>> },
}

spec fn run_phase_view<E>(phase: RunPhase<E>) -> RunPhaseView<E> {
    match phase {
        RunPhase::Recover => RunPhaseView::Recover,
        RunPhase::OpenRecovered => RunPhaseView::OpenRecovered,
        RunPhase::CountRecovered => RunPhaseView::CountRecovered,
        RunPhase::CheckRecovered => RunPhaseView::CheckRecovered,
        RunPhase::MigrateRecovered => RunPhaseView::MigrateRecovered,
        RunPhase::CheckMigrated => RunPhaseView::CheckMigrated,
        RunPhase::CloseMigrated => RunPhaseView::CloseMigrated,
        RunPhase::CloseUnmigrated => RunPhaseView::CloseUnmigrated,
        RunPhase::FindName { search } => RunPhaseView::FindName { search: search@ },
        RunPhase::OpenFresh => RunPhaseView::OpenFresh,
        RunPhase::MigrateFresh => RunPhaseView::MigrateFresh,
        RunPhase::CopyTables => RunPhaseView::CopyTables,
        RunPhase::CountFresh => RunPhaseView::CountFresh,
        RunPhase::CheckFresh => RunPhaseView::CheckFresh,
        RunPhase::CloseFresh { failure } => RunPhaseView::CloseFresh {
            failure: error_view(failure),
        },
        RunPhase::RemoveFresh { error } => RunPhaseView::RemoveFresh { error: error@ },
        RunPhase::RemoveRecovered => RunPhaseView::RemoveRecovered,
        RunPhase::RenameFresh => RunPhaseView::RenameFresh,
        RunPhase::Finished { failure } => RunPhaseView::Finished { failure: error_view(failure) },
    }
}

/// The run of a recovery.
pub struct RunRecovery<E> {
    path: String,
    recovered_path: String,
    /// Why what was recovered did not migrate.
    reason: String,
    /// The fresh database.
    normalized_path: String,
    phase: RunPhase<E>,
}

/// The model of a run.
pub struct RunView<E> {
    pub path: Seq<char>,
    pub recovered_path: Seq<char>,
    pub reason: Seq<char>,
    pub normalized_path: Seq<char>,
    pub phase: RunPhaseView<E>,
}

impl<E> View for RunRecovery<E> {
    type V = RunView<E>;

    closed spec fn view(&self) -> RunView<E> {
        RunView {
            path: self.path@,
            recovered_path: self.recovered_path@,
            reason: self.reason@,
            normalized_path: self.normalized_path@,
            phase: run_phase_view(self.phase),
        }
    }
}

/// A run at its start.
pub open spec fn run_start<E>(path: Seq<char>, recovered_path: Seq<char>) -> RunView<E> {
    RunView {
        path,
        recovered_path,
        reason: seq![],
        normalized_path: seq![],
        phase: RunPhaseView::Recover,
    }
}

/// The action that a phase asks for.
pub open spec fn run_action<E>(run: RunView<E>) -> RunActionView {
    match run.phase {
        RunPhaseView::Recover => RunActionView::Recover {
            path: run.path,
            recovered_path: run.recovered_path,
        },
        RunPhaseView::OpenRecovered => RunActionView::OpenPool {
            path: run.recovered_path,
            create_if_missing: false,
            busy_timeout_secs: BUSY_TIMEOUT_SECS,
            max_connections: MAX_CONNECTIONS,
        },
        RunPhaseView::CountRecovered => RunActionView::CountTables,
        RunPhaseView::CheckRecovered => RunActionView::CheckIntegrity,
        RunPhaseView::MigrateRecovered => RunActionView::Migrate,
        RunPhaseView::CheckMigrated => RunActionView::CheckIntegrity,
        RunPhaseView::CloseMigrated => RunActionView::ClosePool,
        RunPhaseView::CloseUnmigrated => RunActionView::ClosePool,
        RunPhaseView::FindName { .. } => RunActionView::CheckExists { path: run.normalized_path },
        RunPhaseView::OpenFresh => RunActionView::OpenPool {
            path: run.normalized_path,
            create_if_missing: true,
            busy_timeout_secs: BUSY_TIMEOUT_SECS,
            max_connections: MAX_CONNECTIONS,
        },
        RunPhaseView::MigrateFresh => RunActionView::Migrate,
        RunPhaseView::CopyTables => RunActionView::CopyTables {
            recovered_path: run.recovered_path,
        },
        RunPhaseView::CountFresh => RunActionView::CountTables,
        RunPhaseView::CheckFresh => RunActionView::CheckIntegrity,
        RunPhaseView::CloseFresh { .. } => RunActionView::ClosePool,
        RunPhaseView::RemoveFresh { .. } => RunActionView::Remove { path: run.normalized_path },
        RunPhaseView::RemoveRecovered => RunActionView::Remove { path: run.recovered_path },
        RunPhaseView::RenameFresh => RunActionView::Rename {
            from: run.normalized_path,
            to: run.recovered_path,
        },
        RunPhaseView::Finished { .. } => RunActionView::Nothing,
    }
}

/// The run ends with an error.
pub open spec fn run_fails<E>(run: RunView<E>, error: RecoveryErrorView<E>) -> RunView<E> {
    RunView { phase: RunPhaseView::Finished { failure: Some(error) }, ..run }
}

/// What was being done when tables could not be moved into a fresh database.
pub open spec fn normalize_context(reason: Seq<char>) -> Seq<char> {
    "failed to normalize recovered database after migration failure: "@ + reason
}

/// The run ends because tables could not be moved into a fresh database.
pub open spec fn rebuild_fails<E>(run: RunView<E>, error: RecoveryErrorView<E>) -> RunView<E> {
    run_fails(run, in_context(error, normalize_context(run.reason)))
}

/// The run goes on.
pub open spec fn goes_on<E>(run: RunView<E>, phase: RunPhaseView<E>) -> RunView<E> {
    RunView { phase, ..run }
}

/// The run after what came of its action, wherever that leaves nothing open.
/// What cannot come of the action changes nothing.
pub open spec fn run_after<E>(run: RunView<E>, answer: RunAnswerView<E>) -> RunView<E> {
    match run.phase {
        RunPhaseView::Recover => match answer {
            RunAnswerView::Done => goes_on(run, RunPhaseView::OpenRecovered),
            RunAnswerView::Failed(error) => run_fails(run, outside_error(error)),
            RunAnswerView::Panicked(error) => run_fails(
                run,
                in_context(outside_error(error), "sqlite recovery task panicked"@),
            ),
            _ => run,
        },
        RunPhaseView::OpenRecovered => match answer {
            RunAnswerView::Done => goes_on(run, RunPhaseView::CountRecovered),
            RunAnswerView::Failed(error) => run_fails(run, outside_error(error)),
            _ => run,
        },
        RunPhaseView::CountRecovered => match answer {
            RunAnswerView::Count(count) => if count == 0 {
                run_fails(run, plain_error("SQLite recovery did not recover any user tables"@))
            } else {
                goes_on(run, RunPhaseView::CheckRecovered)
            },
            RunAnswerView::Failed(error) => run_fails(run, outside_error(error)),
            _ => run,
        },
        RunPhaseView::CheckRecovered => match answer {
            RunAnswerView::Rows(rows) => if is_sound(rows) {
                goes_on(run, RunPhaseView::MigrateRecovered)
            } else {
                run_fails(run, plain_error(unsound_message(rows)))
            },
            RunAnswerView::Failed(error) => run_fails(run, outside_error(error)),
            _ => run,
        },
        RunPhaseView::MigrateRecovered => match answer {
            RunAnswerView::Done => goes_on(run, RunPhaseView::CheckMigrated),
            RunAnswerView::MigrationFailed { reason, .. } => RunView {
                reason,
                phase: RunPhaseView::CloseUnmigrated,
                ..run
            },
            _ => run,
        },
        RunPhaseView::CheckMigrated => match answer {
            RunAnswerView::Rows(rows) => if is_sound(rows) {
                goes_on(run, RunPhaseView::CloseMigrated)
            } else {
                run_fails(run, plain_error(unsound_message(rows)))
            },
            RunAnswerView::Failed(error) => run_fails(run, outside_error(error)),
            _ => run,
        },
        RunPhaseView::CloseMigrated => match answer {
            RunAnswerView::Done => goes_on(run, RunPhaseView::Finished { failure: None }),
            _ => run,
        },
        RunPhaseView::CloseUnmigrated => run,
        RunPhaseView::FindName { .. } => match answer {
            RunAnswerView::Exists(false) => goes_on(run, RunPhaseView::OpenFresh),
            RunAnswerView::Failed(error) => rebuild_fails(run, outside_error(error)),
            _ => run,
        },
        RunPhaseView::OpenFresh => match answer {
            RunAnswerView::Done => goes_on(run, RunPhaseView::MigrateFresh),
            RunAnswerView::Failed(error) => rebuild_fails(run, outside_error(error)),
            _ => run,
        },
        RunPhaseView::MigrateFresh => match answer {
            RunAnswerView::Done => goes_on(run, RunPhaseView::CopyTables),
            RunAnswerView::MigrationFailed { error, .. } => rebuild_fails(
                run,
                in_context(
                    outside_error(error),
                    "failed to migrate fresh database for recovered data"@,
                ),
            ),
            _ => run,
        },
        RunPhaseView::CopyTables => match answer {
            RunAnswerView::Done => goes_on(run, RunPhaseView::CountFresh),
            RunAnswerView::CopyFailed(error) => goes_on(
                run,
                RunPhaseView::CloseFresh { failure: Some(error) },
            ),
            _ => run,
        },
        RunPhaseView::CountFresh => match answer {
            RunAnswerView::Count(count) => if count == 0 {
                let error = plain_error("SQLite recovery did not recover any user tables"@);
                goes_on(run, RunPhaseView::CloseFresh { failure: Some(error) })
            } else {
                goes_on(run, RunPhaseView::CheckFresh)
            },
            RunAnswerView::Failed(error) => goes_on(
                run,
                RunPhaseView::CloseFresh { failure: Some(outside_error(error)) },
            ),
            _ => run,
        },
        RunPhaseView::CheckFresh => match answer {
            RunAnswerView::Rows(rows) => if is_sound(rows) {
                goes_on(run, RunPhaseView::CloseFresh { failure: None })
            } else {
                let error = plain_error(unsound_message(rows));
                goes_on(run, RunPhaseView::CloseFresh { failure: Some(error) })
            },
            RunAnswerView::Failed(error) => goes_on(
                run,
                RunPhaseView::CloseFresh { failure: Some(outside_error(error)) },
            ),
            _ => run,
        },
        RunPhaseView::CloseFresh { failure } => match (answer, failure) {
            (RunAnswerView::Done, None) => goes_on(run, RunPhaseView::RemoveRecovered),
            (RunAnswerView::Done, Some(failure)) => goes_on(
                run,
                RunPhaseView::RemoveFresh { error: failure },
            ),
            _ => run,
        },
        RunPhaseView::RemoveFresh { error } => match answer {
            RunAnswerView::Done => rebuild_fails(run, error),
            RunAnswerView::Failed(_) => rebuild_fails(run, error),
            _ => run,
        },
        RunPhaseView::RemoveRecovered => match answer {
            RunAnswerView::Done => goes_on(run, RunPhaseView::RenameFresh),
            RunAnswerView::Failed(error) => rebuild_fails(run, outside_error(error)),
            _ => run,
        },
        RunPhaseView::RenameFresh => match answer {
            RunAnswerView::Done => goes_on(run, RunPhaseView::Finished { failure: None }),
            RunAnswerView::Failed(error) => rebuild_fails(run, outside_error(error)),
            _ => run,
        },
        RunPhaseView::Finished { .. } => run,
    }
}

/// `after` searches a name for a fresh database beside what was recovered,
/// from the first number on, or has ended because there is none.
pub open spec fn searches_name<E>(before: RunView<E>, after: RunView<E>) -> bool {
    match after.phase {
        RunPhaseView::FindName { search } => {
            &&& is_first_search(
                search,
                before.recovered_path,
                "codex-recovery-normalized"@,
                "sqlite"@,
            )
            &&& is_candidate(search, after.normalized_path)
            &&& after == (RunView {
                normalized_path: after.normalized_path,
                phase: after.phase,
                ..before
            })
        },
        _ => {
            &&& is_named(before.recovered_path, None)
            &&& after == rebuild_fails(
                before,
                plain_error(no_name_message(before.recovered_path)),
            )
        },
    }
}

/// `after` follows `before` on what came of its action.
pub open spec fn run_follows<E>(
    before: RunView<E>,
    answer: RunAnswerView<E>,
    after: RunView<E>,
) -> bool {
    match (before.phase, answer) {
        (RunPhaseView::CloseUnmigrated, RunAnswerView::Done) => searches_name(before, after),
        (RunPhaseView::FindName { search }, RunAnswerView::Exists(true)) => {
            let next = SearchView { sequence: search.sequence + 1, ..search };
            &&& is_candidate(next, after.normalized_path)
            &&& after == (RunView {
                normalized_path: after.normalized_path,
                phase: RunPhaseView::FindName { search: next },
                ..before
            })
        },
        _ => after == run_after(before, answer),
    }
}

/// The name that is asked for is the last one that can be tried.
pub open spec fn run_is_exhausted<E>(run: RunView<E>) -> bool {
    run.phase matches RunPhaseView::FindName { search } && search.sequence >= LAST_SEQUENCE
}

impl<E> RunRecovery<E> {
    /// Starts to recover the database at `path` into `recovered_path`.
    pub fn new(path: &str, recovered_path: &str) -> (run: Self)
        ensures
            run@ == run_start::<E>(path@, recovered_path@),
    {
        RunRecovery {
            path: path.to_string(),
            recovered_path: recovered_path.to_string(),
            reason: String::new(),
            normalized_path: String::new(),
            phase: RunPhase::Recover,
        }
    }

    fn open_action(path: &String, create_if_missing: bool) -> (action: RunAction)
        ensures
            action@ == (RunActionView::OpenPool {
                path: path@,
                create_if_missing,
                busy_timeout_secs: BUSY_TIMEOUT_SECS,
                max_connections: MAX_CONNECTIONS,
            }),
    {
        RunAction::OpenPool {
            path: path.clone(),
            create_if_missing,
            busy_timeout_secs: BUSY_TIMEOUT_SECS,
            max_connections: MAX_CONNECTIONS,
        }
    }

    /// What to do next.
    pub fn action(&self) -> (action: RunAction)
        ensures
            action@ == run_action(self@),
    {
        match &self.phase {
            RunPhase::Recover => RunAction::Recover {
                path: self.path.clone(),
                recovered_path: self.recovered_path.clone(),
            },
            RunPhase::OpenRecovered => Self::open_action(&self.recovered_path, false),
            RunPhase::CountRecovered => RunAction::CountTables,
            RunPhase::CheckRecovered => RunAction::CheckIntegrity,
            RunPhase::MigrateRecovered => RunAction::Migrate,
            RunPhase::CheckMigrated => RunAction::CheckIntegrity,
            RunPhase::CloseMigrated => RunAction::ClosePool,
            RunPhase::CloseUnmigrated => RunAction::ClosePool,
            RunPhase::FindName { .. } => RunAction::CheckExists {
                path: self.normalized_path.clone(),
            },
            RunPhase::OpenFresh => Self::open_action(&self.normalized_path, true),
            RunPhase::MigrateFresh => RunAction::Migrate,
            RunPhase::CopyTables => RunAction::CopyTables {
                recovered_path: self.recovered_path.clone(),
            },
            RunPhase::CountFresh => RunAction::CountTables,
            RunPhase::CheckFresh => RunAction::CheckIntegrity,
            RunPhase::CloseFresh { .. } => RunAction::ClosePool,
            RunPhase::RemoveFresh { .. } => RunAction::Remove {
                path: self.normalized_path.clone(),
            },
            RunPhase::RemoveRecovered => RunAction::Remove { path: self.recovered_path.clone() },
            RunPhase::RenameFresh => RunAction::Rename {
                from: self.normalized_path.clone(),
                to: self.recovered_path.clone(),
            },
            RunPhase::Finished { .. } => RunAction::Nothing,
        }
    }

    fn in_phase(self, phase: RunPhase<E>) -> (run: Self)
        ensures
            run@ == goes_on(self@, run_phase_view(phase)),
    {
        RunRecovery {
            path: self.path,
            recovered_path: self.recovered_path,
            reason: self.reason,
            normalized_path: self.normalized_path,
            phase,
        }
    }

    fn fail(self, error: RecoveryError<E>) -> (run: Self)
        ensures
            run@ == run_fails(self@, error@),
    {
        self.in_phase(RunPhase::Finished { failure: Some(error) })
    }

    fn fail_rebuild(self, error: RecoveryError<E>) -> (run: Self)
        ensures
            run@ == rebuild_fails(self@, error@),
    {
        let what = "failed to normalize recovered database after migration failure: ";
        let context = what.to_string().concat(self.reason.as_str());
        let error = error.wrapped(context);
        self.fail(error)
    }

    /// Takes what came of opening, removing or moving something before there
    /// is a fresh database.
    fn first_step(self, answer: RunAnswer<E>, phase: RunPhase<E>) -> (run: Self)
        ensures
            run@ == match answer@ {
                RunAnswerView::Done => goes_on(self@, run_phase_view(phase)),
                RunAnswerView::Failed(error) => run_fails(self@, outside_error(error)),
                _ => self@,
            },
    {
        match answer {
            RunAnswer::Done => self.in_phase(phase),
            RunAnswer::Failed(error) => self.fail(RecoveryError::outside(error)),
            _ => self,
        }
    }

    /// The same with a fresh database.
    fn rebuild_step(self, answer: RunAnswer<E>, phase: RunPhase<E>) -> (run: Self)
        ensures
            run@ == match answer@ {
                RunAnswerView::Done => goes_on(self@, run_phase_view(phase)),
                RunAnswerView::Failed(error) => rebuild_fails(self@, outside_error(error)),
                _ => self@,
            },
    {
        match answer {
            RunAnswer::Done => self.in_phase(phase),
            RunAnswer::Failed(error) => self.fail_rebuild(RecoveryError::outside(error)),
            _ => self,
        }
    }
    /// Takes what the check of the open database said, before there is a fresh
    /// database.
    fn check_step(self, answer: RunAnswer<E>, phase: RunPhase<E>) -> (run: Self)
        ensures
            run@ == match answer@ {
                RunAnswerView::Rows(rows) => if is_sound(rows) {
                    goes_on(self@, run_phase_view(phase))
                } else {
                    run_fails(self@, plain_error(unsound_message(rows)))
                },
                RunAnswerView::Failed(error) => run_fails(self@, outside_error(error)),
                _ => self@,
            },
    {
        match answer {
            RunAnswer::Rows(rows) => match assert_integrity_ok(&rows) {
                Ok(_) => self.in_phase(phase),
                Err(message) => self.fail(RecoveryError::plain(message)),
            },
            RunAnswer::Failed(error) => self.fail(RecoveryError::outside(error)),
            _ => self,
        }
    }

    /// The fresh database is of no use.
    fn discard(self, error: RecoveryError<E>) -> (run: Self)
        ensures
            run@ == goes_on(self@, RunPhaseView::CloseFresh { failure: Some(error@) }),
    {
        self.in_phase(RunPhase::CloseFresh { failure: Some(error) })
    }

    /// Starts to search a name for a fresh database.
    fn search_name(self) -> (run: Self)
        ensures
            searches_name(self@, run@),
    {
        match SiblingSearch::new(
            self.recovered_path.as_str(),
            "codex-recovery-normalized",
            "sqlite",
        ) {
            Ok(search) => {
                let normalized_path = search.candidate();
                RunRecovery {
                    path: self.path,
                    recovered_path: self.recovered_path,
                    reason: self.reason,
                    normalized_path,
                    phase: RunPhase::FindName { search },
                }
            },
            Err(message) => self.fail_rebuild(RecoveryError::plain(message)),
        }
    }

    /// The name that is asked for is the last one that can be tried.
    pub fn is_at_last_name(&self) -> (last: bool)
        ensures
            last == run_is_exhausted(self@),
    {
        match &self.phase {
            RunPhase::FindName { search } => search.is_at_last(),
            _ => false,
        }
    }

    /// Takes what came of the action.
    pub fn answered(self, answer: RunAnswer<E>) -> (next: Self)
        requires
            !(answer@ == RunAnswerView::<E>::Exists(true) && run_is_exhausted(self@)),
        ensures
            run_follows(self@, answer@, next@),
    {
        let RunRecovery { path, recovered_path, reason, normalized_path, phase } = self;
        let run = RunRecovery {
            path,
            recovered_path,
            reason,
            normalized_path,
            phase: RunPhase::Recover,
        };
        match phase {
            RunPhase::Recover => match answer {
                RunAnswer::Panicked(error) => run.fail(
                    RecoveryError::outside(error).wrapped(
                        "sqlite recovery task panicked".to_string(),
                    ),
                ),
                answer => run.first_step(answer, RunPhase::OpenRecovered),
            },
            RunPhase::OpenRecovered => run.in_phase(RunPhase::OpenRecovered).first_step(
                answer,
                RunPhase::CountRecovered,
            ),
            RunPhase::CountRecovered => match answer {
                RunAnswer::Count(count) => match assert_recovered_schema(count) {
                    Ok(_) => run.in_phase(RunPhase::CheckRecovered),
                    Err(message) => run.fail(RecoveryError::plain(message)),
                },
                RunAnswer::Failed(error) => run.fail(RecoveryError::outside(error)),
                _ => run.in_phase(RunPhase::CountRecovered),
            },
            RunPhase::CheckRecovered => run.in_phase(RunPhase::CheckRecovered).check_step(
                answer,
                RunPhase::MigrateRecovered,
            ),
            RunPhase::MigrateRecovered => match answer {
                RunAnswer::Done => run.in_phase(RunPhase::CheckMigrated),
                RunAnswer::MigrationFailed { reason, .. } => RunRecovery {
                    path: run.path,
                    recovered_path: run.recovered_path,
                    reason,
                    normalized_path: run.normalized_path,
                    phase: RunPhase::CloseUnmigrated,
                },
                _ => run.in_phase(RunPhase::MigrateRecovered),
            },
            RunPhase::CheckMigrated => run.in_phase(RunPhase::CheckMigrated).check_step(
                answer,
                RunPhase::CloseMigrated,
            ),
            RunPhase::CloseMigrated => match answer {
                RunAnswer::Done => run.in_phase(RunPhase::Finished { failure: None }),
                _ => run.in_phase(RunPhase::CloseMigrated),
            },
            RunPhase::CloseUnmigrated => {
                let run = run.in_phase(RunPhase::CloseUnmigrated);
                match answer {
                    RunAnswer::Done => run.search_name(),
                    _ => run,
                }
            },
            RunPhase::FindName { search } => match answer {
                RunAnswer::Exists(true) => {
                    let mut search = search;
                    search.advance();
                    let normalized_path = search.candidate();
                    RunRecovery {
                        path: run.path,
                        recovered_path: run.recovered_path,
                        reason: run.reason,
                        normalized_path,
                        phase: RunPhase::FindName { search },
                    }
                },
                RunAnswer::Exists(false) => run.in_phase(RunPhase::OpenFresh),
                RunAnswer::Failed(error) => run.fail_rebuild(RecoveryError::outside(error)),
                _ => run.in_phase(RunPhase::FindName { search }),
            },
            RunPhase::OpenFresh => run.in_phase(RunPhase::OpenFresh).rebuild_step(
                answer,
                RunPhase::MigrateFresh,
            ),
            RunPhase::MigrateFresh => match answer {
                RunAnswer::Done => run.in_phase(RunPhase::CopyTables),
                RunAnswer::MigrationFailed { error, .. } => run.fail_rebuild(
                    RecoveryError::outside(error).wrapped(
                        "failed to migrate fresh database for recovered data".to_string(),
                    ),
                ),
                _ => run.in_phase(RunPhase::MigrateFresh),
            },
            RunPhase::CopyTables => match answer {
                RunAnswer::Done => run.in_phase(RunPhase::CountFresh),
                RunAnswer::CopyFailed(error) => run.discard(error),
                _ => run.in_phase(RunPhase::CopyTables),
            },
            RunPhase::CountFresh => match answer {
                RunAnswer::Count(count) => match assert_recovered_schema(count) {
                    Ok(_) => run.in_phase(RunPhase::CheckFresh),
                    Err(message) => run.discard(RecoveryError::plain(message)),
                },
                RunAnswer::Failed(error) => run.discard(RecoveryError::outside(error)),
                _ => run.in_phase(RunPhase::CountFresh),
            },
            RunPhase::CheckFresh => match answer {
                RunAnswer::Rows(rows) => match assert_integrity_ok(&rows) {
                    Ok(_) => run.in_phase(RunPhase::CloseFresh { failure: None }),
                    Err(message) => run.discard(RecoveryError::plain(message)),
                },
                RunAnswer::Failed(error) => run.discard(RecoveryError::outside(error)),
                _ => run.in_phase(RunPhase::CheckFresh),
            },
            RunPhase::CloseFresh { failure } => match (answer, failure) {
                (RunAnswer::Done, None) => run.in_phase(RunPhase::RemoveRecovered),
                (RunAnswer::Done, Some(error)) => run.in_phase(RunPhase::RemoveFresh { error }),
                (_, failure) => run.in_phase(RunPhase::CloseFresh { failure }),
            },
            RunPhase::RemoveFresh { error } => match answer {
                RunAnswer::Done => run.fail_rebuild(error),
                RunAnswer::Failed(_) => run.fail_rebuild(error),
                _ => run.in_phase(RunPhase::RemoveFresh { error }),
            },
            RunPhase::RemoveRecovered => run.in_phase(RunPhase::RemoveRecovered).rebuild_step(
                answer,
                RunPhase::RenameFresh,
            ),
            RunPhase::RenameFresh => run.in_phase(RunPhase::RenameFresh).rebuild_step(
                answer,
                RunPhase::Finished { failure: None },
            ),
            RunPhase::Finished { failure } => run.in_phase(RunPhase::Finished { failure }),
        }
    }

    /// How the run went, once it is over.
    pub fn outcome(self) -> (outcome: Option<Result<(), RecoveryError<E>>>)
        ensures
            match outcome {
                Some(Ok(_)) => self@.phase == (RunPhaseView::Finished::<E> { failure: None }),
                Some(Err(error)) => self@.phase == (RunPhaseView::Finished {
                    failure: Some(error@),
                }),
                None => !(self@.phase is Finished),
            },
    {
        match self.phase {
            RunPhase::Finished { failure: None } => Some(Ok(())),
            RunPhase::Finished { failure: Some(failure) } => Some(Err(failure)),
            _ => None,
        }
    }
}

} // verus!
