//! Recovering a database from beginning to end: prepare, run, replace, and say
//! what happens.
use vstd::prelude::*;

use crate::recovery_error::{RecoveryError, RecoveryErrorView, error_view, in_context};
use crate::recovery_prepare::RecoveryPaths;
use crate::recovery_status::{
    RuntimeDbSpec, completed_log, completed_log_text, completed_text, failed_text, prepare_context,
    prepare_text, recovery_completed_status, recovery_failed_status, recovery_started_status,
    replace_context, replace_text, run_context, run_text, started_log, started_log_text,
    started_text,
};
use crate::text::texts;

verus! {

/// What to do next.
pub enum DatabaseAction {
    /// Back up the database and find a name for the recovered one.
    Prepare { path: String },
    /// Tell the log.
    Log { message: String },
    /// Tell the person who waits.
    Print { message: String },
    /// Recover the database.
    Run { path: String, recovered_path: String },
    /// Put the recovered database in the place of the damaged one.
    Replace { path: String, recovered_path: String },
    /// Remove a file, if that can be done.
    Remove { path: String },
    /// Nothing: the recovery is over.
    Nothing,
}

/// The model of what to do next.
pub enum DatabaseActionView {
    Prepare { path: Seq<char> },
    Log { message: Seq<char> },
    Print { message: Seq<char> },
    Run { path: Seq<char>, recovered_path: Seq<char> },
    Replace { path: Seq<char>, recovered_path: Seq<char> },
    Remove { path: Seq<char> },
    Nothing,
}

impl View for DatabaseAction {
    type V = DatabaseActionView;

    open spec fn view(&self) -> DatabaseActionView {
        match self {
            DatabaseAction::Prepare { path } => DatabaseActionView::Prepare { path: path@ },
            DatabaseAction::Log { message } => DatabaseActionView::Log { message: message@ },
            DatabaseAction::Print { message } => DatabaseActionView::Print { message: message@ },
            DatabaseAction::Run { path, recovered_path } => DatabaseActionView::Run {
                path: path@,
                recovered_path: recovered_path@,
            },
            DatabaseAction::Replace { path, recovered_path } => DatabaseActionView::Replace {
                path: path@,
                recovered_path: recovered_path@,
            },
            DatabaseAction::Remove { path } => DatabaseActionView::Remove { path: path@ },
            DatabaseAction::Nothing => DatabaseActionView::Nothing,
        }
    }
}

/// What came of it.
pub enum DatabaseAnswer<E> {
    /// It was done, or there is nothing to say of it.
    Done,
    /// The recovery is prepared.
    Prepared(RecoveryPaths),
    /// It failed.
    Failed(RecoveryError<E>),
}

/// The model of what came of it.
pub enum DatabaseAnswerView<E> {
    Done,
    Prepared { recovered_path: Seq<char>, backups: Seq<Seq<char>> },
    Failed(RecoveryErrorView<E>),
}

impl<E> View for DatabaseAnswer<E> {
    type V = DatabaseAnswerView<E>;

    open spec fn view(&self) -> DatabaseAnswerView<E> {
        match self {
            DatabaseAnswer::Done => DatabaseAnswerView::Done,
            DatabaseAnswer::Prepared(paths) => DatabaseAnswerView::Prepared {
                recovered_path: paths.recovered_path@,
                backups: texts(paths.backup_paths@),
            },
            DatabaseAnswer::Failed(error) => DatabaseAnswerView::Failed(error@),
        }
    }
}

enum DatabasePhase<E> {
    Prepare,
    LogStarted,
    PrintStarted,
    Run,
    Replace,
    LogCompleted,
    PrintCompleted,
    RemoveRecovered { error: RecoveryError<E> },
    PrintFailed { error: RecoveryError<E> },
    Finished { failure: Option<RecoveryError<E>> },
}

/// How far a recovery has come.
pub enum DatabasePhaseView<E> {
    Prepare,
    LogStarted,
    PrintStarted,
    Run,
    Replace,
    LogCompleted,
    PrintCompleted,
    /// What was recovered is of no use.
    RemoveRecovered { error: RecoveryErrorView<E> },
    PrintFailed { error: RecoveryErrorView<E> },
    Finished { failure: Option<RecoveryErrorView<E>> },
}

spec fn database_phase_view<E>(phase: DatabasePhase<E>) -> DatabasePhaseView<E> {
    match phase {
        DatabasePhase::Prepare => DatabasePhaseView::Prepare,
        DatabasePhase::LogStarted => DatabasePhaseView::LogStarted,
        DatabasePhase::PrintStarted => DatabasePhaseView::PrintStarted,
        DatabasePhase::Run => DatabasePhaseView::Run,
        DatabasePhase::Replace => DatabasePhaseView::Replace,
        DatabasePhase::LogCompleted => DatabasePhaseView::LogCompleted,
        DatabasePhase::PrintCompleted => DatabasePhaseView::PrintCompleted,
        DatabasePhase::RemoveRecovered { error } => DatabasePhaseView::RemoveRecovered {
            error: error@,
        },
        DatabasePhase::PrintFailed { error } => DatabasePhaseView::PrintFailed { error: error@ },
        DatabasePhase::Finished { failure } => DatabasePhaseView::Finished {
            failure: error_view(failure),
        },
    }
}

/// The recovery of a database.
pub struct RecoverDatabase<E> {
    path: String,
    spec: RuntimeDbSpec,
    original_error: String,
    recovered_path: String,
    backup_paths: Vec<String>,
    phase: DatabasePhase<E>,
}

/// The model of the recovery of a database.
pub struct DatabaseView<E> {
    pub path: Seq<char>,
    pub label: Seq<char>,
    pub original_error: Seq<char>,
    pub recovered_path: Seq<char>,
    pub backups: Seq<Seq<char>>,
    pub phase: DatabasePhaseView<E>,
}

impl<E> View for RecoverDatabase<E> {
    type V = DatabaseView<E>;

    closed spec fn view(&self) -> DatabaseView<E> {
        DatabaseView {
            path: self.path@,
            label: self.spec.label@,
            original_error: self.original_error@,
            recovered_path: self.recovered_path@,
            backups: texts(self.backup_paths@),
            phase: database_phase_view(self.phase),
        }
    }
}

/// A recovery at its start.
pub open spec fn database_start<E>(
    path: Seq<char>,
    label: Seq<char>,
    original_error: Seq<char>,
) -> DatabaseView<E> {
    DatabaseView {
        path,
        label,
        original_error,
        recovered_path: seq![],
        backups: seq![],
        phase: DatabasePhaseView::Prepare,
    }
}

/// The action that a phase asks for.
pub open spec fn database_action<E>(view: DatabaseView<E>) -> DatabaseActionView {
    match view.phase {
        DatabasePhaseView::Prepare => DatabaseActionView::Prepare { path: view.path },
        DatabasePhaseView::LogStarted => DatabaseActionView::Log {
            message: started_log_text(view.path, view.label, view.original_error, view.backups),
        },
        DatabasePhaseView::PrintStarted => DatabaseActionView::Print {
            message: started_text(view.path, view.label, view.backups),
        },
        DatabasePhaseView::Run => DatabaseActionView::Run {
            path: view.path,
            recovered_path: view.recovered_path,
        },
        DatabasePhaseView::Replace => DatabaseActionView::Replace {
            path: view.path,
            recovered_path: view.recovered_path,
        },
        DatabasePhaseView::LogCompleted => DatabaseActionView::Log {
            message: completed_log_text(view.path, view.label),
        },
        DatabasePhaseView::PrintCompleted => DatabaseActionView::Print {
            message: completed_text(view.path, view.label),
        },
        DatabasePhaseView::RemoveRecovered { .. } => DatabaseActionView::Remove {
            path: view.recovered_path,
        },
        DatabasePhaseView::PrintFailed { .. } => DatabaseActionView::Print {
            message: failed_text(view.path, view.label, view.backups),
        },
        DatabasePhaseView::Finished { .. } => DatabaseActionView::Nothing,
    }
}

/// The recovery goes on.
pub open spec fn moves_to<E>(view: DatabaseView<E>, phase: DatabasePhaseView<E>) -> DatabaseView<E> {
    DatabaseView { phase, ..view }
}

/// The recovery after what came of its action. What cannot come of the action
/// changes nothing; that a message or a removal failed is not minded.
pub open spec fn database_after<E>(
    view: DatabaseView<E>,
    answer: DatabaseAnswerView<E>,
) -> DatabaseView<E> {
    match view.phase {
        DatabasePhaseView::Prepare => match answer {
            DatabaseAnswerView::Prepared { recovered_path, backups } => DatabaseView {
                recovered_path,
                backups,
                phase: DatabasePhaseView::LogStarted,
                ..view
            },
            DatabaseAnswerView::Failed(error) => {
                let failure = in_context(error, prepare_text(view.path, view.label));
                moves_to(view, DatabasePhaseView::Finished { failure: Some(failure) })
            },
            DatabaseAnswerView::Done => view,
        },
        DatabasePhaseView::LogStarted => moves_to(view, DatabasePhaseView::PrintStarted),
        DatabasePhaseView::PrintStarted => moves_to(view, DatabasePhaseView::Run),
        DatabasePhaseView::Run => match answer {
            DatabaseAnswerView::Done => moves_to(view, DatabasePhaseView::Replace),
            DatabaseAnswerView::Failed(error) => {
                let error = in_context(error, run_text(view.path, view.label, view.backups));
                moves_to(view, DatabasePhaseView::RemoveRecovered { error })
            },
            DatabaseAnswerView::Prepared { .. } => view,
        },
        DatabasePhaseView::Replace => match answer {
            DatabaseAnswerView::Done => moves_to(view, DatabasePhaseView::LogCompleted),
            DatabaseAnswerView::Failed(error) => {
                let error = in_context(error, replace_text(view.path, view.label, view.backups));
                moves_to(view, DatabasePhaseView::PrintFailed { error })
            },
            DatabaseAnswerView::Prepared { .. } => view,
        },
        DatabasePhaseView::LogCompleted => moves_to(view, DatabasePhaseView::PrintCompleted),
        DatabasePhaseView::PrintCompleted => moves_to(
            view,
            DatabasePhaseView::Finished { failure: None },
        ),
        DatabasePhaseView::RemoveRecovered { error } => moves_to(
            view,
            DatabasePhaseView::PrintFailed { error },
        ),
        DatabasePhaseView::PrintFailed { error } => moves_to(
            view,
            DatabasePhaseView::Finished { failure: Some(error) },
        ),
        DatabasePhaseView::Finished { .. } => view,
    }
}

impl<E> RecoverDatabase<E> {
    /// Starts to recover the database at `path`, which `original_error` tells
    /// to be damaged.
    pub fn new(path: &str, spec: RuntimeDbSpec, original_error: &str) -> (recovery: Self)
        ensures
            recovery@ == database_start::<E>(path@, spec.label@, original_error@),
    {
        let recovery = RecoverDatabase {
            path: path.to_string(),
            spec,
            original_error: original_error.to_string(),
            recovered_path: String::new(),
            backup_paths: Vec::new(),
            phase: DatabasePhase::Prepare,
        };
        assert(texts(recovery.backup_paths@) =~= seq![]);
        recovery
    }

    /// What to do next.
    pub fn action(&self) -> (action: DatabaseAction)
        ensures
            action@ == database_action(self@),
    {
        let path = self.path.as_str();
        match &self.phase {
            DatabasePhase::Prepare => DatabaseAction::Prepare { path: self.path.clone() },
            DatabasePhase::LogStarted => DatabaseAction::Log {
                message: started_log(
                    path,
                    &self.spec,
                    self.original_error.as_str(),
                    &self.backup_paths,
                ),
            },
            DatabasePhase::PrintStarted => DatabaseAction::Print {
                message: recovery_started_status(path, &self.spec, &self.backup_paths),
            },
            DatabasePhase::Run => DatabaseAction::Run {
                path: self.path.clone(),
                recovered_path: self.recovered_path.clone(),
            },
            DatabasePhase::Replace => DatabaseAction::Replace {
                path: self.path.clone(),
                recovered_path: self.recovered_path.clone(),
            },
            DatabasePhase::LogCompleted => DatabaseAction::Log {
                message: completed_log(path, &self.spec),
            },
            DatabasePhase::PrintCompleted => DatabaseAction::Print {
                message: recovery_completed_status(path, &self.spec),
            },
            DatabasePhase::RemoveRecovered { .. } => DatabaseAction::Remove {
                path: self.recovered_path.clone(),
            },
            DatabasePhase::PrintFailed { .. } => DatabaseAction::Print {
                message: recovery_failed_status(path, &self.spec, &self.backup_paths),
            },
            DatabasePhase::Finished { .. } => DatabaseAction::Nothing,
        }
    }

    fn in_phase(self, phase: DatabasePhase<E>) -> (recovery: Self)
        ensures
            recovery@ == moves_to(self@, database_phase_view(phase)),
    {
        RecoverDatabase {
            path: self.path,
            spec: self.spec,
            original_error: self.original_error,
            recovered_path: self.recovered_path,
            backup_paths: self.backup_paths,
            phase,
        }
    }

    /// Takes what came of the action.
    pub fn answered(self, answer: DatabaseAnswer<E>) -> (next: Self)
        ensures
            next@ == database_after(self@, answer@),
    {
        let RecoverDatabase { path, spec, original_error, recovered_path, backup_paths, phase } =
            self;
        let recovery = RecoverDatabase {
            path,
            spec,
            original_error,
            recovered_path,
            backup_paths,
            phase: DatabasePhase::Prepare,
        };
        match phase {
            DatabasePhase::Prepare => match answer {
                DatabaseAnswer::Prepared(paths) => RecoverDatabase {
                    path: recovery.path,
                    spec: recovery.spec,
                    original_error: recovery.original_error,
                    recovered_path: paths.recovered_path,
                    backup_paths: paths.backup_paths,
                    phase: DatabasePhase::LogStarted,
                },
                DatabaseAnswer::Failed(error) => {
                    let context = prepare_context(recovery.path.as_str(), &recovery.spec);
                    let failure = Some(error.wrapped(context));
                    recovery.in_phase(DatabasePhase::Finished { failure })
                },
                DatabaseAnswer::Done => recovery,
            },
            DatabasePhase::LogStarted => recovery.in_phase(DatabasePhase::PrintStarted),
            DatabasePhase::PrintStarted => recovery.in_phase(DatabasePhase::Run),
            DatabasePhase::Run => match answer {
                DatabaseAnswer::Done => recovery.in_phase(DatabasePhase::Replace),
                DatabaseAnswer::Failed(error) => {
                    let context = run_context(
                        recovery.path.as_str(),
                        &recovery.spec,
                        &recovery.backup_paths,
                    );
                    let error = error.wrapped(context);
                    recovery.in_phase(DatabasePhase::RemoveRecovered { error })
                },
                DatabaseAnswer::Prepared(_) => recovery.in_phase(DatabasePhase::Run),
            },
            DatabasePhase::Replace => match answer {
                DatabaseAnswer::Done => recovery.in_phase(DatabasePhase::LogCompleted),
                DatabaseAnswer::Failed(error) => {
                    let context = replace_context(
                        recovery.path.as_str(),
                        &recovery.spec,
                        &recovery.backup_paths,
                    );
                    let error = error.wrapped(context);
                    recovery.in_phase(DatabasePhase::PrintFailed { error })
                },
                DatabaseAnswer::Prepared(_) => recovery.in_phase(DatabasePhase::Replace),
            },
            DatabasePhase::LogCompleted => recovery.in_phase(DatabasePhase::PrintCompleted),
            DatabasePhase::PrintCompleted => recovery.in_phase(
                DatabasePhase::Finished { failure: None },
            ),
            DatabasePhase::RemoveRecovered { error } => recovery.in_phase(
                DatabasePhase::PrintFailed { error },
            ),
            DatabasePhase::PrintFailed { error } => recovery.in_phase(
                DatabasePhase::Finished { failure: Some(error) },
            ),
            DatabasePhase::Finished { failure } => recovery.in_phase(
                DatabasePhase::Finished { failure },
            ),
        }
    }

    /// How the recovery went, once it is over.
    pub fn outcome(self) -> (outcome: Option<Result<(), RecoveryError<E>>>)
        ensures
            match outcome {
                Some(Ok(_)) => self@.phase == (DatabasePhaseView::Finished::<E> { failure: None }),
                Some(Err(error)) => self@.phase == (DatabasePhaseView::Finished {
                    failure: Some(error@),
                }),
                None => !(self@.phase is Finished),
            },
    {
        match self.phase {
            DatabasePhase::Finished { failure: None } => Some(Ok(())),
            DatabasePhase::Finished { failure: Some(failure) } => Some(Err(failure)),
            _ => None,
        }
    }
}

// ---------------------------------------------------------------------------
// Laws
// ---------------------------------------------------------------------------

/// A recovery after a number of answers.
pub open spec fn database_run<E>(
    path: Seq<char>,
    label: Seq<char>,
    original_error: Seq<char>,
    answers: Seq<DatabaseAnswerView<E>>,
) -> DatabaseView<E>
    decreases answers.len(),
{
    if answers.len() == 0 {
        database_start(path, label, original_error)
    } else {
        database_after(
            database_run(path, label, original_error, answers.drop_last()),
            answers.last(),
        )
    }
}

/// The messages that were printed.
pub open spec fn printed<E>(
    path: Seq<char>,
    label: Seq<char>,
    original_error: Seq<char>,
    answers: Seq<DatabaseAnswerView<E>>,
) -> Seq<Seq<char>>
    decreases answers.len(),
{
    if answers.len() == 0 {
        seq![]
    } else {
        let before = printed(path, label, original_error, answers.drop_last());
        match database_action(database_run(path, label, original_error, answers.drop_last())) {
            DatabaseActionView::Print { message } => before.push(message),
            _ => before,
        }
    }
}

/// The recovery was prepared.
pub open spec fn was_prepared<E>(
    path: Seq<char>,
    label: Seq<char>,
    original_error: Seq<char>,
    answers: Seq<DatabaseAnswerView<E>>,
) -> bool
    decreases answers.len(),
{
    if answers.len() == 0 {
        false
    } else {
        ||| was_prepared(path, label, original_error, answers.drop_last())
        ||| database_run(path, label, original_error, answers.drop_last()).phase is Prepare
            && answers.last() is Prepared
    }
}

/// The damaged database was replaced.
pub open spec fn was_replaced<E>(
    path: Seq<char>,
    label: Seq<char>,
    original_error: Seq<char>,
    answers: Seq<DatabaseAnswerView<E>>,
) -> bool
    decreases answers.len(),
{
    if answers.len() == 0 {
        false
    } else {
        ||| was_replaced(path, label, original_error, answers.drop_last())
        ||| database_run(path, label, original_error, answers.drop_last()).phase is Replace
            && answers.last() is Done
    }
}

/// What has been printed in a phase.
spec fn printed_by<E>(view: DatabaseView<E>) -> Seq<Seq<char>> {
    let started = started_text(view.path, view.label, view.backups);
    let failed = failed_text(view.path, view.label, view.backups);
    match view.phase {
        DatabasePhaseView::Prepare => seq![],
        DatabasePhaseView::LogStarted => seq![],
        DatabasePhaseView::PrintStarted => seq![],
        DatabasePhaseView::Finished { failure: None } => seq![
            started,
            completed_text(view.path, view.label),
        ],
        DatabasePhaseView::Finished { .. } => seq![started, failed],
        _ => seq![started],
    }
}

proof fn lemma_printed<E>(
    path: Seq<char>,
    label: Seq<char>,
    original_error: Seq<char>,
    answers: Seq<DatabaseAnswerView<E>>,
)
    ensures
        ({
            let view = database_run(path, label, original_error, answers);
            let said = printed(path, label, original_error, answers);
            &&& view.path == path
            &&& view.label == label
            &&& if was_prepared(path, label, original_error, answers) {
                said == printed_by(view) && !(view.phase is Prepare)
            } else {
                &&& said.len() == 0
                &&& view.phase is Prepare || view.phase is Finished
                &&& view.phase != (DatabasePhaseView::Finished::<E> { failure: None })
            }
            &&& was_replaced(path, label, original_error, answers) <==> match view.phase {
                DatabasePhaseView::LogCompleted => true,
                DatabasePhaseView::PrintCompleted => true,
                DatabasePhaseView::Finished { failure: None } => true,
                _ => false,
            }
        }),
    decreases answers.len(),
{
    if answers.len() > 0 {
        lemma_printed(path, label, original_error, answers.drop_last());
        let before = database_run(path, label, original_error, answers.drop_last());
        let view = database_run(path, label, original_error, answers);
        let earlier = printed(path, label, original_error, answers.drop_last());
        let said = printed(path, label, original_error, answers);
        match before.phase {
            DatabasePhaseView::PrintStarted => {
                assert(said =~= printed_by(view));
            },
            DatabasePhaseView::PrintCompleted => {
                assert(said =~= printed_by(view));
            },
            DatabasePhaseView::PrintFailed { .. } => {
                assert(said =~= printed_by(view));
            },
            _ => {
                assert(said == earlier);
            },
        }
    }
}

/// A recovery succeeds exactly if the damaged database was replaced, and none is
/// replaced before its recovery was prepared. Once it is prepared, it is said
/// that it begins, and then how it ended.
pub proof fn success_is_replacement<E>(
    path: Seq<char>,
    label: Seq<char>,
    original_error: Seq<char>,
    answers: Seq<DatabaseAnswerView<E>>,
)
    requires
        database_run(path, label, original_error, answers).phase is Finished,
    ensures
        ({
            let view = database_run(path, label, original_error, answers);
            let said = printed(path, label, original_error, answers);
            &&& view.phase == (DatabasePhaseView::Finished::<E> { failure: None })
                <==> was_replaced(path, label, original_error, answers)
            &&& was_replaced(path, label, original_error, answers) ==> was_prepared(
                path,
                label,
                original_error,
                answers,
            )
            &&& view.phase == (DatabasePhaseView::Finished::<E> { failure: None }) ==> said == seq![
                started_text(path, label, view.backups),
                completed_text(path, label),
            ]
            &&& view.phase != (DatabasePhaseView::Finished::<E> { failure: None }) ==> said
                == if was_prepared(path, label, original_error, answers) {
                seq![
                    started_text(path, label, view.backups),
                    failed_text(path, label, view.backups),
                ]
            } else {
                seq![]
            }
        }),
{
    lemma_printed(path, label, original_error, answers);
}

/// Nothing is recovered, replaced or removed before the recovery was prepared.
pub proof fn backups_come_first<E>(
    path: Seq<char>,
    label: Seq<char>,
    original_error: Seq<char>,
    answers: Seq<DatabaseAnswerView<E>>,
)
    requires
        !was_prepared(path, label, original_error, answers),
    ensures
        match database_action(database_run(path, label, original_error, answers)) {
            DatabaseActionView::Prepare { .. } => true,
            DatabaseActionView::Nothing => true,
            _ => false,
        },
{
    lemma_printed(path, label, original_error, answers);
}

/// Apart from putting the recovered database in its place, a recovery removes
/// nothing but what it recovered, and that only after its run failed.
pub proof fn only_recovered_file_is_removed<E>(view: DatabaseView<E>)
    ensures
        database_action(view) matches DatabaseActionView::Remove { path } ==> path
            == view.recovered_path && view.phase is RemoveRecovered,
{
}

} // verus!
