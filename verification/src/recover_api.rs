//! Driving SQLite's recovery extension: which call comes next, what its answer
//! means, and which handles have to be given back.
use vstd::prelude::*;

use crate::text::{chars_of, signed_decimal, signed_decimal_string};

verus! {

/// SQLite's result code for success.
pub const SQLITE_OK: i32 = 0;

/// Opens a database for reading and writing.
pub const SQLITE_OPEN_READWRITE: i32 = 0x2;

/// Lets a file name be a URI.
pub const SQLITE_OPEN_URI: i32 = 0x40;

/// The recovery option that names the table for orphaned rows.
pub const SQLITE_RECOVER_LOST_AND_FOUND: i32 = 1;

// ---------------------------------------------------------------------------
// Failures
// ---------------------------------------------------------------------------

/// Why a recovery failed.
pub enum RecoverFailure {
    /// A path cannot be handed to SQLite.
    NulByte { path: String },
    /// SQLite reported a failure.
    Sqlite { message: String },
}

/// The model of why a recovery failed.
pub enum FailureView {
    NulByte { path: Seq<char> },
    Sqlite { message: Seq<char> },
}

impl View for RecoverFailure {
    type V = FailureView;

    open spec fn view(&self) -> FailureView {
        match self {
            RecoverFailure::NulByte { path } => FailureView::NulByte { path: path@ },
            RecoverFailure::Sqlite { message } => FailureView::Sqlite { message: message@ },
        }
    }
}

/// The text of a failure.
pub open spec fn failure_message(failure: FailureView) -> Seq<char> {
    match failure {
        FailureView::NulByte { path } => "path contains a NUL byte: "@ + path,
        FailureView::Sqlite { message } => message,
    }
}

impl RecoverFailure {
    /// The text of the failure.
    pub fn message(&self) -> (message: String)
        ensures
            message@ == failure_message(self@),
    {
        match self {
            RecoverFailure::NulByte { path } => "path contains a NUL byte: ".to_string().concat(
                path.as_str(),
            ),
            RecoverFailure::Sqlite { message } => message.clone(),
        }
    }
}

/// `path` holds a NUL, at which SQLite would take it to end.
pub open spec fn holds_nul(path: Seq<char>) -> bool {
    path.contains('\0')
}

/// Tests whether `path` holds a NUL.
pub fn has_nul(path: &str) -> (found: bool)
    ensures
        found == holds_nul(path@),
{
    let chars = chars_of(path);
    let mut i: usize = 0;
    while i < chars.len()
        invariant
            chars@ == path@,
            i <= chars@.len(),
            forall|j: int| 0 <= j < i ==> chars@[j] != '\0',
        decreases chars@.len() - i,
    {
        if chars[i] == '\0' {
            assert(chars@.contains(chars@[i as int]));
            return true;
        }
        i = i + 1;
    }
    false
}

/// What an error message says; a null pointer says nothing.
pub open spec fn error_text(message: Option<Seq<char>>) -> Seq<char> {
    match message {
        Some(message) => message,
        None => "unknown error"@,
    }
}

/// Opening the damaged database failed.
pub open spec fn open_message(rc: i32, message: Seq<char>) -> Seq<char> {
    "failed to open malformed database for recovery ("@ + signed_decimal(rc as int) + "): "@
        + message
}

/// A call of the recovery extension failed: what it was, its result code, and
/// what the extension says of the failure.
pub open spec fn call_message(what: Seq<char>, rc: i32, code: i32, message: Seq<char>) -> Seq<char> {
    what + " ("@ + signed_decimal(rc as int) + "): "@ + signed_decimal(code as int) + ": "@ + message
}

/// Giving the recovery back failed.
pub open spec fn finish_message(rc: i32) -> Seq<char> {
    "SQLite recovery cleanup failed ("@ + signed_decimal(rc as int) + ")"@
}

// ---------------------------------------------------------------------------
// Calls, answers and phases
// ---------------------------------------------------------------------------

/// A call to make.
pub enum RecoverCall {
    /// `sqlite3_open_v2`.
    Open { path: String, flags: i32 },
    /// `sqlite3_errmsg` of the database.
    ErrorMessage,
    /// `sqlite3_recover_init` on the database.
    Init { schema: String, recovered_path: String },
    /// `sqlite3_recover_config`.
    Configure { op: i32, argument: String },
    /// `sqlite3_recover_run`.
    Run,
    /// `sqlite3_recover_errcode` and `sqlite3_recover_errmsg`.
    Describe,
    /// `sqlite3_recover_finish`.
    Finish,
    /// `sqlite3_close` of the database.
    Close,
    /// There is nothing left to do.
    Nothing,
}

/// The model of a call.
pub enum CallView {
    Open { path: Seq<char>, flags: i32 },
    ErrorMessage,
    Init { schema: Seq<char>, recovered_path: Seq<char> },
    Configure { op: i32, argument: Seq<char> },
    Run,
    Describe,
    Finish,
    Close,
    Nothing,
}

impl View for RecoverCall {
    type V = CallView;

    open spec fn view(&self) -> CallView {
        match self {
            RecoverCall::Open { path, flags } => CallView::Open { path: path@, flags: *flags },
            RecoverCall::ErrorMessage => CallView::ErrorMessage,
            RecoverCall::Init { schema, recovered_path } => CallView::Init {
                schema: schema@,
                recovered_path: recovered_path@,
            },
            RecoverCall::Configure { op, argument } => CallView::Configure {
                op: *op,
                argument: argument@,
            },
            RecoverCall::Run => CallView::Run,
            RecoverCall::Describe => CallView::Describe,
            RecoverCall::Finish => CallView::Finish,
            RecoverCall::Close => CallView::Close,
            RecoverCall::Nothing => CallView::Nothing,
        }
    }
}

/// The answer to a call.
pub enum RecoverAnswer {
    /// To `Open`: the result code, and whether a database handle came with it.
    Opened { rc: i32, is_null: bool },
    /// To `ErrorMessage`.
    Message { message: Option<String> },
    /// To `Init`: whether there is a recovery handle.
    Initialized { is_null: bool },
    /// To `Describe`.
    Description { code: i32, message: Option<String> },
    /// To the other calls.
    Returned { rc: i32 },
}

/// The model of an answer.
pub enum AnswerView {
    Opened { rc: i32, is_null: bool },
    Message { message: Option<Seq<char>> },
    Initialized { is_null: bool },
    Description { code: i32, message: Option<Seq<char>> },
    Returned { rc: i32 },
}

/// The model of a message that may be missing.
pub open spec fn message_view(message: Option<String>) -> Option<Seq<char>> {
    match message {
        Some(message) => Some(message@),
        None => None,
    }
}

impl View for RecoverAnswer {
    type V = AnswerView;

    open spec fn view(&self) -> AnswerView {
        match self {
            RecoverAnswer::Opened { rc, is_null } => AnswerView::Opened {
                rc: *rc,
                is_null: *is_null,
            },
            RecoverAnswer::Message { message } => AnswerView::Message {
                message: message_view(*message),
            },
            RecoverAnswer::Initialized { is_null } => AnswerView::Initialized { is_null: *is_null },
            RecoverAnswer::Description { code, message } => AnswerView::Description {
                code: *code,
                message: message_view(*message),
            },
            RecoverAnswer::Returned { rc } => AnswerView::Returned { rc: *rc },
        }
    }
}

/// How far a recovery has come.
enum RecoverPhase {
    Open,
    OpenFailed { rc: i32 },
    Init,
    Configure,
    ConfigureFailed { rc: i32 },
    Run,
    RunFailed { rc: i32 },
    Finish { failure: Option<RecoverFailure> },
    Close { failure: Option<RecoverFailure> },
    Done { failure: Option<RecoverFailure> },
}

/// The model of how far a recovery has come.
pub enum PhaseView {
    /// The damaged database is to be opened.
    Open,
    /// Opening failed; the reason is to be asked for.
    OpenFailed { rc: i32 },
    /// The recovery is to be set up.
    Init,
    /// The table for orphaned rows is to be named.
    Configure,
    /// That failed; the reason is to be asked for.
    ConfigureFailed { rc: i32 },
    /// The recovery is to be run.
    Run,
    /// That failed; the reason is to be asked for.
    RunFailed { rc: i32 },
    /// The recovery handle is to be given back.
    Finish { failure: Option<FailureView> },
    /// The database handle is to be given back.
    Close { failure: Option<FailureView> },
    /// The recovery is over.
    Done { failure: Option<FailureView> },
}

/// The model of a failure that may be missing.
pub open spec fn failure_view(failure: Option<RecoverFailure>) -> Option<FailureView> {
    match failure {
        Some(failure) => Some(failure@),
        None => None,
    }
}

spec fn phase_view(phase: RecoverPhase) -> PhaseView {
    match phase {
        RecoverPhase::Open => PhaseView::Open,
        RecoverPhase::OpenFailed { rc } => PhaseView::OpenFailed { rc },
        RecoverPhase::Init => PhaseView::Init,
        RecoverPhase::Configure => PhaseView::Configure,
        RecoverPhase::ConfigureFailed { rc } => PhaseView::ConfigureFailed { rc },
        RecoverPhase::Run => PhaseView::Run,
        RecoverPhase::RunFailed { rc } => PhaseView::RunFailed { rc },
        RecoverPhase::Finish { failure } => PhaseView::Finish { failure: failure_view(failure) },
        RecoverPhase::Close { failure } => PhaseView::Close { failure: failure_view(failure) },
        RecoverPhase::Done { failure } => PhaseView::Done { failure: failure_view(failure) },
    }
}

/// One recovery of a damaged database into a new file.
pub struct RecoveryHandle {
    path: String,
    recovered_path: String,
    /// There is a database handle to give back.
    database_open: bool,
    phase: RecoverPhase,
}

/// The model of a recovery.
pub struct RecoveryView {
    pub path: Seq<char>,
    pub recovered_path: Seq<char>,
    pub database_open: bool,
    pub phase: PhaseView,
}

impl View for RecoveryHandle {
    type V = RecoveryView;

    closed spec fn view(&self) -> RecoveryView {
        RecoveryView {
            path: self.path@,
            recovered_path: self.recovered_path@,
            database_open: self.database_open,
            phase: phase_view(self.phase),
        }
    }
}

// ---------------------------------------------------------------------------
// What comes next
// ---------------------------------------------------------------------------

/// A recovery at its start. A path that holds a NUL is not even opened.
pub open spec fn recovery_start(path: Seq<char>, recovered_path: Seq<char>) -> RecoveryView {
    RecoveryView {
        path,
        recovered_path,
        database_open: false,
        phase: if holds_nul(path) {
            PhaseView::Done { failure: Some(FailureView::NulByte { path }) }
        } else {
            PhaseView::Open
        },
    }
}

/// The call that naming the table for orphaned rows takes.
pub open spec fn lost_and_found_call() -> CallView {
    CallView::Configure { op: SQLITE_RECOVER_LOST_AND_FOUND, argument: "lost_and_found"@ }
}

/// The call that a phase asks for.
pub open spec fn call_of(recovery: RecoveryView) -> CallView {
    match recovery.phase {
        PhaseView::Open => CallView::Open {
            path: recovery.path,
            flags: SQLITE_OPEN_READWRITE | SQLITE_OPEN_URI,
        },
        PhaseView::OpenFailed { .. } => CallView::ErrorMessage,
        PhaseView::Init => CallView::Init {
            schema: "main"@,
            recovered_path: recovery.recovered_path,
        },
        PhaseView::Configure => lost_and_found_call(),
        PhaseView::ConfigureFailed { .. } => CallView::Describe,
        PhaseView::Run => CallView::Run,
        PhaseView::RunFailed { .. } => CallView::Describe,
        PhaseView::Finish { .. } => CallView::Finish,
        PhaseView::Close { .. } => CallView::Close,
        PhaseView::Done { .. } => CallView::Nothing,
    }
}

/// `answer` is an answer to `call`.
pub open spec fn is_answer_to(call: CallView, answer: AnswerView) -> bool {
    match call {
        CallView::Open { .. } => answer is Opened,
        CallView::ErrorMessage => answer is Message,
        CallView::Init { .. } => answer is Initialized,
        CallView::Describe => answer is Description,
        CallView::Nothing => false,
        _ => answer is Returned,
    }
}

/// The phase in which a database handle, if there is one, is given back.
pub open spec fn closing(database_open: bool, failure: Option<FailureView>) -> PhaseView {
    if database_open {
        PhaseView::Close { failure }
    } else {
        PhaseView::Done { failure }
    }
}

/// The phase after an answer to a phase's call.
pub open spec fn phase_after(recovery: RecoveryView, answer: AnswerView) -> PhaseView {
    match (recovery.phase, answer) {
        (PhaseView::Open, AnswerView::Opened { rc, is_null }) => {
            if rc != SQLITE_OK {
                if is_null {
                    let message = open_message(rc, "out of memory"@);
                    PhaseView::Done { failure: Some(FailureView::Sqlite { message }) }
                } else {
                    PhaseView::OpenFailed { rc }
                }
            } else if holds_nul(recovery.recovered_path) {
                closing(!is_null, Some(FailureView::NulByte { path: recovery.recovered_path }))
            } else {
                PhaseView::Init
            }
        },
        (PhaseView::OpenFailed { rc }, AnswerView::Message { message }) => {
            let message = open_message(rc, error_text(message));
            PhaseView::Close { failure: Some(FailureView::Sqlite { message }) }
        },
        (PhaseView::Init, AnswerView::Initialized { is_null }) => {
            if is_null {
                let message = "failed to initialize SQLite recovery: out of memory"@;
                closing(recovery.database_open, Some(FailureView::Sqlite { message }))
            } else {
                PhaseView::Configure
            }
        },
        (PhaseView::Configure, AnswerView::Returned { rc }) => {
            if rc == SQLITE_OK {
                PhaseView::Run
            } else {
                PhaseView::ConfigureFailed { rc }
            }
        },
        (PhaseView::ConfigureFailed { rc }, AnswerView::Description { code, message }) => {
            let what = "failed to configure SQLite recovery"@;
            let message = call_message(what, rc, code, error_text(message));
            PhaseView::Finish { failure: Some(FailureView::Sqlite { message }) }
        },
        (PhaseView::Run, AnswerView::Returned { rc }) => {
            if rc == SQLITE_OK {
                PhaseView::Finish { failure: None }
            } else {
                PhaseView::RunFailed { rc }
            }
        },
        (PhaseView::RunFailed { rc }, AnswerView::Description { code, message }) => {
            let what = "SQLite recovery failed"@;
            let message = call_message(what, rc, code, error_text(message));
            PhaseView::Finish { failure: Some(FailureView::Sqlite { message }) }
        },
        (PhaseView::Finish { failure }, AnswerView::Returned { rc }) => {
            if failure is None && rc != SQLITE_OK {
                let message = finish_message(rc);
                closing(recovery.database_open, Some(FailureView::Sqlite { message }))
            } else {
                closing(recovery.database_open, failure)
            }
        },
        (PhaseView::Close { failure }, AnswerView::Returned { .. }) => PhaseView::Done { failure },
        (phase, _) => phase,
    }
}

/// A recovery after an answer to its call. An answer to another call changes
/// nothing.
pub open spec fn recovery_after(recovery: RecoveryView, answer: AnswerView) -> RecoveryView {
    RecoveryView {
        database_open: match (recovery.phase, answer) {
            (PhaseView::Open, AnswerView::Opened { is_null, .. }) => !is_null,
            (PhaseView::Close { .. }, AnswerView::Returned { .. }) => false,
            _ => recovery.database_open,
        },
        phase: phase_after(recovery, answer),
        ..recovery
    }
}

/// Starts the recovery of the database at `path` into `recovered_path`.
pub fn recover(path: &str, recovered_path: &str) -> (recovery: RecoveryHandle)
    ensures
        recovery@ == recovery_start(path@, recovered_path@),
{
    RecoveryHandle {
        path: path.to_string(),
        recovered_path: recovered_path.to_string(),
        database_open: false,
        phase: if has_nul(path) {
            RecoverPhase::Done {
                failure: Some(RecoverFailure::NulByte { path: path.to_string() }),
            }
        } else {
            RecoverPhase::Open
        },
    }
}

fn error_text_of(message: Option<String>) -> (text: String)
    ensures
        text@ == error_text(message_view(message)),
{
    match message {
        Some(message) => message,
        None => "unknown error".to_string(),
    }
}

fn open_failure(rc: i32, message: &str) -> (failure: RecoverFailure)
    ensures
        failure@ == (FailureView::Sqlite { message: open_message(rc, message@) }),
{
    let code = signed_decimal_string(rc);
    let message = "failed to open malformed database for recovery (".to_string().concat(
        code.as_str(),
    ).concat("): ").concat(message);
    RecoverFailure::Sqlite { message }
}

fn call_failure(what: &str, rc: i32, code: i32, message: &str) -> (failure: RecoverFailure)
    ensures
        failure@ == (FailureView::Sqlite { message: call_message(what@, rc, code, message@) }),
{
    let rc = signed_decimal_string(rc);
    let code = signed_decimal_string(code);
    let message = what.to_string().concat(" (").concat(rc.as_str()).concat("): ").concat(
        code.as_str(),
    ).concat(": ").concat(message);
    RecoverFailure::Sqlite { message }
}

fn finish_failure(rc: i32) -> (failure: RecoverFailure)
    ensures
        failure@ == (FailureView::Sqlite { message: finish_message(rc) }),
{
    let code = signed_decimal_string(rc);
    let message = "SQLite recovery cleanup failed (".to_string().concat(code.as_str()).concat(")");
    RecoverFailure::Sqlite { message }
}

fn close_next(database_open: bool, failure: Option<RecoverFailure>) -> (phase: RecoverPhase)
    ensures
        phase_view(phase) == closing(database_open, failure_view(failure)),
{
    if database_open {
        RecoverPhase::Close { failure }
    } else {
        RecoverPhase::Done { failure }
    }
}

impl RecoveryHandle {
    /// The call that names the table for orphaned rows. They are kept there,
    /// as the `sqlite3` shell keeps them, and not thrown away.
    pub fn configure_lost_and_found(&self) -> (call: RecoverCall)
        ensures
            call@ == lost_and_found_call(),
    {
        RecoverCall::Configure {
            op: SQLITE_RECOVER_LOST_AND_FOUND,
            argument: "lost_and_found".to_string(),
        }
    }

    /// The call to make next.
    pub fn next_call(&self) -> (call: RecoverCall)
        ensures
            call@ == call_of(self@),
    {
        match &self.phase {
            RecoverPhase::Open => RecoverCall::Open {
                path: self.path.clone(),
                flags: SQLITE_OPEN_READWRITE | SQLITE_OPEN_URI,
            },
            RecoverPhase::OpenFailed { .. } => RecoverCall::ErrorMessage,
            RecoverPhase::Init => RecoverCall::Init {
                schema: "main".to_string(),
                recovered_path: self.recovered_path.clone(),
            },
            RecoverPhase::Configure => self.configure_lost_and_found(),
            RecoverPhase::ConfigureFailed { .. } => RecoverCall::Describe,
            RecoverPhase::Run => RecoverCall::Run,
            RecoverPhase::RunFailed { .. } => RecoverCall::Describe,
            RecoverPhase::Finish { .. } => RecoverCall::Finish,
            RecoverPhase::Close { .. } => RecoverCall::Close,
            RecoverPhase::Done { .. } => RecoverCall::Nothing,
        }
    }

    /// Takes the answer to the call.
    pub fn answered(self, answer: RecoverAnswer) -> (next: RecoveryHandle)
        ensures
            next@ == recovery_after(self@, answer@),
    {
        let RecoveryHandle { path, recovered_path, database_open, phase } = self;
        match (phase, answer) {
            (RecoverPhase::Open, RecoverAnswer::Opened { rc, is_null }) => {
                let phase = if rc != SQLITE_OK {
                    if is_null {
                        RecoverPhase::Done { failure: Some(open_failure(rc, "out of memory")) }
                    } else {
                        RecoverPhase::OpenFailed { rc }
                    }
                } else if has_nul(recovered_path.as_str()) {
                    close_next(
                        !is_null,
                        Some(RecoverFailure::NulByte { path: recovered_path.clone() }),
                    )
                } else {
                    RecoverPhase::Init
                };
                RecoveryHandle { path, recovered_path, database_open: !is_null, phase }
            },
            (RecoverPhase::OpenFailed { rc }, RecoverAnswer::Message { message }) => {
                let message = error_text_of(message);
                let failure = Some(open_failure(rc, message.as_str()));
                let phase = RecoverPhase::Close { failure };
                RecoveryHandle { path, recovered_path, database_open, phase }
            },
            (RecoverPhase::Init, RecoverAnswer::Initialized { is_null }) => {
                let phase = if is_null {
                    let message = "failed to initialize SQLite recovery: out of memory".to_string();
                    close_next(database_open, Some(RecoverFailure::Sqlite { message }))
                } else {
                    RecoverPhase::Configure
                };
                RecoveryHandle { path, recovered_path, database_open, phase }
            },
            (RecoverPhase::Configure, RecoverAnswer::Returned { rc }) => {
                let phase = if rc == SQLITE_OK {
                    RecoverPhase::Run
                } else {
                    RecoverPhase::ConfigureFailed { rc }
                };
                RecoveryHandle { path, recovered_path, database_open, phase }
            },
            (
                RecoverPhase::ConfigureFailed { rc },
                RecoverAnswer::Description { code, message },
            ) => {
                let message = error_text_of(message);
                let what = "failed to configure SQLite recovery";
                let failure = Some(call_failure(what, rc, code, message.as_str()));
                let phase = RecoverPhase::Finish { failure };
                RecoveryHandle { path, recovered_path, database_open, phase }
            },
            (RecoverPhase::Run, RecoverAnswer::Returned { rc }) => {
                let phase = if rc == SQLITE_OK {
                    RecoverPhase::Finish { failure: None }
                } else {
                    RecoverPhase::RunFailed { rc }
                };
                RecoveryHandle { path, recovered_path, database_open, phase }
            },
            (RecoverPhase::RunFailed { rc }, RecoverAnswer::Description { code, message }) => {
                let message = error_text_of(message);
                let what = "SQLite recovery failed";
                let failure = Some(call_failure(what, rc, code, message.as_str()));
                let phase = RecoverPhase::Finish { failure };
                RecoveryHandle { path, recovered_path, database_open, phase }
            },
            (RecoverPhase::Finish { failure }, RecoverAnswer::Returned { rc }) => {
                let failure = if failure.is_none() && rc != SQLITE_OK {
                    Some(finish_failure(rc))
                } else {
                    failure
                };
                let phase = close_next(database_open, failure);
                RecoveryHandle { path, recovered_path, database_open, phase }
            },
            (RecoverPhase::Close { failure }, RecoverAnswer::Returned { .. }) => {
                let phase = RecoverPhase::Done { failure };
                RecoveryHandle { path, recovered_path, database_open: false, phase }
            },
            (phase, _) => RecoveryHandle { path, recovered_path, database_open, phase },
        }
    }

    /// How the recovery went, once there is nothing left to do.
    pub fn outcome(self) -> (outcome: Option<Result<(), RecoverFailure>>)
        ensures
            match outcome {
                Some(Ok(_)) => self@.phase == (PhaseView::Done { failure: None }),
                Some(Err(failure)) => self@.phase == (PhaseView::Done { failure: Some(failure@) }),
                None => !(self@.phase is Done),
            },
    {
        match self.phase {
            RecoverPhase::Done { failure: None } => Some(Ok(())),
            RecoverPhase::Done { failure: Some(failure) } => Some(Err(failure)),
            _ => None,
        }
    }
}

// ---------------------------------------------------------------------------
// Laws
// ---------------------------------------------------------------------------

/// A recovery after a number of answers.
pub open spec fn recovery_run(
    path: Seq<char>,
    recovered_path: Seq<char>,
    answers: Seq<AnswerView>,
) -> RecoveryView
    decreases answers.len(),
{
    if answers.len() == 0 {
        recovery_start(path, recovered_path)
    } else {
        recovery_after(recovery_run(path, recovered_path, answers.drop_last()), answers.last())
    }
}

/// The handles that SQLite has given out and not taken back.
pub struct HeldHandles {
    pub database: bool,
    pub recovery: bool,
}

/// The handles held after a number of answers, by the calls that were
/// answered.
pub open spec fn held_handles(
    path: Seq<char>,
    recovered_path: Seq<char>,
    answers: Seq<AnswerView>,
) -> HeldHandles
    decreases answers.len(),
{
    if answers.len() == 0 {
        HeldHandles { database: false, recovery: false }
    } else {
        let before = held_handles(path, recovered_path, answers.drop_last());
        let call = call_of(recovery_run(path, recovered_path, answers.drop_last()));
        match (call, answers.last()) {
            (CallView::Open { .. }, AnswerView::Opened { is_null, .. }) => HeldHandles {
                database: !is_null,
                ..before
            },
            (CallView::Init { .. }, AnswerView::Initialized { is_null }) => HeldHandles {
                recovery: !is_null,
                ..before
            },
            (CallView::Finish, AnswerView::Returned { .. }) => HeldHandles {
                recovery: false,
                ..before
            },
            (CallView::Close, AnswerView::Returned { .. }) => HeldHandles {
                database: false,
                ..before
            },
            _ => before,
        }
    }
}

/// What each phase holds.
proof fn lemma_held(path: Seq<char>, recovered_path: Seq<char>, answers: Seq<AnswerView>)
    ensures
        ({
            let recovery = recovery_run(path, recovered_path, answers);
            let held = held_handles(path, recovered_path, answers);
            &&& held.database == recovery.database_open
            &&& recovery.phase is Open ==> !recovery.database_open
            &&& recovery.phase is Done ==> !recovery.database_open
            &&& recovery.phase is Close ==> recovery.database_open
            &&& recovery.phase is OpenFailed ==> recovery.database_open
            &&& held.recovery == match recovery.phase {
                PhaseView::Configure => true,
                PhaseView::ConfigureFailed { .. } => true,
                PhaseView::Run => true,
                PhaseView::RunFailed { .. } => true,
                PhaseView::Finish { .. } => true,
                _ => false,
            }
        }),
    decreases answers.len(),
{
    if answers.len() > 0 {
        lemma_held(path, recovered_path, answers.drop_last());
    }
}

/// Whatever SQLite answers, a recovery that is over holds no handle any more.
pub proof fn recovery_leaves_no_handle(
    path: Seq<char>,
    recovered_path: Seq<char>,
    answers: Seq<AnswerView>,
)
    requires
        recovery_run(path, recovered_path, answers).phase is Done,
    ensures
        held_handles(path, recovered_path, answers) == (HeldHandles {
            database: false,
            recovery: false,
        }),
{
    lemma_held(path, recovered_path, answers);
}

/// A handle is only used while it is held, and given back once: the recovery
/// handle before the database under it. SQLite hands out a database handle
/// whenever it reports success.
pub proof fn calls_use_held_handles(
    path: Seq<char>,
    recovered_path: Seq<char>,
    answers: Seq<AnswerView>,
)
    requires
        forall|i: int|
            0 <= i < answers.len() ==> !(#[trigger] answers[i] == AnswerView::Opened {
                rc: SQLITE_OK,
                is_null: true,
            }),
    ensures
        ({
            let held = held_handles(path, recovered_path, answers);
            match call_of(recovery_run(path, recovered_path, answers)) {
                CallView::Open { .. } => !held.database && !held.recovery,
                CallView::ErrorMessage => held.database && !held.recovery,
                CallView::Init { .. } => held.database && !held.recovery,
                CallView::Configure { .. } => held.database && held.recovery,
                CallView::Run => held.database && held.recovery,
                CallView::Describe => held.database && held.recovery,
                CallView::Finish => held.database && held.recovery,
                CallView::Close => held.database && !held.recovery,
                CallView::Nothing => true,
            }
        }),
    decreases answers.len(),
{
    lemma_held(path, recovered_path, answers);
    if answers.len() > 0 {
        let before = answers.drop_last();
        assert forall|i: int| 0 <= i < before.len() implies !(#[trigger] before[i]
            == AnswerView::Opened { rc: SQLITE_OK, is_null: true }) by {
            assert(before[i] == answers[i]);
        }
        assert(answers.last() == answers[answers.len() - 1]);
        calls_use_held_handles(path, recovered_path, before);
        lemma_held(path, recovered_path, before);
    }
}

/// An answer that reports no failure.
pub open spec fn is_good(answer: AnswerView) -> bool {
    match answer {
        AnswerView::Opened { rc, .. } => rc == SQLITE_OK,
        AnswerView::Initialized { is_null } => !is_null,
        AnswerView::Returned { rc } => rc == SQLITE_OK,
        _ => true,
    }
}

/// Every call but the last one, which closes the database, succeeded.
pub open spec fn all_succeeded(
    path: Seq<char>,
    recovered_path: Seq<char>,
    answers: Seq<AnswerView>,
) -> bool
    decreases answers.len(),
{
    if answers.len() == 0 {
        true
    } else {
        let call = call_of(recovery_run(path, recovered_path, answers.drop_last()));
        &&& all_succeeded(path, recovered_path, answers.drop_last())
        &&& is_answer_to(call, answers.last()) && !(call is Close) ==> is_good(answers.last())
    }
}

/// The failure that a phase carries or is about to ask for.
spec fn has_failed(phase: PhaseView) -> bool {
    match phase {
        PhaseView::OpenFailed { .. } => true,
        PhaseView::ConfigureFailed { .. } => true,
        PhaseView::RunFailed { .. } => true,
        PhaseView::Finish { failure } => failure is Some,
        PhaseView::Close { failure } => failure is Some,
        PhaseView::Done { failure } => failure is Some,
        _ => false,
    }
}

proof fn lemma_failed(path: Seq<char>, recovered_path: Seq<char>, answers: Seq<AnswerView>)
    requires
        !holds_nul(path),
        !holds_nul(recovered_path),
    ensures
        has_failed(recovery_run(path, recovered_path, answers).phase) == !all_succeeded(
            path,
            recovered_path,
            answers,
        ),
        recovery_run(path, recovered_path, answers).recovered_path == recovered_path,
    decreases answers.len(),
{
    if answers.len() > 0 {
        lemma_failed(path, recovered_path, answers.drop_last());
    }
}

/// A recovery succeeds exactly if both paths can be handed to SQLite and every
/// call but closing the damaged database succeeds.
pub proof fn recovery_succeeds_iff_calls_do(
    path: Seq<char>,
    recovered_path: Seq<char>,
    answers: Seq<AnswerView>,
)
    requires
        recovery_run(path, recovered_path, answers).phase is Done,
    ensures
        recovery_run(path, recovered_path, answers).phase == (PhaseView::Done { failure: None })
            <==> !holds_nul(path) && !holds_nul(recovered_path) && all_succeeded(
            path,
            recovered_path,
            answers,
        ),
{
    if !holds_nul(path) && !holds_nul(recovered_path) {
        lemma_failed(path, recovered_path, answers);
    } else {
        lemma_nul_fails(path, recovered_path, answers);
    }
}

proof fn lemma_nul_fails(path: Seq<char>, recovered_path: Seq<char>, answers: Seq<AnswerView>)
    requires
        holds_nul(path) || holds_nul(recovered_path),
    ensures
        recovery_run(path, recovered_path, answers).phase is Open || has_failed(
            recovery_run(path, recovered_path, answers).phase,
        ),
        recovery_run(path, recovered_path, answers).recovered_path == recovered_path,
        recovery_run(path, recovered_path, answers).phase is Open ==> !holds_nul(path),
    decreases answers.len(),
{
    if answers.len() > 0 {
        lemma_nul_fails(path, recovered_path, answers.drop_last());
    }
}

} // verus!
