//! What the calls of a recovery are, and what its failures say.
use vstd::prelude::*;

use crate::recover_api::{
    AnswerView, CallView, FailureView, PhaseView, RecoveryView, call_of, failure_message,
    holds_nul, phase_after, recovery_after, recovery_run, recovery_start,
};
use crate::text::signed_decimal;

verus! {

proof fn lemma_paths_stay(path: Seq<char>, recovered_path: Seq<char>, answers: Seq<AnswerView>)
    ensures
        recovery_run(path, recovered_path, answers).path == path,
        recovery_run(path, recovered_path, answers).recovered_path == recovered_path,
    decreases answers.len(),
{
    if answers.len() > 0 {
        lemma_paths_stay(path, recovered_path, answers.drop_last());
    }
}

/// Whatever SQLite answers: the file that is opened is the damaged one, for
/// reading and writing and by name or URI; what is set up is the recovery of its
/// main schema into the recovered file; and the one thing that is configured is
/// the table for orphaned rows.
pub proof fn calls_are_about_the_two_files(
    path: Seq<char>,
    recovered_path: Seq<char>,
    answers: Seq<AnswerView>,
)
    ensures
        match call_of(recovery_run(path, recovered_path, answers)) {
            CallView::Open { path: file, flags } => file == path && flags == 0x42,
            CallView::Init { schema, recovered_path: file } => schema == "main"@ && file
                == recovered_path,
            CallView::Configure { op, argument } => op == 1 && argument == "lost_and_found"@,
            _ => true,
        },
{
    lemma_paths_stay(path, recovered_path, answers);
    assert(0x2i32 | 0x40i32 == 0x42i32) by (bit_vector);
}

/// A path that holds a NUL is not handed to SQLite: the damaged one fails at
/// once, the other as soon as the database is open.
pub proof fn paths_with_a_nul_are_refused(path: Seq<char>, recovered_path: Seq<char>)
    ensures
        holds_nul(path) <==> exists|i: int| 0 <= i < path.len() && #[trigger] path[i] == '\0',
        holds_nul(path) ==> recovery_start(path, recovered_path).phase == (PhaseView::Done {
            failure: Some(FailureView::NulByte { path }),
        }),
        !holds_nul(path) ==> call_of(recovery_start(path, recovered_path)) is Open,
        !holds_nul(path) && holds_nul(recovered_path) ==> {
            let opened = recovery_after(
                recovery_start(path, recovered_path),
                AnswerView::Opened { rc: 0, is_null: false },
            );
            &&& call_of(opened) is Close
            &&& recovery_after(opened, AnswerView::Returned { rc: 0 }).phase == (PhaseView::Done {
                failure: Some(FailureView::NulByte { path: recovered_path }),
            })
        },
        failure_message(FailureView::NulByte { path }) == "path contains a NUL byte: "@ + path,
{
}

/// A recovery after its calls have gone well so far.
pub open spec fn after_good_calls(
    path: Seq<char>,
    recovered_path: Seq<char>,
    calls: nat,
) -> RecoveryView
    decreases calls,
{
    if calls == 0 {
        recovery_start(path, recovered_path)
    } else {
        let before = after_good_calls(path, recovered_path, (calls - 1) as nat);
        let answer = if calls == 1 {
            AnswerView::Opened { rc: 0, is_null: false }
        } else if calls == 2 {
            AnswerView::Initialized { is_null: false }
        } else {
            AnswerView::Returned { rc: 0 }
        };
        recovery_after(before, answer)
    }
}

/// Where every call goes well, the database is opened, the recovery set up,
/// configured, run and given back, the database closed, and the recovery has
/// succeeded.
pub proof fn good_calls_recover(path: Seq<char>, recovered_path: Seq<char>)
    requires
        !holds_nul(path),
        !holds_nul(recovered_path),
    ensures
        call_of(after_good_calls(path, recovered_path, 0)) is Open,
        call_of(after_good_calls(path, recovered_path, 1)) is Init,
        call_of(after_good_calls(path, recovered_path, 2)) is Configure,
        call_of(after_good_calls(path, recovered_path, 3)) is Run,
        call_of(after_good_calls(path, recovered_path, 4)) is Finish,
        call_of(after_good_calls(path, recovered_path, 5)) is Close,
        after_good_calls(path, recovered_path, 6).phase == (PhaseView::Done { failure: None }),
{
    reveal_with_fuel(after_good_calls, 8);
}

/// What an error message says; a missing one says so.
pub open spec fn said_by(message: Option<Seq<char>>) -> Seq<char> {
    match message {
        Some(message) => message,
        None => "unknown error"@,
    }
}

/// A database that does not open fails the recovery with its result code and
/// what SQLite says of it. Where there is a handle it is asked and given back;
/// without one there was no memory.
pub proof fn unopened_databases_fail(
    path: Seq<char>,
    recovered_path: Seq<char>,
    rc: i32,
    message: Option<Seq<char>>,
    closed: i32,
)
    requires
        !holds_nul(path),
        rc != 0,
    ensures
        ({
            let start = recovery_start(path, recovered_path);
            let text = "failed to open malformed database for recovery ("@ + signed_decimal(
                rc as int,
            ) + "): "@;
            let asked = recovery_after(start, AnswerView::Opened { rc, is_null: false });
            let told = recovery_after(asked, AnswerView::Message { message });
            &&& call_of(asked) is ErrorMessage
            &&& call_of(told) is Close
            &&& recovery_after(told, AnswerView::Returned { rc: closed }).phase == (
            PhaseView::Done {
                failure: Some(FailureView::Sqlite { message: text + said_by(message) }),
            })
            &&& recovery_after(start, AnswerView::Opened { rc, is_null: true }).phase == (
            PhaseView::Done {
                failure: Some(FailureView::Sqlite { message: text + "out of memory"@ }),
            })
        }),
{
}

/// A recovery that cannot be set up fails for want of memory.
pub proof fn recoveries_without_a_handle_fail(recovery: RecoveryView)
    requires
        recovery.phase is Init,
    ensures
        phase_after(recovery, AnswerView::Initialized { is_null: true }) == {
            let failure = Some(
                FailureView::Sqlite {
                    message: "failed to initialize SQLite recovery: out of memory"@,
                },
            );
            if recovery.database_open {
                PhaseView::Close { failure }
            } else {
                PhaseView::Done { failure }
            }
        },
{
}

/// A call of the recovery that fails is described by the recovery: its failure
/// says what was tried, the result code, and the code and the text that the
/// recovery gives. The recovery is given back, whatever comes of that.
pub proof fn failed_calls_are_described(
    recovery: RecoveryView,
    rc: i32,
    code: i32,
    message: Option<Seq<char>>,
    finished: i32,
)
    requires
        recovery.phase is Configure || recovery.phase is Run,
        recovery.database_open,
        rc != 0,
    ensures
        ({
            let what = if recovery.phase is Configure {
                "failed to configure SQLite recovery"@
            } else {
                "SQLite recovery failed"@
            };
            let failed = recovery_after(recovery, AnswerView::Returned { rc });
            let told = recovery_after(failed, AnswerView::Description { code, message });
            &&& call_of(failed) is Describe
            &&& call_of(told) is Finish
            &&& recovery_after(told, AnswerView::Returned { rc: finished }).phase == (
            PhaseView::Close {
                failure: Some(
                    FailureView::Sqlite {
                        message: what + " ("@ + signed_decimal(rc as int) + "): "@ + signed_decimal(
                            code as int,
                        ) + ": "@ + said_by(message),
                    },
                ),
            })
        }),
{
}

/// Giving a recovery back after a good run fails the recovery if SQLite says
/// so.
pub proof fn failed_cleanup_fails(recovery: RecoveryView, rc: i32)
    requires
        recovery.phase == (PhaseView::Finish { failure: None }),
        recovery.database_open,
    ensures
        phase_after(recovery, AnswerView::Returned { rc }) == (PhaseView::Close {
            failure: if rc == 0 {
                None
            } else {
                Some(
                    FailureView::Sqlite {
                        message: "SQLite recovery cleanup failed ("@ + signed_decimal(rc as int)
                            + ")"@,
                    },
                )
            },
        }),
{
}

/// The text of a failure that SQLite reported is what it said.
pub proof fn failures_say_what_sqlite_said(message: Seq<char>)
    ensures
        failure_message(FailureView::Sqlite { message }) == message,
{
}

/// A recovery keeps its two files. An answer that does not fit the call changes
/// nothing, and nothing changes once the recovery has ended.
pub proof fn answers_fit_the_call(recovery: RecoveryView, answer: AnswerView)
    ensures
        recovery_after(recovery, answer).path == recovery.path,
        recovery_after(recovery, answer).recovered_path == recovery.recovered_path,
        match call_of(recovery) {
            CallView::Open { .. } => !(answer is Opened),
            CallView::ErrorMessage => !(answer is Message),
            CallView::Init { .. } => !(answer is Initialized),
            CallView::Configure { .. } => !(answer is Returned),
            CallView::Describe => !(answer is Description),
            CallView::Run => !(answer is Returned),
            CallView::Finish => !(answer is Returned),
            CallView::Close => !(answer is Returned),
            CallView::Nothing => true,
        } ==> recovery_after(recovery, answer) == recovery,
{
}

} // verus!
