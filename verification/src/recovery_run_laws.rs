//! What holds of every run of a recovery, whatever comes of its actions.
use vstd::prelude::*;

use crate::recovery_run::{
    RunActionView, RunAnswerView, RunPhaseView, RunView, run_action, run_follows, run_start,
};
use crate::recovery_tables::is_sound;

verus! {

/// `runs` are the states that a run goes through on `answers`.
pub open spec fn is_run<E>(
    path: Seq<char>,
    recovered_path: Seq<char>,
    runs: Seq<RunView<E>>,
    answers: Seq<RunAnswerView<E>>,
) -> bool {
    &&& runs.len() == answers.len() + 1
    &&& runs[0] == run_start::<E>(path, recovered_path)
    &&& forall|i: int|
        0 <= i < answers.len() ==> run_follows(runs[i], #[trigger] answers[i], runs[i + 1])
}

/// What the open database has shown.
pub struct Vetting {
    /// It has user tables.
    pub counted: bool,
    /// It is sound, and has not been changed since.
    pub sound: bool,
}

/// What the open database has shown after `answers`, by the actions that they
/// answer.
pub open spec fn vetting<E>(runs: Seq<RunView<E>>, answers: Seq<RunAnswerView<E>>) -> Vetting
    decreases answers.len(),
{
    if answers.len() == 0 {
        Vetting { counted: false, sound: false }
    } else {
        let before = vetting(runs, answers.drop_last());
        match (run_action(runs[answers.len() - 1]), answers.last()) {
            (RunActionView::OpenPool { .. }, RunAnswerView::Done) => Vetting {
                counted: false,
                sound: false,
            },
            (RunActionView::Migrate, RunAnswerView::Done) => Vetting { sound: false, ..before },
            (RunActionView::CopyTables { .. }, RunAnswerView::Done) => Vetting {
                sound: false,
                ..before
            },
            (RunActionView::CountTables, RunAnswerView::Count(count)) => Vetting {
                counted: count != 0,
                ..before
            },
            (RunActionView::CheckIntegrity, RunAnswerView::Rows(rows)) => Vetting {
                sound: is_sound(rows),
                ..before
            },
            _ => before,
        }
    }
}

/// What a phase takes for granted of the open database.
spec fn vetted_for<E>(phase: RunPhaseView<E>, shown: Vetting) -> bool {
    match phase {
        RunPhaseView::CheckRecovered => shown.counted,
        RunPhaseView::MigrateRecovered => shown.counted && shown.sound,
        RunPhaseView::CheckMigrated => shown.counted,
        RunPhaseView::CloseMigrated => shown.counted && shown.sound,
        RunPhaseView::CheckFresh => shown.counted,
        RunPhaseView::CloseFresh { failure } => failure is None ==> shown.counted && shown.sound,
        RunPhaseView::RemoveRecovered => shown.counted && shown.sound,
        RunPhaseView::RenameFresh => shown.counted && shown.sound,
        RunPhaseView::Finished { failure } => failure is None ==> shown.counted && shown.sound,
        _ => true,
    }
}

/// The first states of a run are a run.
proof fn lemma_shorter_run<E>(
    path: Seq<char>,
    recovered_path: Seq<char>,
    runs: Seq<RunView<E>>,
    answers: Seq<RunAnswerView<E>>,
)
    requires
        is_run(path, recovered_path, runs, answers),
        answers.len() > 0,
    ensures
        is_run(path, recovered_path, runs.drop_last(), answers.drop_last()),
        run_follows(runs[answers.len() - 1], answers.last(), runs.last()),
        runs.drop_last().last() == runs[answers.len() - 1],
{
    let before = answers.drop_last();
    let earlier = runs.drop_last();
    assert forall|i: int| 0 <= i < before.len() implies run_follows(
        earlier[i],
        #[trigger] before[i],
        earlier[i + 1],
    ) by {
        assert(before[i] == answers[i]);
    }
    assert(answers[answers.len() - 1] == answers.last());
}

/// What was shown depends on the states that were gone through alone.
proof fn lemma_vetting_prefix<E>(
    runs: Seq<RunView<E>>,
    answers: Seq<RunAnswerView<E>>,
)
    requires
        runs.len() > answers.len() + 1,
    ensures
        vetting(runs, answers) == vetting(runs.drop_last(), answers),
    decreases answers.len(),
{
    if answers.len() > 0 {
        lemma_vetting_prefix(runs, answers.drop_last());
    }
}

proof fn lemma_vetted<E>(
    path: Seq<char>,
    recovered_path: Seq<char>,
    runs: Seq<RunView<E>>,
    answers: Seq<RunAnswerView<E>>,
)
    requires
        is_run(path, recovered_path, runs, answers),
    ensures
        vetted_for(runs.last().phase, vetting(runs, answers)),
        runs.last().path == path,
        runs.last().recovered_path == recovered_path,
    decreases answers.len(),
{
    if answers.len() > 0 {
        lemma_shorter_run(path, recovered_path, runs, answers);
        lemma_vetted(path, recovered_path, runs.drop_last(), answers.drop_last());
        lemma_vetting_prefix(runs, answers.drop_last());
    }
}

/// A run that succeeds ends with a database that has user tables and that was
/// found sound after the last change to it.
pub proof fn accepted_database_is_vetted<E>(
    path: Seq<char>,
    recovered_path: Seq<char>,
    runs: Seq<RunView<E>>,
    answers: Seq<RunAnswerView<E>>,
)
    requires
        is_run(path, recovered_path, runs, answers),
        runs.last().phase == (RunPhaseView::Finished::<E> { failure: None }),
    ensures
        vetting(runs, answers) == (Vetting { counted: true, sound: true }),
{
    lemma_vetted(path, recovered_path, runs, answers);
}

/// What was recovered is given up only for a fresh database that has user
/// tables and was found sound.
pub proof fn recovered_file_outlives_doubt<E>(
    path: Seq<char>,
    recovered_path: Seq<char>,
    runs: Seq<RunView<E>>,
    answers: Seq<RunAnswerView<E>>,
)
    requires
        is_run(path, recovered_path, runs, answers),
        runs.last().phase is RemoveRecovered || runs.last().phase is RenameFresh,
    ensures
        vetting(runs, answers) == (Vetting { counted: true, sound: true }),
{
    lemma_vetted(path, recovered_path, runs, answers);
}

/// A run removes and overwrites nothing but the file that it recovers into and
/// the fresh database beside it; the damaged database stays as it is.
pub proof fn run_touches_only_its_files<E>(
    path: Seq<char>,
    recovered_path: Seq<char>,
    runs: Seq<RunView<E>>,
    answers: Seq<RunAnswerView<E>>,
)
    requires
        is_run(path, recovered_path, runs, answers),
    ensures
        match run_action(runs.last()) {
            RunActionView::Remove { path: file } => {
                file == recovered_path || file == runs.last().normalized_path
            },
            RunActionView::Rename { from, to } => {
                from == runs.last().normalized_path && to == recovered_path
            },
            _ => true,
        },
{
    lemma_vetted(path, recovered_path, runs, answers);
}

/// The name of the fresh database has been found free.
pub open spec fn name_was_free<E>(
    runs: Seq<RunView<E>>,
    answers: Seq<RunAnswerView<E>>,
    name: Seq<char>,
) -> bool {
    exists|i: int|
        #![trigger answers[i]]
        0 <= i < answers.len() && answers[i] == RunAnswerView::<E>::Exists(false) && run_action(
            runs[i],
        ) == (RunActionView::CheckExists { path: name })
}

/// A phase with a fresh database.
pub open spec fn has_fresh_database<E>(phase: RunPhaseView<E>) -> bool {
    match phase {
        RunPhaseView::OpenFresh => true,
        RunPhaseView::MigrateFresh => true,
        RunPhaseView::CopyTables => true,
        RunPhaseView::CountFresh => true,
        RunPhaseView::CheckFresh => true,
        RunPhaseView::CloseFresh { .. } => true,
        RunPhaseView::RemoveFresh { .. } => true,
        RunPhaseView::RemoveRecovered => true,
        RunPhaseView::RenameFresh => true,
        _ => false,
    }
}

/// A fresh database is only ever made under a name that was free, so nothing
/// that was there before is opened or removed as one.
pub proof fn fresh_name_was_free<E>(
    path: Seq<char>,
    recovered_path: Seq<char>,
    runs: Seq<RunView<E>>,
    answers: Seq<RunAnswerView<E>>,
)
    requires
        is_run(path, recovered_path, runs, answers),
        has_fresh_database(runs.last().phase),
    ensures
        name_was_free(runs, answers, runs.last().normalized_path),
    decreases answers.len(),
{
    if answers.len() > 0 {
        lemma_shorter_run(path, recovered_path, runs, answers);
        let earlier = runs.drop_last();
        let before = answers.drop_last();
        let last = answers.len() - 1;
        assert(answers[last] == answers.last());
        if has_fresh_database(earlier.last().phase) {
            fresh_name_was_free(path, recovered_path, earlier, before);
            let name = earlier.last().normalized_path;
            let i = choose|i: int|
                #![trigger before[i]]
                0 <= i < before.len() && before[i] == RunAnswerView::<E>::Exists(false)
                    && run_action(earlier[i]) == (RunActionView::CheckExists { path: name });
            assert(answers[i] == before[i]);
            assert(runs[i] == earlier[i]);
        } else {
            assert(earlier.last().phase is FindName);
        }
    }
}

} // verus!
