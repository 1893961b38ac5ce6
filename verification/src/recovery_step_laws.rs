//! What each step of a recovery leads to, and which files it is about.
use vstd::prelude::*;

use crate::path_text::is_named;
use crate::recovery_database::{
    DatabaseActionView, DatabaseAnswerView, DatabasePhaseView, DatabaseView, database_action,
    database_after, database_start,
};
use crate::recovery_error::{CauseView, RecoveryErrorView};
use crate::recovery_files::{
    SearchView, is_candidate, sidecar_texts, sqlite_texts, suffix_text, tried_name,
};
use crate::recovery_prepare::{
    PrepareActionView, PrepareStage, PrepareView, follows_answer, follows_copy, found_sources,
    prepare_action,
};
use crate::recovery_replace::{
    ReplaceActionView, ReplaceAnswer, ReplacePhaseView, ReplaceView, removal_texts, replace_action,
    replace_after, replace_start,
};
use crate::recovery_run::{
    RunActionView, RunAnswerView, RunPhaseView, RunView, run_action, run_after, run_follows,
    run_start,
};
use crate::recovery_status::{
    errors_name_database_and_backups, logs_name_database_and_backups, names_backups,
    names_database, prepare_text, replace_text, run_text, statuses_name_database_and_backups,
};
use crate::recovery_tables::{is_sound, unsound_message};
use crate::text::{contains_text, decimal, join, occurs_at};
use crate::text_laws::joined_parts_are_there;

verus! {

// ---------------------------------------------------------------------------
// A recovery from beginning to end
// ---------------------------------------------------------------------------

/// `view` has ended with `error`, to which one context was added.
pub open spec fn ended_with<E>(
    view: DatabaseView<E>,
    error: RecoveryErrorView<E>,
    context: Seq<char>,
) -> bool {
    view.phase matches DatabasePhaseView::Finished { failure: Some(failure) } && failure.cause
        == error.cause && failure.contexts == error.contexts.push(context)
}

/// A recovery starts by preparing, on the damaged database. One that cannot be
/// prepared does nothing else and ends with that error, in the context of the
/// database.
pub proof fn recoveries_start_by_preparing<E>(
    path: Seq<char>,
    label: Seq<char>,
    original_error: Seq<char>,
    error: RecoveryErrorView<E>,
)
    ensures
        ({
            let start = database_start::<E>(path, label, original_error);
            let failed = database_after(start, DatabaseAnswerView::Failed(error));
            &&& database_action(start) == (DatabaseActionView::Prepare { path })
            &&& database_action(failed) is Nothing
            &&& exists|context: Seq<char>| #[trigger]
                ended_with(failed, error, context) && names_database(context, path, label)
        }),
{
    let start = database_start::<E>(path, label, original_error);
    let failed = database_after(start, DatabaseAnswerView::Failed(error));
    errors_name_database_and_backups(path, label, seq![]);
    let context = prepare_text(path, label);
    assert(ended_with(failed, error, context));
}

/// Once a recovery is prepared, the log and the person who waits are told of
/// the database and its backups, and then it is run, from the damaged database
/// into the name that was found for it.
pub proof fn prepared_recoveries_are_run<E>(
    view: DatabaseView<E>,
    recovered_path: Seq<char>,
    backups: Seq<Seq<char>>,
    a: DatabaseAnswerView<E>,
    b: DatabaseAnswerView<E>,
)
    requires
        view.phase is Prepare,
    ensures
        ({
            let prepared = database_after(
                view,
                DatabaseAnswerView::Prepared { recovered_path, backups },
            );
            let logged = database_after(prepared, a);
            let told = database_after(logged, b);
            &&& database_action(prepared) matches DatabaseActionView::Log { message }
                && names_database(message, view.path, view.label) && names_backups(
                message,
                backups,
            ) && contains_text(message, view.original_error)
            &&& database_action(logged) matches DatabaseActionView::Print { message }
                && names_database(message, view.path, view.label) && names_backups(
                message,
                backups,
            )
            &&& database_action(told) == (DatabaseActionView::Run {
                path: view.path,
                recovered_path,
            })
            &&& told.backups == backups
            &&& told.path == view.path && told.label == view.label
        }),
{
    logs_name_database_and_backups(view.path, view.label, view.original_error, backups);
    statuses_name_database_and_backups(view.path, view.label, backups);
}

/// A run that succeeds is followed by the replacement of the damaged database
/// with what was recovered, and if that succeeds too, by saying so; then the
/// recovery has succeeded.
pub proof fn good_runs_replace_the_database<E>(
    view: DatabaseView<E>,
    a: DatabaseAnswerView<E>,
    b: DatabaseAnswerView<E>,
)
    requires
        view.phase is Run,
    ensures
        ({
            let run = database_after(view, DatabaseAnswerView::Done);
            let replaced = database_after(run, DatabaseAnswerView::Done);
            let logged = database_after(replaced, a);
            let told = database_after(logged, b);
            &&& database_action(run) == (DatabaseActionView::Replace {
                path: view.path,
                recovered_path: view.recovered_path,
            })
            &&& database_action(replaced) matches DatabaseActionView::Log { message }
                && names_database(message, view.path, view.label)
            &&& database_action(logged) matches DatabaseActionView::Print { message }
                && names_database(message, view.path, view.label)
            &&& told.phase == (DatabasePhaseView::Finished::<E> { failure: None })
        }),
{
    logs_name_database_and_backups(view.path, view.label, view.original_error, view.backups);
    statuses_name_database_and_backups(view.path, view.label, view.backups);
}

/// A run that fails is followed by removing what was recovered and telling
/// where the backups are. The recovery ends with the error of the run, in the
/// context of the database and its backups, whatever comes of the rest.
pub proof fn failed_runs_leave_the_database<E>(
    view: DatabaseView<E>,
    error: RecoveryErrorView<E>,
    a: DatabaseAnswerView<E>,
    b: DatabaseAnswerView<E>,
)
    requires
        view.phase is Run,
    ensures
        ({
            let failed = database_after(view, DatabaseAnswerView::Failed(error));
            let removed = database_after(failed, a);
            let told = database_after(removed, b);
            &&& database_action(failed) == (DatabaseActionView::Remove {
                path: view.recovered_path,
            })
            &&& database_action(removed) matches DatabaseActionView::Print { message }
                && names_database(message, view.path, view.label) && names_backups(
                message,
                view.backups,
            )
            &&& exists|context: Seq<char>| #[trigger]
                ended_with(told, error, context) && names_database(context, view.path, view.label)
                    && names_backups(context, view.backups)
        }),
{
    statuses_name_database_and_backups(view.path, view.label, view.backups);
    errors_name_database_and_backups(view.path, view.label, view.backups);
    let failed = database_after(view, DatabaseAnswerView::Failed(error));
    let told = database_after(database_after(failed, a), b);
    let context = run_text(view.path, view.label, view.backups);
    assert(ended_with(told, error, context));
}

/// A replacement that fails leaves what was recovered where it is. The recovery
/// ends with its error, in the context of the database and its backups.
pub proof fn failed_replacements_keep_what_was_recovered<E>(
    view: DatabaseView<E>,
    error: RecoveryErrorView<E>,
    a: DatabaseAnswerView<E>,
)
    requires
        view.phase is Replace,
    ensures
        ({
            let failed = database_after(view, DatabaseAnswerView::Failed(error));
            let told = database_after(failed, a);
            &&& database_action(failed) matches DatabaseActionView::Print { message }
                && names_database(message, view.path, view.label) && names_backups(
                message,
                view.backups,
            )
            &&& exists|context: Seq<char>| #[trigger]
                ended_with(told, error, context) && names_database(context, view.path, view.label)
                    && names_backups(context, view.backups)
        }),
{
    statuses_name_database_and_backups(view.path, view.label, view.backups);
    errors_name_database_and_backups(view.path, view.label, view.backups);
    let told = database_after(database_after(view, DatabaseAnswerView::Failed(error)), a);
    let context = replace_text(view.path, view.label, view.backups);
    assert(ended_with(told, error, context));
}

/// A recovery keeps its database, and what was prepared for it changes only by
/// preparing. An answer that does not fit the step changes nothing, and nothing
/// changes once the recovery has ended.
pub proof fn recoveries_keep_their_database<E>(
    view: DatabaseView<E>,
    answer: DatabaseAnswerView<E>,
)
    ensures
        ({
            let after = database_after(view, answer);
            &&& after.path == view.path
            &&& after.label == view.label
            &&& after.original_error == view.original_error
            &&& !(view.phase is Prepare && answer is Prepared) ==> after.recovered_path
                == view.recovered_path && after.backups == view.backups
            &&& view.phase is Finished ==> after == view
            &&& view.phase is Prepare && answer is Done ==> after == view
            &&& (view.phase is Run || view.phase is Replace) && answer is Prepared ==> after == view
            &&& view.phase is Finished <==> database_action(view) is Nothing
        }),
{
}

// ---------------------------------------------------------------------------
// Replacing
// ---------------------------------------------------------------------------

/// What goes before the recovered database is moved: the write-ahead log and
/// the shared memory of the damaged one, and the damaged one itself exactly
/// where a file cannot be moved over another.
pub proof fn what_is_in_the_way_is_removed<E>(
    path: Seq<char>,
    recovered_path: Seq<char>,
    clear_target: bool,
    file: Seq<char>,
)
    ensures
        removal_texts(path, clear_target).contains(file) <==> file == path + "-wal"@ || file == path
            + "-shm"@ || (clear_target && file == path),
        replace_action(replace_start::<E>(path, recovered_path, clear_target)) == (
        ReplaceActionView::Remove { path: path + "-wal"@ }),
        replace_start::<E>(path, recovered_path, clear_target).recovered_path == recovered_path,
        replace_start::<E>(path, recovered_path, clear_target).path == path,
{
    let all = removal_texts(path, clear_target);
    assert(all[0] == path + "-wal"@);
    assert(all[1] == path + "-shm"@);
    if clear_target {
        assert(all[2] == path);
    }
    if all.contains(file) {
        let i = choose|i: int| 0 <= i < all.len() && all[i] == file;
        assert(i == 0 || i == 1 || i == 2);
    }
}

/// A file that is gone, or was never there, makes way for the next one, and the
/// last one for moving the recovered database. Any other failure ends the
/// replacement with its error, and nothing is moved.
pub proof fn replacements_go_file_by_file<E>(
    replace: ReplaceView<E>,
    error: E,
    not_found: bool,
)
    requires
        replace.phase is Clear,
        0 <= replace.index < replace.removals.len(),
    ensures
        ({
            let done = replace_after(replace, ReplaceAnswer::Done);
            let failed = replace_after(replace, ReplaceAnswer::Failed { error, not_found });
            &&& replace_action(replace) == (ReplaceActionView::Remove {
                path: replace.removals[replace.index],
            })
            &&& not_found ==> failed == done
            &&& !not_found ==> failed.phase == (ReplacePhaseView::Finished {
                failure: Some(error),
            })
            &&& replace.index + 1 < replace.removals.len() ==> replace_action(done) == (
            ReplaceActionView::Remove { path: replace.removals[replace.index + 1] })
            &&& replace.index + 1 == replace.removals.len() ==> replace_action(done) == (
            ReplaceActionView::Rename { from: replace.recovered_path, to: replace.path })
        }),
{
}

/// The replacement succeeds exactly if the recovered database was moved; else it
/// ends with that error.
pub proof fn moving_ends_the_replacement<E>(replace: ReplaceView<E>, error: E, not_found: bool)
    requires
        replace.phase is Rename,
    ensures
        replace_after(replace, ReplaceAnswer::Done).phase == (ReplacePhaseView::Finished::<E> {
            failure: None,
        }),
        replace_after(replace, ReplaceAnswer::Failed { error, not_found }).phase == (
        ReplacePhaseView::Finished { failure: Some(error) }),
{
}

/// A replacement keeps its files and what is in the way, and once it has ended
/// it stays as it is.
pub proof fn replacements_keep_their_files<E>(replace: ReplaceView<E>, answer: ReplaceAnswer<E>)
    ensures
        replace_after(replace, answer).path == replace.path,
        replace_after(replace, answer).recovered_path == replace.recovered_path,
        replace_after(replace, answer).removals == replace.removals,
        replace.phase is Finished ==> replace_after(replace, answer) == replace,
        replace.phase is Finished <==> replace_action(replace) is Nothing,
{
}

// ---------------------------------------------------------------------------
// Preparing
// ---------------------------------------------------------------------------

/// The files of a database are the database itself, its write-ahead log and its
/// shared memory, in this order.
pub proof fn databases_have_three_files(path: Seq<char>)
    ensures
        sqlite_texts(path).len() == 3,
        sqlite_texts(path)[0] == path,
        sqlite_texts(path)[1] == path + "-wal"@,
        sqlite_texts(path)[2] == path + "-shm"@,
        sidecar_texts(path) == seq![path + "-wal"@, path + "-shm"@],
{
}

/// Names are numbered from 0 on: the name of the file, the name of the
/// recovery, the number and the extension, with dots between them.
pub proof fn copies_are_numbered(search: SearchView, seconds: Option<u64>)
    ensures
        tried_name(search) == search.file_name + seq!['.'] + search.suffix + seq!['.'] + decimal(
            search.sequence,
        ) + seq!['.'] + search.extension,
        suffix_text(seconds) == "codex-recovery-"@ + decimal(
            match seconds {
                Some(seconds) => seconds as nat,
                None => 0,
            },
        ),
{
    reveal_strlit(".");
    assert("."@ =~= seq!['.']);
    assert(tried_name(search) =~= search.file_name + seq!['.'] + search.suffix + seq!['.']
        + decimal(search.sequence) + seq!['.'] + search.extension);
}

/// `stage` tries a name for a copy of `source`, the first one.
pub open spec fn tries_first_name(
    search: SearchView,
    tried: Seq<char>,
    source: Seq<char>,
    suffix: Seq<char>,
    extension: Seq<char>,
) -> bool {
    &&& search.path == source
    &&& search.suffix == suffix
    &&& search.extension == extension
    &&& search.sequence == 0
    &&& is_named(source, Some(search.file_name))
    &&& is_candidate(search, tried)
}

/// A recovery is prepared only of a database that is there; then its files are
/// asked for, the database first.
pub proof fn preparing_asks_for_the_database(
    before: PrepareView,
    exists: bool,
    after: PrepareView,
)
    requires
        before.stage is Database,
        follows_answer(before, exists, after),
    ensures
        prepare_action(before) == (PrepareActionView::CheckExists { path: before.path }),
        exists ==> prepare_action(after) == (PrepareActionView::CheckExists { path: before.path }),
        exists ==> after.stage == (PrepareStage::Source { index: 0 }),
        !exists ==> after.stage == (PrepareStage::Failed {
            message: "database file does not exist"@,
        }),
{
}

/// A file that is there is copied: names for its copy are tried, from the first
/// one on. It is refused only where it has no name. A file that is not there is
/// passed over.
pub proof fn preparing_goes_file_by_file(
    before: PrepareView,
    index: int,
    exists: bool,
    after: PrepareView,
)
    requires
        before.stage == (PrepareStage::Source { index }),
        0 <= index < 3,
        follows_answer(before, exists, after),
    ensures
        ({
            let file = sqlite_texts(before.path)[index];
            &&& prepare_action(before) == (PrepareActionView::CheckExists { path: file })
            &&& after.backups == before.backups
            &&& exists ==> match after.stage {
                PrepareStage::Candidate { index: at, search, path } => at == index
                    && tries_first_name(search, path, file, before.suffix, "bak"@),
                PrepareStage::Failed { message } => is_named(file, None) && message
                    == "cannot create a recovery file name for "@ + file,
                _ => false,
            }
            &&& !exists && index < 2 ==> after.stage == (PrepareStage::Source { index: index + 1 })
            &&& !exists && index == 2 && before.backups.len() == 0 ==> after.stage == (
            PrepareStage::Failed { message: "no database files were available to back up"@ })
            &&& !exists && index == 2 && before.backups.len() > 0 ==> match after.stage {
                PrepareStage::Recovered { search, path } => tries_first_name(
                    search,
                    path,
                    before.path,
                    before.suffix,
                    "recovered"@,
                ),
                PrepareStage::Failed { message } => is_named(before.path, None) && message
                    == "cannot create a recovery file name for "@ + before.path,
                _ => false,
            }
        }),
{
}

/// A name that is taken gives way to the next number; the first one that is
/// free is the one that is used.
pub proof fn the_first_free_name_is_used(
    before: PrepareView,
    exists: bool,
    after: PrepareView,
)
    requires
        follows_answer(before, exists, after),
    ensures
        before.stage matches PrepareStage::Candidate { index, search, path } ==> {
            &&& prepare_action(before) == (PrepareActionView::CheckExists { path })
            &&& !exists ==> prepare_action(after) == (PrepareActionView::Copy {
                from: sqlite_texts(before.path)[index],
                to: path,
            })
            &&& exists ==> (after.stage matches PrepareStage::Candidate {
                index: at,
                search: next,
                path: tried,
            } && at == index && next.sequence == search.sequence + 1 && next.path == search.path
                && next.file_name == search.file_name && next.suffix == search.suffix
                && next.extension == search.extension && is_candidate(next, tried))
        },
        before.stage matches PrepareStage::Recovered { search, path } ==> {
            &&& prepare_action(before) == (PrepareActionView::CheckExists { path })
            &&& !exists ==> after.stage == (PrepareStage::Done { recovered: path })
            &&& exists ==> (after.stage matches PrepareStage::Recovered {
                search: next,
                path: tried,
            } && next.sequence == search.sequence + 1 && next.path == search.path
                && next.file_name == search.file_name && next.suffix == search.suffix
                && next.extension == search.extension && is_candidate(next, tried))
        },
{
}

/// A copy that was made is a backup, behind those before it, and the next file
/// is up.
pub proof fn copies_are_backups(before: PrepareView, after: PrepareView, index: int, to: Seq<char>)
    requires
        before.stage == (PrepareStage::Copy { index, to }),
        0 <= index < 3,
        follows_copy(before, after),
    ensures
        after.backups == before.backups.push(to),
        index < 2 ==> after.stage == (PrepareStage::Source { index: index + 1 }),
        index == 2 ==> match after.stage {
            PrepareStage::Recovered { search, path } => tries_first_name(
                search,
                path,
                before.path,
                before.suffix,
                "recovered"@,
            ),
            PrepareStage::Failed { message } => is_named(before.path, None) && message
                == "cannot create a recovery file name for "@ + before.path,
            _ => false,
        },
{
}

/// Preparing keeps the database and the name of the recovery. Where a copy is
/// due, no file is asked for, where none is due, none is made, and once it has
/// ended nothing changes.
pub proof fn preparing_keeps_its_database(
    before: PrepareView,
    exists: bool,
    answered: PrepareView,
    copied: PrepareView,
)
    requires
        follows_answer(before, exists, answered),
        follows_copy(before, copied),
    ensures
        answered.path == before.path && answered.suffix == before.suffix,
        answered.backups == before.backups,
        copied.path == before.path && copied.suffix == before.suffix,
        before.stage is Copy || before.stage is Done || before.stage is Failed ==> answered
            == before,
        !(before.stage is Copy) ==> copied == before,
        before.stage is Done || before.stage is Failed <==> prepare_action(before) is Nothing,
{
}

/// The files that are copied are those that were found, in order.
pub proof fn found_files_are_copied(sources: Seq<Seq<char>>, found: Seq<bool>, more: bool)
    requires
        found.len() < sources.len(),
    ensures
        found_sources(sources, seq![]).len() == 0,
        more ==> found_sources(sources, found.push(more)) == found_sources(sources, found).push(
            sources[found.len() as int],
        ),
        !more ==> found_sources(sources, found.push(more)) == found_sources(sources, found),
{
    assert(found.push(more).drop_last() =~= found);
}

// ---------------------------------------------------------------------------
// Running
// ---------------------------------------------------------------------------

/// Whatever a run does, it does to the right file: what was recovered is opened
/// as it is, the fresh database is made where there is none, tables come from
/// what was recovered, and the fresh database takes its place.
pub proof fn runs_are_about_their_files<E>(run: RunView<E>)
    ensures
        run.phase is Recover ==> run_action(run) == (RunActionView::Recover {
            path: run.path,
            recovered_path: run.recovered_path,
        }),
        run.phase is OpenRecovered ==> run_action(run) == (RunActionView::OpenPool {
            path: run.recovered_path,
            create_if_missing: false,
            busy_timeout_secs: 5,
            max_connections: 1,
        }),
        run.phase is OpenFresh ==> run_action(run) == (RunActionView::OpenPool {
            path: run.normalized_path,
            create_if_missing: true,
            busy_timeout_secs: 5,
            max_connections: 1,
        }),
        run.phase is FindName ==> run_action(run) == (RunActionView::CheckExists {
            path: run.normalized_path,
        }),
        run.phase is CopyTables ==> run_action(run) == (RunActionView::CopyTables {
            recovered_path: run.recovered_path,
        }),
        run.phase is RemoveFresh ==> run_action(run) == (RunActionView::Remove {
            path: run.normalized_path,
        }),
        run.phase is RemoveRecovered ==> run_action(run) == (RunActionView::Remove {
            path: run.recovered_path,
        }),
        run.phase is RenameFresh ==> run_action(run) == (RunActionView::Rename {
            from: run.normalized_path,
            to: run.recovered_path,
        }),
        run.phase is Finished <==> run_action(run) is Nothing,
{
}

/// A run that goes well recovers, opens what was recovered, counts its tables,
/// checks it, migrates it, checks it again, closes it, and has succeeded.
pub proof fn good_steps_accept_what_was_recovered<E>(
    path: Seq<char>,
    recovered_path: Seq<char>,
    count: i64,
    checked: Seq<Seq<char>>,
    again: Seq<Seq<char>>,
)
    requires
        count != 0,
        forall|i: int| 0 <= i < checked.len() ==> #[trigger] checked[i] == "ok"@,
        forall|i: int| 0 <= i < again.len() ==> #[trigger] again[i] == "ok"@,
    ensures
        ({
            let start = run_start::<E>(path, recovered_path);
            let recovered = run_after(start, RunAnswerView::Done);
            let opened = run_after(recovered, RunAnswerView::Done);
            let counted = run_after(opened, RunAnswerView::Count(count));
            let sound = run_after(counted, RunAnswerView::Rows(checked));
            let migrated = run_after(sound, RunAnswerView::Done);
            let still = run_after(migrated, RunAnswerView::Rows(again));
            let closed = run_after(still, RunAnswerView::Done);
            &&& run_action(start) == (RunActionView::Recover { path, recovered_path })
            &&& run_action(recovered) is OpenPool
            &&& run_action(opened) is CountTables
            &&& run_action(counted) is CheckIntegrity
            &&& run_action(sound) is Migrate
            &&& run_action(migrated) is CheckIntegrity
            &&& run_action(still) is ClosePool
            &&& closed.phase == (RunPhaseView::Finished::<E> { failure: None })
        }),
{
}

/// What was recovered but does not migrate is no failure yet: it is closed, and
/// why it did not migrate is kept. Then a name for a fresh database is searched
/// for beside it, from the first number on.
pub proof fn unmigrated_databases_are_rebuilt<E>(
    run: RunView<E>,
    reason: Seq<char>,
    error: E,
    after: RunView<E>,
)
    requires
        run.phase is MigrateRecovered,
        run_follows(
            run_after(run, RunAnswerView::MigrationFailed { reason, error }),
            RunAnswerView::Done,
            after,
        ),
    ensures
        ({
            let failed = run_after(run, RunAnswerView::MigrationFailed { reason, error });
            &&& run_action(failed) is ClosePool
            &&& failed.reason == reason
            &&& match after.phase {
                RunPhaseView::FindName { search } => tries_first_name(
                    search,
                    after.normalized_path,
                    run.recovered_path,
                    "codex-recovery-normalized"@,
                    "sqlite"@,
                ),
                _ => is_named(run.recovered_path, None) && run_ended_with(
                    after,
                    CauseView::Message(
                        "cannot create a recovery file name for "@ + run.recovered_path,
                    ),
                    seq![rebuild_context(reason)],
                ),
            }
        }),
{
    let none = Seq::<Seq<char>>::empty();
    assert(none.push(rebuild_context(reason)) =~= seq![rebuild_context(reason)]);
}

/// The first free name is used for the fresh database; it is opened, migrated,
/// filled, counted, checked and closed, and takes the place of what was
/// recovered; then the run has succeeded.
pub proof fn good_steps_rebuild_what_was_recovered<E>(
    run: RunView<E>,
    count: i64,
    checked: Seq<Seq<char>>,
)
    requires
        run.phase is FindName,
        count != 0,
        forall|i: int| 0 <= i < checked.len() ==> #[trigger] checked[i] == "ok"@,
    ensures
        ({
            let free = run_after(run, RunAnswerView::Exists(false));
            let opened = run_after(free, RunAnswerView::Done);
            let migrated = run_after(opened, RunAnswerView::Done);
            let filled = run_after(migrated, RunAnswerView::Done);
            let counted = run_after(filled, RunAnswerView::Count(count));
            let sound = run_after(counted, RunAnswerView::Rows(checked));
            let closed = run_after(sound, RunAnswerView::Done);
            let removed = run_after(closed, RunAnswerView::Done);
            let moved = run_after(removed, RunAnswerView::Done);
            &&& run_action(free) matches RunActionView::OpenPool { path, create_if_missing, .. }
                && path == run.normalized_path && create_if_missing
            &&& run_action(opened) is Migrate
            &&& run_action(migrated) == (RunActionView::CopyTables {
                recovered_path: run.recovered_path,
            })
            &&& run_action(filled) is CountTables
            &&& run_action(counted) is CheckIntegrity
            &&& run_action(sound) is ClosePool
            &&& run_action(closed) == (RunActionView::Remove { path: run.recovered_path })
            &&& run_action(removed) == (RunActionView::Rename {
                from: run.normalized_path,
                to: run.recovered_path,
            })
            &&& moved.phase == (RunPhaseView::Finished::<E> { failure: None })
        }),
{
}

/// A name for the fresh database that is taken gives way to the next number.
pub proof fn taken_names_are_passed_over<E>(
    run: RunView<E>,
    search: SearchView,
    after: RunView<E>,
)
    requires
        run.phase == (RunPhaseView::FindName::<E> { search }),
        run_follows(run, RunAnswerView::Exists(true), after),
    ensures
        after.phase matches RunPhaseView::FindName { search: next } && next.sequence
            == search.sequence + 1 && next.path == search.path && next.file_name
            == search.file_name && next.suffix == search.suffix && next.extension
            == search.extension && is_candidate(next, after.normalized_path),
{
}

/// A run keeps its files. Why what was recovered did not migrate is learnt only
/// from that migration, and the name of a fresh database only by searching.
pub proof fn runs_keep_their_files<E>(run: RunView<E>, answer: RunAnswerView<E>, after: RunView<E>)
    requires
        run_follows(run, answer, after),
    ensures
        after.path == run.path,
        after.recovered_path == run.recovered_path,
        !(run.phase is MigrateRecovered && answer is MigrationFailed) ==> after.reason
            == run.reason,
        !(after.phase is FindName) ==> after.normalized_path == run.normalized_path,
{
}

/// An answer that does not fit the step changes nothing, and nothing changes
/// once the run has ended.
pub proof fn answers_fit_the_step<E>(run: RunView<E>, answer: RunAnswerView<E>, after: RunView<E>)
    requires
        run_follows(run, answer, after),
        ({
            ||| run.phase is Finished
            ||| answer is Panicked && !(run.phase is Recover)
            ||| answer is Exists && !(run.phase is FindName)
            ||| answer is Count && !(run.phase is CountRecovered || run.phase is CountFresh)
            ||| answer is Rows && !(run.phase is CheckRecovered || run.phase is CheckMigrated
                || run.phase is CheckFresh)
            ||| answer is MigrationFailed && !(run.phase is MigrateRecovered || run.phase
                is MigrateFresh)
            ||| answer is CopyFailed && !(run.phase is CopyTables)
            ||| answer is Failed && (run.phase is MigrateRecovered || run.phase is MigrateFresh
                || run.phase is CopyTables || run_action(run) is ClosePool)
            ||| answer is Done && (run_action(run) is CountTables || run_action(run)
                is CheckIntegrity || run_action(run) is CheckExists)
        }),
    ensures
        after == run,
{
}

/// `run` has ended with an error of this cause and these contexts.
pub open spec fn run_ended_with<E>(
    run: RunView<E>,
    cause: CauseView<E>,
    contexts: Seq<Seq<char>>,
) -> bool {
    run.phase matches RunPhaseView::Finished { failure: Some(failure) } && failure.cause == cause
        && failure.contexts == contexts
}

/// A run of a database that holds no user tables or is not sound ends with what
/// was found; any other failure before there is a fresh database ends it with
/// its own error.
pub proof fn failures_end_the_run<E>(
    run: RunView<E>,
    error: E,
    rows: Seq<Seq<char>>,
)
    ensures
        run.phase is Recover || run.phase is OpenRecovered || run.phase is CountRecovered
            || run.phase is CheckRecovered || run.phase is CheckMigrated ==> run_ended_with(
            run_after(run, RunAnswerView::Failed(error)),
            CauseView::Outside(error),
            seq![],
        ),
        run.phase is Recover ==> run_ended_with(
            run_after(run, RunAnswerView::Panicked(error)),
            CauseView::Outside(error),
            seq!["sqlite recovery task panicked"@],
        ),
        run.phase is CountRecovered ==> run_ended_with(
            run_after(run, RunAnswerView::Count(0)),
            CauseView::Message("SQLite recovery did not recover any user tables"@),
            seq![],
        ),
        (run.phase is CheckRecovered || run.phase is CheckMigrated) && (exists|i: int|
            0 <= i < rows.len() && #[trigger] rows[i] != "ok"@) ==> run_ended_with(
            run_after(run, RunAnswerView::Rows(rows)),
            CauseView::Message(unsound_message(rows)),
            seq![],
        ),
{
    let none = Seq::<Seq<char>>::empty();
    assert(none.push("sqlite recovery task panicked"@) =~= seq!["sqlite recovery task panicked"@]);
}

/// The context of every failure of a rebuild: why what was recovered did not
/// migrate.
pub open spec fn rebuild_context(reason: Seq<char>) -> Seq<char> {
    "failed to normalize recovered database after migration failure: "@ + reason
}

/// A failure on the way to a fresh database, or on putting it in its place, ends
/// the run with its error, in the context of why what was recovered did not
/// migrate.
pub proof fn failed_rebuilds_say_why<E>(run: RunView<E>, error: E, reason: Seq<char>)
    ensures
        run.phase is FindName || run.phase is OpenFresh || run.phase is RemoveRecovered || run.phase
            is RenameFresh ==> run_ended_with(
            run_after(run, RunAnswerView::Failed(error)),
            CauseView::Outside(error),
            seq![rebuild_context(run.reason)],
        ),
        run.phase is MigrateFresh ==> run_ended_with(
            run_after(run, RunAnswerView::MigrationFailed { reason, error }),
            CauseView::Outside(error),
            seq![
                "failed to migrate fresh database for recovered data"@,
                rebuild_context(run.reason),
            ],
        ),
{
    let none = Seq::<Seq<char>>::empty();
    let what = "failed to migrate fresh database for recovered data"@;
    assert(none.push(rebuild_context(run.reason)) =~= seq![rebuild_context(run.reason)]);
    assert(none.push(what).push(rebuild_context(run.reason)) =~= seq![
        what,
        rebuild_context(run.reason),
    ]);
}

/// A fresh database that cannot be filled, holds no user tables or is not sound
/// is closed and removed, and what was recovered stays. The run ends with what
/// was found, in the context of why what was recovered did not migrate, whether
/// or not the removal works.
pub proof fn useless_fresh_databases_are_removed<E>(
    run: RunView<E>,
    answer: RunAnswerView<E>,
    failure: RecoveryErrorView<E>,
    removed: RunAnswerView<E>,
)
    requires
        match (run.phase, answer) {
            (RunPhaseView::CopyTables, RunAnswerView::CopyFailed(error)) => failure == error,
            (RunPhaseView::CountFresh, RunAnswerView::Count(count)) => count == 0 && failure
                == (RecoveryErrorView::<E> {
                cause: CauseView::Message("SQLite recovery did not recover any user tables"@),
                contexts: seq![],
            }),
            (RunPhaseView::CheckFresh, RunAnswerView::Rows(rows)) => failure == (
            RecoveryErrorView::<E> {
                cause: CauseView::Message(unsound_message(rows)),
                contexts: seq![],
            }) && exists|i: int| 0 <= i < rows.len() && #[trigger] rows[i] != "ok"@,
            (RunPhaseView::CountFresh, RunAnswerView::Failed(error)) => failure == (
            RecoveryErrorView::<E> { cause: CauseView::Outside(error), contexts: seq![] }),
            (RunPhaseView::CheckFresh, RunAnswerView::Failed(error)) => failure == (
            RecoveryErrorView::<E> { cause: CauseView::Outside(error), contexts: seq![] }),
            _ => false,
        },
        removed is Done || removed is Failed,
    ensures
        ({
            let failed = run_after(run, answer);
            let closed = run_after(failed, RunAnswerView::Done);
            &&& run_action(failed) is ClosePool
            &&& run_action(closed) == (RunActionView::Remove { path: run.normalized_path })
            &&& run_ended_with(
                run_after(closed, removed),
                failure.cause,
                failure.contexts.push(rebuild_context(run.reason)),
            )
        }),
{
}

/// A database is sound exactly if its check says nothing but `ok`, and what is
/// said of an unsound one holds all that the check says.
pub proof fn unsound_databases_are_told(rows: Seq<Seq<char>>)
    ensures
        !is_sound(rows) <==> exists|i: int| 0 <= i < rows.len() && #[trigger] rows[i] != "ok"@,
        forall|i: int|
            0 <= i < rows.len() ==> contains_text(unsound_message(rows), #[trigger] rows[i]),
        unsound_message(rows) == "recovered database failed integrity_check: "@ + join(
            rows,
            seq![';', ' '],
        ),
{
    reveal_strlit("; ");
    assert("; "@ =~= seq![';', ' ']);
    let front = "recovered database failed integrity_check: "@;
    let list = join(rows, "; "@);
    let text = unsound_message(rows);
    assert forall|i: int| 0 <= i < rows.len() implies contains_text(text, #[trigger] rows[i]) by {
        joined_parts_are_there(rows, "; "@, i);
        let at = choose|at: int| occurs_at(list, rows[i], at);
        let there = front.len() + at;
        assert(text.subrange(there, there + rows[i].len()) =~= list.subrange(
            at,
            at + rows[i].len(),
        ));
        assert(occurs_at(text, rows[i], there));
    }
}

} // verus!
