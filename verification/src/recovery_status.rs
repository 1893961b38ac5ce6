//! What is said about a recovery, to the person who waits for it and in the
//! errors that come out of it.
use vstd::prelude::*;

use crate::text::{contains_text, join, join_strings, occurs_at, texts};
use crate::text_laws::{joined_parts_are_there, joining_goes_part_by_part};

verus! {

/// A database of the runtime.
pub struct RuntimeDbSpec {
    /// What it is called in messages.
    pub label: String,
}

/// A list of paths in a message.
pub open spec fn listed(paths: Seq<Seq<char>>) -> Seq<char> {
    join(paths, ", "@)
}

/// The paths of backup files, for a message.
pub fn format_backup_paths(paths: &Vec<String>) -> (text: String)
    ensures
        text@ == listed(texts(paths@)),
{
    join_strings(paths, ", ")
}

// ---------------------------------------------------------------------------
// Status messages
// ---------------------------------------------------------------------------

/// A recovery begins.
pub open spec fn started_text(
    path: Seq<char>,
    label: Seq<char>,
    backups: Seq<Seq<char>>,
) -> Seq<char> {
    "Codex detected a malformed "@ + label + " at "@ + path
        + ". Please wait while Codex attempts to recover it automatically. Backup files: "@
        + listed(backups)
}

/// A recovery begins.
pub fn recovery_started_status(path: &str, spec: &RuntimeDbSpec, backup_paths: &Vec<String>) -> (status:
    String)
    ensures
        status@ == started_text(path@, spec.label@, texts(backup_paths@)),
{
    let backups = format_backup_paths(backup_paths);
    "Codex detected a malformed ".to_string().concat(spec.label.as_str()).concat(" at ").concat(
        path,
    ).concat(
        ". Please wait while Codex attempts to recover it automatically. Backup files: ",
    ).concat(backups.as_str())
}

/// A recovery has succeeded.
pub open spec fn completed_text(path: Seq<char>, label: Seq<char>) -> Seq<char> {
    "Codex successfully recovered "@ + label + " at "@ + path + "."@
}

/// A recovery has succeeded.
pub fn recovery_completed_status(path: &str, spec: &RuntimeDbSpec) -> (status: String)
    ensures
        status@ == completed_text(path@, spec.label@),
{
    "Codex successfully recovered ".to_string().concat(spec.label.as_str()).concat(" at ").concat(
        path,
    ).concat(".")
}

/// A recovery has failed.
pub open spec fn failed_text(
    path: Seq<char>,
    label: Seq<char>,
    backups: Seq<Seq<char>>,
) -> Seq<char> {
    "Codex could not automatically recover "@ + label + " at "@ + path
        + ". Backup files remain at "@ + listed(backups) + "."@
}

/// A recovery has failed.
pub fn recovery_failed_status(path: &str, spec: &RuntimeDbSpec, backup_paths: &Vec<String>) -> (status:
    String)
    ensures
        status@ == failed_text(path@, spec.label@, texts(backup_paths@)),
{
    let backups = format_backup_paths(backup_paths);
    "Codex could not automatically recover ".to_string().concat(spec.label.as_str()).concat(
        " at ",
    ).concat(path).concat(". Backup files remain at ").concat(backups.as_str()).concat(".")
}

// ---------------------------------------------------------------------------
// Errors
// ---------------------------------------------------------------------------

/// A recovery could not be prepared.
pub open spec fn prepare_text(path: Seq<char>, label: Seq<char>) -> Seq<char> {
    "failed to prepare automatic recovery for "@ + label + " at "@ + path
}

/// A recovery could not be prepared.
pub fn prepare_context(path: &str, spec: &RuntimeDbSpec) -> (context: String)
    ensures
        context@ == prepare_text(path@, spec.label@),
{
    "failed to prepare automatic recovery for ".to_string().concat(spec.label.as_str()).concat(
        " at ",
    ).concat(path)
}

/// A recovered database could not take the place of the damaged one.
pub open spec fn replace_text(
    path: Seq<char>,
    label: Seq<char>,
    backups: Seq<Seq<char>>,
) -> Seq<char> {
    "automatic recovery rebuilt "@ + label + " at "@ + path
        + " but failed to replace the original database; backup files remain at "@ + listed(backups)
}

/// A recovered database could not take the place of the damaged one.
pub fn replace_context(path: &str, spec: &RuntimeDbSpec, backup_paths: &Vec<String>) -> (context:
    String)
    ensures
        context@ == replace_text(path@, spec.label@, texts(backup_paths@)),
{
    let backups = format_backup_paths(backup_paths);
    "automatic recovery rebuilt ".to_string().concat(spec.label.as_str()).concat(" at ").concat(
        path,
    ).concat(" but failed to replace the original database; backup files remain at ").concat(
        backups.as_str(),
    )
}

/// The run of a recovery failed.
pub open spec fn run_text(path: Seq<char>, label: Seq<char>, backups: Seq<Seq<char>>) -> Seq<char> {
    "automatic recovery failed for "@ + label + " at "@ + path + "; backup files remain at "@
        + listed(backups)
}

/// The run of a recovery failed.
pub fn run_context(path: &str, spec: &RuntimeDbSpec, backup_paths: &Vec<String>) -> (context:
    String)
    ensures
        context@ == run_text(path@, spec.label@, texts(backup_paths@)),
{
    let backups = format_backup_paths(backup_paths);
    "automatic recovery failed for ".to_string().concat(spec.label.as_str()).concat(" at ").concat(
        path,
    ).concat("; backup files remain at ").concat(backups.as_str())
}

// ---------------------------------------------------------------------------
// Log messages
// ---------------------------------------------------------------------------

/// A recovery begins.
pub open spec fn started_log_text(
    path: Seq<char>,
    label: Seq<char>,
    original_error: Seq<char>,
    backups: Seq<Seq<char>>,
) -> Seq<char> {
    label + " at "@ + path + " appears malformed ("@ + original_error
        + "); attempting automatic recovery after backing up to "@ + listed(backups)
}

/// A recovery begins.
pub fn started_log(
    path: &str,
    spec: &RuntimeDbSpec,
    original_error: &str,
    backup_paths: &Vec<String>,
) -> (message: String)
    ensures
        message@ == started_log_text(path@, spec.label@, original_error@, texts(backup_paths@)),
{
    let backups = format_backup_paths(backup_paths);
    spec.label.clone().concat(" at ").concat(path).concat(" appears malformed (").concat(
        original_error,
    ).concat("); attempting automatic recovery after backing up to ").concat(backups.as_str())
}

/// A recovery has succeeded.
pub open spec fn completed_log_text(path: Seq<char>, label: Seq<char>) -> Seq<char> {
    "automatically recovered "@ + label + " at "@ + path + " with the SQLite recovery API"@
}

/// A recovery has succeeded.
pub fn completed_log(path: &str, spec: &RuntimeDbSpec) -> (message: String)
    ensures
        message@ == completed_log_text(path@, spec.label@),
{
    "automatically recovered ".to_string().concat(spec.label.as_str()).concat(" at ").concat(
        path,
    ).concat(" with the SQLite recovery API")
}

// ---------------------------------------------------------------------------
// Laws
// ---------------------------------------------------------------------------

/// `text` holds `part`.
proof fn lemma_holds(before: Seq<char>, part: Seq<char>, after: Seq<char>, text: Seq<char>)
    requires
        text == before + part + after,
    ensures
        contains_text(text, part),
{
    let at = before.len() as int;
    assert(text.subrange(at, at + part.len()) =~= part);
    assert(occurs_at(text, part, at));
}

/// What is within a part of a text is within the text.
proof fn lemma_holds_within(
    before: Seq<char>,
    part: Seq<char>,
    after: Seq<char>,
    text: Seq<char>,
    inner: Seq<char>,
)
    requires
        text == before + part + after,
        contains_text(part, inner),
    ensures
        contains_text(text, inner),
{
    let at = choose|at: int| occurs_at(part, inner, at);
    let there = before.len() + at;
    assert(text.subrange(there, there + inner.len()) =~= part.subrange(at, at + inner.len()));
    assert(occurs_at(text, inner, there));
}

/// `text` tells of the database: what it is called, and where it is.
pub open spec fn names_database(text: Seq<char>, path: Seq<char>, label: Seq<char>) -> bool {
    contains_text(text, label + " at "@ + path)
}

/// `text` tells where every backup is.
pub open spec fn names_backups(text: Seq<char>, backups: Seq<Seq<char>>) -> bool {
    forall|i: int| 0 <= i < backups.len() ==> contains_text(text, #[trigger] backups[i])
}

proof fn lemma_names_backups(
    before: Seq<char>,
    backups: Seq<Seq<char>>,
    after: Seq<char>,
    text: Seq<char>,
)
    requires
        text == before + listed(backups) + after,
    ensures
        names_backups(text, backups),
{
    assert forall|i: int| 0 <= i < backups.len() implies contains_text(
        text,
        #[trigger] backups[i],
    ) by {
        joined_parts_are_there(backups, ", "@, i);
        lemma_holds_within(before, listed(backups), after, text, backups[i]);
    }
}

proof fn lemma_names_both(
    front: Seq<char>,
    path: Seq<char>,
    label: Seq<char>,
    middle: Seq<char>,
    backups: Seq<Seq<char>>,
    after: Seq<char>,
    text: Seq<char>,
)
    requires
        text == front + label + " at "@ + path + middle + listed(backups) + after,
    ensures
        names_database(text, path, label),
        names_backups(text, backups),
{
    let database = label + " at "@ + path;
    assert(text =~= front + database + (middle + listed(backups) + after));
    lemma_holds(front, database, middle + listed(backups) + after, text);
    lemma_names_backups(front + label + " at "@ + path + middle, backups, after, text);
}

/// What the person who waits is told names the database and, unless all is
/// well again, every backup.
pub proof fn statuses_name_database_and_backups(
    path: Seq<char>,
    label: Seq<char>,
    backups: Seq<Seq<char>>,
)
    ensures
        names_database(started_text(path, label, backups), path, label),
        names_backups(started_text(path, label, backups), backups),
        names_database(completed_text(path, label), path, label),
        names_database(failed_text(path, label, backups), path, label),
        names_backups(failed_text(path, label, backups), backups),
{
    let started = started_text(path, label, backups);
    assert(started =~= started + seq![]);
    lemma_names_both(
        "Codex detected a malformed "@,
        path,
        label,
        ". Please wait while Codex attempts to recover it automatically. Backup files: "@,
        backups,
        seq![],
        started,
    );
    lemma_names_both(
        "Codex could not automatically recover "@,
        path,
        label,
        ". Backup files remain at "@,
        backups,
        "."@,
        failed_text(path, label, backups),
    );
    let front = "Codex successfully recovered "@;
    let database = label + " at "@ + path;
    assert(completed_text(path, label) =~= front + database + "."@);
    lemma_holds(front, database, "."@, completed_text(path, label));
}

/// The errors of a recovery name the database and, once there are any, every
/// backup.
pub proof fn errors_name_database_and_backups(
    path: Seq<char>,
    label: Seq<char>,
    backups: Seq<Seq<char>>,
)
    ensures
        names_database(prepare_text(path, label), path, label),
        names_database(replace_text(path, label, backups), path, label),
        names_backups(replace_text(path, label, backups), backups),
        names_database(run_text(path, label, backups), path, label),
        names_backups(run_text(path, label, backups), backups),
{
    let replace = replace_text(path, label, backups);
    assert(replace =~= replace + seq![]);
    lemma_names_both(
        "automatic recovery rebuilt "@,
        path,
        label,
        " but failed to replace the original database; backup files remain at "@,
        backups,
        seq![],
        replace,
    );
    let run = run_text(path, label, backups);
    assert(run =~= run + seq![]);
    lemma_names_both(
        "automatic recovery failed for "@,
        path,
        label,
        "; backup files remain at "@,
        backups,
        seq![],
        run,
    );
    let front = "failed to prepare automatic recovery for "@;
    let database = label + " at "@ + path;
    assert(prepare_text(path, label) =~= front + database + seq![]);
    lemma_holds(front, database, seq![], prepare_text(path, label));
}

/// What the log is told names the database; when a recovery begins, also why
/// and every backup.
pub proof fn logs_name_database_and_backups(
    path: Seq<char>,
    label: Seq<char>,
    original_error: Seq<char>,
    backups: Seq<Seq<char>>,
)
    ensures
        names_database(started_log_text(path, label, original_error, backups), path, label),
        names_backups(started_log_text(path, label, original_error, backups), backups),
        contains_text(started_log_text(path, label, original_error, backups), original_error),
        names_database(completed_log_text(path, label), path, label),
{
    let started = started_log_text(path, label, original_error, backups);
    let why = " appears malformed ("@;
    let after = "); attempting automatic recovery after backing up to "@;
    assert(started =~= seq![] + label + " at "@ + path + (why + original_error + after) + listed(
        backups,
    ) + seq![]);
    lemma_names_both(
        seq![],
        path,
        label,
        why + original_error + after,
        backups,
        seq![],
        started,
    );
    let before = label + " at "@ + path + why;
    assert(started =~= before + original_error + (after + listed(backups)));
    lemma_holds(before, original_error, after + listed(backups), started);
    let front = "automatically recovered "@;
    let database = label + " at "@ + path;
    let back = " with the SQLite recovery API"@;
    assert(completed_log_text(path, label) =~= front + database + back);
    lemma_holds(front, database, back, completed_log_text(path, label));
}

/// Backups are listed in order, with a comma and a space between them.
pub proof fn backups_are_listed_in_order(
    backup: Seq<char>,
    a: Seq<Seq<char>>,
    b: Seq<Seq<char>>,
)
    ensures
        listed(seq![]) == Seq::<char>::empty(),
        listed(seq![backup]) == backup,
        a.len() > 0 && b.len() > 0 ==> listed(a + b) == listed(a) + seq![',', ' '] + listed(b),
{
    reveal_strlit(", ");
    assert(", "@ =~= seq![',', ' ']);
    joining_goes_part_by_part(a, b, ", "@, backup);
}

} // verus!
