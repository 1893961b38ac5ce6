//! Putting a recovered database in the place of the damaged one.
use vstd::prelude::*;

use crate::recovery_files::{sidecar_texts, sqlite_sidecar_paths};
use crate::text::texts;

verus! {

/// What to do next.
pub enum ReplaceAction {
    /// Remove a file.
    Remove { path: String },
    /// Move a file.
    Rename { from: String, to: String },
    /// Nothing: the replacement is over.
    Nothing,
}

/// The model of what to do next.
pub enum ReplaceActionView {
    Remove { path: Seq<char> },
    Rename { from: Seq<char>, to: Seq<char> },
    Nothing,
}

impl View for ReplaceAction {
    type V = ReplaceActionView;

    open spec fn view(&self) -> ReplaceActionView {
        match self {
            ReplaceAction::Remove { path } => ReplaceActionView::Remove { path: path@ },
            ReplaceAction::Rename { from, to } => ReplaceActionView::Rename {
                from: from@,
                to: to@,
            },
            ReplaceAction::Nothing => ReplaceActionView::Nothing,
        }
    }
}

/// What came of it.
pub enum ReplaceAnswer<E> {
    /// It was done.
    Done,
    /// It failed; `not_found` says that there is no such file.
    Failed { error: E, not_found: bool },
}

enum ReplacePhase<E> {
    Clear,
    Rename,
    Finished { failure: Option<E> },
}

/// How far a replacement has come.
pub enum ReplacePhaseView<E> {
    /// A file is to be removed.
    Clear,
    /// The recovered database is to be moved.
    Rename,
    /// The replacement is over.
    Finished { failure: Option<E> },
}

/// The replacement of a database.
pub struct ReplaceDatabase<E> {
    path: String,
    recovered_path: String,
    /// The files that have to go before.
    removals: Vec<String>,
    index: usize,
    phase: ReplacePhase<E>,
}

/// The model of a replacement.
pub struct ReplaceView<E> {
    pub path: Seq<char>,
    pub recovered_path: Seq<char>,
    pub removals: Seq<Seq<char>>,
    pub index: int,
    pub phase: ReplacePhaseView<E>,
}

impl<E> View for ReplaceDatabase<E> {
    type V = ReplaceView<E>;

    closed spec fn view(&self) -> ReplaceView<E> {
        ReplaceView {
            path: self.path@,
            recovered_path: self.recovered_path@,
            removals: texts(self.removals@),
            index: self.index as int,
            phase: match self.phase {
                ReplacePhase::Clear => ReplacePhaseView::Clear,
                ReplacePhase::Rename => ReplacePhaseView::Rename,
                ReplacePhase::Finished { failure } => ReplacePhaseView::Finished { failure },
            },
        }
    }
}

/// The files that have to go before: what SQLite keeps beside the damaged
/// database would be replayed into the new one, and where a file cannot be
/// moved over another, the damaged database itself.
pub open spec fn removal_texts(path: Seq<char>, clear_target: bool) -> Seq<Seq<char>> {
    if clear_target {
        sidecar_texts(path).push(path)
    } else {
        sidecar_texts(path)
    }
}

/// A replacement at its start.
pub open spec fn replace_start<E>(
    path: Seq<char>,
    recovered_path: Seq<char>,
    clear_target: bool,
) -> ReplaceView<E> {
    ReplaceView {
        path,
        recovered_path,
        removals: removal_texts(path, clear_target),
        index: 0,
        phase: ReplacePhaseView::Clear,
    }
}

/// The action that a phase asks for.
pub open spec fn replace_action<E>(replace: ReplaceView<E>) -> ReplaceActionView {
    match replace.phase {
        ReplacePhaseView::Clear => ReplaceActionView::Remove {
            path: replace.removals[replace.index],
        },
        ReplacePhaseView::Rename => ReplaceActionView::Rename {
            from: replace.recovered_path,
            to: replace.path,
        },
        ReplacePhaseView::Finished { .. } => ReplaceActionView::Nothing,
    }
}

/// The replacement after what came of its action. A file that is not there
/// need not be removed.
pub open spec fn replace_after<E>(replace: ReplaceView<E>, answer: ReplaceAnswer<E>) -> ReplaceView<E> {
    match (replace.phase, answer) {
        (ReplacePhaseView::Clear, ReplaceAnswer::Failed { error, not_found: false }) => ReplaceView {
            phase: ReplacePhaseView::Finished { failure: Some(error) },
            ..replace
        },
        (ReplacePhaseView::Clear, _) => ReplaceView {
            index: replace.index + 1,
            phase: if replace.index + 1 < replace.removals.len() {
                ReplacePhaseView::Clear
            } else {
                ReplacePhaseView::Rename
            },
            ..replace
        },
        (ReplacePhaseView::Rename, ReplaceAnswer::Done) => ReplaceView {
            phase: ReplacePhaseView::Finished { failure: None },
            ..replace
        },
        (ReplacePhaseView::Rename, ReplaceAnswer::Failed { error, .. }) => ReplaceView {
            phase: ReplacePhaseView::Finished { failure: Some(error) },
            ..replace
        },
        (ReplacePhaseView::Finished { .. }, _) => replace,
    }
}

impl<E> ReplaceDatabase<E> {
    /// There is a file to remove where one is to be removed.
    pub closed spec fn well_formed(self) -> bool {
        self.phase is Clear ==> self.index < self.removals@.len()
    }

    /// Starts to put the database at `recovered_path` in the place of the one
    /// at `path`. `clear_target` says that a file cannot be moved over another.
    pub fn new(path: &str, recovered_path: &str, clear_target: bool) -> (replace: Self)
        ensures
            replace.well_formed(),
            replace@ == replace_start::<E>(path@, recovered_path@, clear_target),
    {
        let mut removals = sqlite_sidecar_paths(path);
        let ghost sidecars = removals@;
        assert(texts(sidecars).len() == sidecars.len());
        if clear_target {
            removals.push(path.to_string());
            assert(texts(removals@) =~= texts(sidecars).push(path@));
        }
        ReplaceDatabase {
            path: path.to_string(),
            recovered_path: recovered_path.to_string(),
            removals,
            index: 0,
            phase: ReplacePhase::Clear,
        }
    }

    /// What to do next.
    pub fn action(&self) -> (action: ReplaceAction)
        requires
            self.well_formed(),
        ensures
            action@ == replace_action(self@),
    {
        match &self.phase {
            ReplacePhase::Clear => {
                assert(texts(self.removals@)[self.index as int] == self.removals@[self.index as int]@);
                ReplaceAction::Remove { path: self.removals[self.index].clone() }
            },
            ReplacePhase::Rename => ReplaceAction::Rename {
                from: self.recovered_path.clone(),
                to: self.path.clone(),
            },
            ReplacePhase::Finished { .. } => ReplaceAction::Nothing,
        }
    }

    /// Takes what came of the action.
    pub fn answered(self, answer: ReplaceAnswer<E>) -> (next: Self)
        requires
            self.well_formed(),
        ensures
            next.well_formed(),
            next@ == replace_after(self@, answer),
    {
        let ReplaceDatabase { path, recovered_path, removals, index, phase } = self;
        let total: usize = removals.len();
        assert(texts(removals@).len() == total);
        match (phase, answer) {
            (ReplacePhase::Clear, ReplaceAnswer::Failed { error, not_found: false }) => {
                let phase = ReplacePhase::Finished { failure: Some(error) };
                ReplaceDatabase { path, recovered_path, removals, index, phase }
            },
            (ReplacePhase::Clear, _) => {
                assert(index < total);
                let index = index + 1;
                let phase = if index < total {
                    ReplacePhase::Clear
                } else {
                    ReplacePhase::Rename
                };
                ReplaceDatabase { path, recovered_path, removals, index, phase }
            },
            (ReplacePhase::Rename, ReplaceAnswer::Done) => {
                let phase = ReplacePhase::Finished { failure: None };
                ReplaceDatabase { path, recovered_path, removals, index, phase }
            },
            (ReplacePhase::Rename, ReplaceAnswer::Failed { error, .. }) => {
                let phase = ReplacePhase::Finished { failure: Some(error) };
                ReplaceDatabase { path, recovered_path, removals, index, phase }
            },
            (phase, _) => ReplaceDatabase { path, recovered_path, removals, index, phase },
        }
    }

    /// How the replacement went, once it is over.
    pub fn outcome(self) -> (outcome: Option<Result<(), E>>)
        ensures
            match outcome {
                Some(Ok(_)) => self@.phase == (ReplacePhaseView::Finished::<E> { failure: None }),
                Some(Err(error)) => self@.phase == (ReplacePhaseView::Finished {
                    failure: Some(error),
                }),
                None => !(self@.phase is Finished),
            },
    {
        match self.phase {
            ReplacePhase::Finished { failure: None } => Some(Ok(())),
            ReplacePhase::Finished { failure: Some(error) } => Some(Err(error)),
            _ => None,
        }
    }
}

// ---------------------------------------------------------------------------
// Laws
// ---------------------------------------------------------------------------

/// A replacement after a number of answers.
pub open spec fn replace_run<E>(
    path: Seq<char>,
    recovered_path: Seq<char>,
    clear_target: bool,
    answers: Seq<ReplaceAnswer<E>>,
) -> ReplaceView<E>
    decreases answers.len(),
{
    if answers.len() == 0 {
        replace_start(path, recovered_path, clear_target)
    } else {
        replace_after(
            replace_run(path, recovered_path, clear_target, answers.drop_last()),
            answers.last(),
        )
    }
}

/// The files that are gone after a number of answers: they were removed, or
/// there were none.
pub open spec fn gone_files<E>(
    path: Seq<char>,
    recovered_path: Seq<char>,
    clear_target: bool,
    answers: Seq<ReplaceAnswer<E>>,
) -> Seq<Seq<char>>
    decreases answers.len(),
{
    if answers.len() == 0 {
        seq![]
    } else {
        let before = gone_files(path, recovered_path, clear_target, answers.drop_last());
        let replace = replace_run(path, recovered_path, clear_target, answers.drop_last());
        match (replace_action(replace), answers.last()) {
            (ReplaceActionView::Remove { path: file }, ReplaceAnswer::Done) => before.push(file),
            (
                ReplaceActionView::Remove { path: file },
                ReplaceAnswer::Failed { not_found: true, .. },
            ) => before.push(file),
            _ => before,
        }
    }
}

proof fn lemma_gone<E>(
    path: Seq<char>,
    recovered_path: Seq<char>,
    clear_target: bool,
    answers: Seq<ReplaceAnswer<E>>,
)
    ensures
        ({
            let replace = replace_run(path, recovered_path, clear_target, answers);
            &&& replace.path == path
            &&& replace.recovered_path == recovered_path
            &&& replace.removals == removal_texts(path, clear_target)
            &&& 0 <= replace.index <= replace.removals.len()
            &&& gone_files(path, recovered_path, clear_target, answers) == replace.removals.take(
                replace.index,
            )
            &&& replace.phase is Clear ==> replace.index < replace.removals.len()
            &&& replace.phase is Rename || replace.phase == (ReplacePhaseView::Finished::<E> {
                failure: None,
            }) ==> replace.index == replace.removals.len()
        }),
    decreases answers.len(),
{
    let replace = replace_run(path, recovered_path, clear_target, answers);
    let gone = gone_files(path, recovered_path, clear_target, answers);
    if answers.len() == 0 {
        assert(gone =~= replace.removals.take(0));
    } else {
        lemma_gone(path, recovered_path, clear_target, answers.drop_last());
        let before = replace_run(path, recovered_path, clear_target, answers.drop_last());
        if before.phase is Clear {
            assert(before.removals.take(before.index + 1) =~= before.removals.take(
                before.index,
            ).push(before.removals[before.index]));
        }
    }
}

/// The recovered database is moved only when nothing is left of what SQLite
/// kept beside the damaged one.
pub proof fn sidecars_go_first<E>(
    path: Seq<char>,
    recovered_path: Seq<char>,
    clear_target: bool,
    answers: Seq<ReplaceAnswer<E>>,
)
    requires
        replace_action(replace_run(path, recovered_path, clear_target, answers)) is Rename,
    ensures
        gone_files(path, recovered_path, clear_target, answers) == removal_texts(
            path,
            clear_target,
        ),
        forall|file: Seq<char>| #[trigger]
            sidecar_texts(path).contains(file) ==> gone_files(
                path,
                recovered_path,
                clear_target,
                answers,
            ).contains(file),
        replace_action(replace_run(path, recovered_path, clear_target, answers)) == (
        ReplaceActionView::Rename { from: recovered_path, to: path }),
{
    lemma_gone(path, recovered_path, clear_target, answers);
    let removals = removal_texts(path, clear_target);
    assert(removals.take(removals.len() as int) =~= removals);
    assert forall|file: Seq<char>| #[trigger]
        sidecar_texts(path).contains(file) implies removals.contains(file) by {
        let i = choose|i: int| 0 <= i < sidecar_texts(path).len() && sidecar_texts(path)[i] == file;
        assert(removals[i] == file);
    }
}

} // verus!
