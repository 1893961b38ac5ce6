//! Preparing a recovery: every file of the damaged database is copied to a
//! name that was free, and a free name is found for the recovered database.
use vstd::prelude::*;

use crate::recovery_files::{
    LAST_SEQUENCE, SearchView, SiblingSearch, is_candidate, is_copy_name, is_first_search,
    no_name_message, sqlite_paths, sqlite_texts,
};
use crate::path_text::is_named;
use crate::text::texts;

verus! {

/// Where the files of a recovery are.
pub struct RecoveryPaths {
    /// The recovered database goes here.
    pub recovered_path: String,
    /// The damaged files were copied to these.
    pub backup_paths: Vec<String>,
}

/// What to do next.
pub enum PrepareAction {
    /// Find out whether there is a file.
    CheckExists { path: String },
    /// Copy a file.
    Copy { from: String, to: String },
    /// Nothing: the preparation is over.
    Nothing,
}

/// The model of what to do next.
pub enum PrepareActionView {
    CheckExists { path: Seq<char> },
    Copy { from: Seq<char>, to: Seq<char> },
    Nothing,
}

impl View for PrepareAction {
    type V = PrepareActionView;

    open spec fn view(&self) -> PrepareActionView {
        match self {
            PrepareAction::CheckExists { path } => PrepareActionView::CheckExists { path: path@ },
            PrepareAction::Copy { from, to } => PrepareActionView::Copy { from: from@, to: to@ },
            PrepareAction::Nothing => PrepareActionView::Nothing,
        }
    }
}

/// How far a preparation has come.
pub enum PrepareStage {
    /// Is there a database at all?
    Database,
    /// Is there this one of its files?
    Source { index: int },
    /// Is this name for its copy taken?
    Candidate { index: int, search: SearchView, path: Seq<char> },
    /// The file is to be copied.
    Copy { index: int, to: Seq<char> },
    /// Is this name for the recovered database taken?
    Recovered { search: SearchView, path: Seq<char> },
    /// The preparation is over.
    Done { recovered: Seq<char> },
    /// The preparation has failed.
    Failed { message: Seq<char> },
}

/// The model of a preparation.
pub struct PrepareView {
    /// The damaged database.
    pub path: Seq<char>,
    /// The name of the recovery.
    pub suffix: Seq<char>,
    /// The copies that were made.
    pub backups: Seq<Seq<char>>,
    pub stage: PrepareStage,
}

enum PreparePhase {
    Database,
    Source,
    Candidate { search: SiblingSearch, path: String },
    Copy { to: String },
    Recovered { search: SiblingSearch, path: String },
    Done { recovered: String },
    Failed { message: String },
}

/// A recovery that is being prepared.
pub struct PrepareRecovery {
    path: String,
    suffix: String,
    sources: Vec<String>,
    index: usize,
    backups: Vec<String>,
    phase: PreparePhase,
    /// Each question that was asked, with its answer.
    asked: Ghost<Seq<(Seq<char>, bool)>>,
    /// Which of the files were there.
    found: Ghost<Seq<bool>>,
    /// Each copy that was made.
    copies: Ghost<Seq<(Seq<char>, Seq<char>)>>,
}

/// The action that a stage asks for.
pub open spec fn prepare_action(view: PrepareView) -> PrepareActionView {
    match view.stage {
        PrepareStage::Database => PrepareActionView::CheckExists { path: view.path },
        PrepareStage::Source { index } => PrepareActionView::CheckExists {
            path: sqlite_texts(view.path)[index],
        },
        PrepareStage::Candidate { path, .. } => PrepareActionView::CheckExists { path },
        PrepareStage::Copy { index, to } => PrepareActionView::Copy {
            from: sqlite_texts(view.path)[index],
            to,
        },
        PrepareStage::Recovered { path, .. } => PrepareActionView::CheckExists { path },
        PrepareStage::Done { .. } => PrepareActionView::Nothing,
        PrepareStage::Failed { .. } => PrepareActionView::Nothing,
    }
}

/// The name that is asked for is the last one that can be tried.
pub open spec fn is_exhausted(stage: PrepareStage) -> bool {
    match stage {
        PrepareStage::Candidate { search, .. } => search.sequence >= LAST_SEQUENCE,
        PrepareStage::Recovered { search, .. } => search.sequence >= LAST_SEQUENCE,
        _ => false,
    }
}

/// A name for the copy of the file number `index` is searched for, from the
/// first number on.
pub open spec fn searches_backup(
    stage: PrepareStage,
    path: Seq<char>,
    suffix: Seq<char>,
    index: int,
) -> bool {
    let source = sqlite_texts(path)[index];
    match stage {
        PrepareStage::Candidate { index: at, search, path: candidate } => {
            &&& at == index
            &&& is_first_search(search, source, suffix, "bak"@)
            &&& is_candidate(search, candidate)
        },
        PrepareStage::Failed { message } => is_named(source, None) && message == no_name_message(
            source,
        ),
        _ => false,
    }
}

/// A name for the recovered database is searched for, from the first number
/// on.
pub open spec fn searches_recovered(
    stage: PrepareStage,
    path: Seq<char>,
    suffix: Seq<char>,
) -> bool {
    match stage {
        PrepareStage::Recovered { search, path: candidate } => {
            &&& is_first_search(search, path, suffix, "recovered"@)
            &&& is_candidate(search, candidate)
        },
        PrepareStage::Failed { message } => is_named(path, None) && message == no_name_message(
            path,
        ),
        _ => false,
    }
}

/// What comes once the files before number `index` are done with.
pub open spec fn comes_after(view: PrepareView, index: int) -> bool {
    if index < sqlite_texts(view.path).len() {
        view.stage == (PrepareStage::Source { index })
    } else if view.backups.len() == 0 {
        view.stage == (PrepareStage::Failed {
            message: "no database files were available to back up"@,
        })
    } else {
        searches_recovered(view.stage, view.path, view.suffix)
    }
}

/// `after` follows `before` once a question has the answer `exists`.
pub open spec fn follows_answer(before: PrepareView, exists: bool, after: PrepareView) -> bool {
    &&& after.path == before.path
    &&& after.suffix == before.suffix
    &&& after.backups == before.backups
    &&& match before.stage {
        PrepareStage::Database => if exists {
            after.stage == (PrepareStage::Source { index: 0 })
        } else {
            after.stage == (PrepareStage::Failed { message: "database file does not exist"@ })
        },
        PrepareStage::Source { index } => if exists {
            searches_backup(after.stage, before.path, before.suffix, index)
        } else {
            comes_after(after, index + 1)
        },
        PrepareStage::Candidate { index, search, path } => if exists {
            let next = SearchView { sequence: search.sequence + 1, ..search };
            after.stage matches PrepareStage::Candidate { index: at, search: tried, path: candidate }
                && at == index && tried == next && is_candidate(next, candidate)
        } else {
            after.stage == (PrepareStage::Copy { index, to: path })
        },
        PrepareStage::Recovered { search, path } => if exists {
            let next = SearchView { sequence: search.sequence + 1, ..search };
            after.stage matches PrepareStage::Recovered { search: tried, path: candidate } && tried
                == next && is_candidate(next, candidate)
        } else {
            after.stage == (PrepareStage::Done { recovered: path })
        },
        _ => after.stage == before.stage,
    }
}

/// `after` follows `before` once a file was copied.
pub open spec fn follows_copy(before: PrepareView, after: PrepareView) -> bool {
    &&& after.path == before.path
    &&& after.suffix == before.suffix
    &&& match before.stage {
        PrepareStage::Copy { index, to } => {
            &&& after.backups == before.backups.push(to)
            &&& comes_after(after, index + 1)
        },
        _ => after.backups == before.backups && after.stage == before.stage,
    }
}

/// Those of `sources` that were found.
pub open spec fn found_sources(sources: Seq<Seq<char>>, found: Seq<bool>) -> Seq<Seq<char>>
    decreases found.len(),
{
    if found.len() == 0 {
        seq![]
    } else {
        let before = found_sources(sources, found.drop_last());
        if found.last() {
            before.push(sources[found.len() - 1])
        } else {
            before
        }
    }
}

/// The files that were copied.
pub open spec fn copied_files(copies: Seq<(Seq<char>, Seq<char>)>) -> Seq<Seq<char>> {
    copies.map_values(|copy: (Seq<char>, Seq<char>)| copy.0)
}

/// The names that they were copied to.
pub open spec fn copy_targets(copies: Seq<(Seq<char>, Seq<char>)>) -> Seq<Seq<char>> {
    copies.map_values(|copy: (Seq<char>, Seq<char>)| copy.1)
}

/// `path` was found not to be taken.
pub open spec fn was_free(asked: Seq<(Seq<char>, bool)>, path: Seq<char>) -> bool {
    exists|i: int| 0 <= i < asked.len() && #[trigger] asked[i] == (path, false)
}

/// `search` is a search for a copy of `source`, and tries `path`.
spec fn searches_for(
    search: SearchView,
    source: Seq<char>,
    suffix: Seq<char>,
    extension: Seq<char>,
    path: Seq<char>,
) -> bool {
    &&& search.path == source
    &&& search.suffix == suffix
    &&& search.extension == extension
    &&& is_named(source, Some(search.file_name))
    &&& is_candidate(search, path)
}

impl View for PrepareRecovery {
    type V = PrepareView;

    closed spec fn view(&self) -> PrepareView {
        PrepareView {
            path: self.path@,
            suffix: self.suffix@,
            backups: texts(self.backups@),
            stage: match self.phase {
                PreparePhase::Database => PrepareStage::Database,
                PreparePhase::Source => PrepareStage::Source { index: self.index as int },
                PreparePhase::Candidate { search, path } => PrepareStage::Candidate {
                    index: self.index as int,
                    search: search@,
                    path: path@,
                },
                PreparePhase::Copy { to } => PrepareStage::Copy {
                    index: self.index as int,
                    to: to@,
                },
                PreparePhase::Recovered { search, path } => PrepareStage::Recovered {
                    search: search@,
                    path: path@,
                },
                PreparePhase::Done { recovered } => PrepareStage::Done { recovered: recovered@ },
                PreparePhase::Failed { message } => PrepareStage::Failed { message: message@ },
            },
        }
    }
}

impl PrepareRecovery {
    /// Each question that was asked, with its answer.
    pub closed spec fn asked(self) -> Seq<(Seq<char>, bool)> {
        self.asked@
    }

    /// Which of the database's files were there, as far as they were asked
    /// for.
    pub closed spec fn found(self) -> Seq<bool> {
        self.found@
    }

    /// Each copy that was made: from where, to where.
    pub closed spec fn copies(self) -> Seq<(Seq<char>, Seq<char>)> {
        self.copies@
    }

    /// The record of what was done bears out how far the preparation has come.
    pub closed spec fn well_formed(self) -> bool {
        let sources = sqlite_texts(self.path@);
        &&& texts(self.sources@) == sources
        &&& copy_targets(self.copies@) == texts(self.backups@)
        &&& forall|i: int|
            0 <= i < self.copies@.len() ==> {
                &&& was_free(self.asked@, (#[trigger] self.copies@[i]).1)
                &&& is_copy_name(
                    self.copies@[i].0,
                    self.suffix@,
                    "bak"@,
                    self.copies@[i].1,
                )
            }
        &&& !(self.phase is Database || self.phase is Failed) ==> self.asked@.len() > 0
            && self.asked@[0] == (self.path@, true)
        &&& match self.phase {
            PreparePhase::Database => {
                &&& self.index == 0
                &&& self.found@.len() == 0
                &&& self.copies@.len() == 0
                &&& self.asked@.len() == 0
            },
            PreparePhase::Source => {
                &&& self.index < sources.len()
                &&& self.found@.len() == self.index
                &&& copied_files(self.copies@) == found_sources(sources, self.found@)
            },
            PreparePhase::Candidate { search, path } => {
                &&& searches_for(
                    search@,
                    sources[self.index as int],
                    self.suffix@,
                    "bak"@,
                    path@,
                )
                &&& self.index < sources.len()
                &&& self.found@.len() == self.index + 1
                &&& self.found@.last()
                &&& copied_files(self.copies@) == found_sources(sources, self.found@.drop_last())
            },
            PreparePhase::Copy { to } => {
                &&& self.index < sources.len()
                &&& self.found@.len() == self.index + 1
                &&& self.found@.last()
                &&& copied_files(self.copies@) == found_sources(sources, self.found@.drop_last())
                &&& was_free(self.asked@, to@)
                &&& is_copy_name(sources[self.index as int], self.suffix@, "bak"@, to@)
            },
            PreparePhase::Recovered { search, path } => {
                &&& searches_for(search@, self.path@, self.suffix@, "recovered"@, path@)
                &&& self.found@.len() == sources.len()
                &&& copied_files(self.copies@) == found_sources(sources, self.found@)
                &&& self.backups@.len() > 0
            },
            PreparePhase::Done { recovered } => {
                &&& self.found@.len() == sources.len()
                &&& copied_files(self.copies@) == found_sources(sources, self.found@)
                &&& self.backups@.len() > 0
                &&& was_free(self.asked@, recovered@)
                &&& is_copy_name(self.path@, self.suffix@, "recovered"@, recovered@)
            },
            PreparePhase::Failed { .. } => true,
        }
    }

    /// Starts to prepare the recovery called `suffix` of the database at
    /// `path`.
    pub fn new(path: &str, suffix: &str) -> (prepare: Self)
        ensures
            prepare.well_formed(),
            prepare@ == (PrepareView {
                path: path@,
                suffix: suffix@,
                backups: seq![],
                stage: PrepareStage::Database,
            }),
            prepare.asked() == Seq::<(Seq<char>, bool)>::empty(),
            prepare.found() == Seq::<bool>::empty(),
            prepare.copies() == Seq::<(Seq<char>, Seq<char>)>::empty(),
    {
        let prepare = PrepareRecovery {
            path: path.to_string(),
            suffix: suffix.to_string(),
            sources: sqlite_paths(path),
            index: 0,
            backups: Vec::new(),
            phase: PreparePhase::Database,
            asked: Ghost(Seq::empty()),
            found: Ghost(Seq::empty()),
            copies: Ghost(Seq::empty()),
        };
        assert(texts(prepare.backups@) =~= seq![]);
        assert(copy_targets(prepare.copies@) =~= seq![]);
        prepare
    }

    /// What to do next. Nothing is copied to a name that was not found free.
    pub fn action(&self) -> (action: PrepareAction)
        requires
            self.well_formed(),
        ensures
            action@ == prepare_action(self@),
            action matches PrepareAction::Copy { to, .. } ==> was_free(self.asked(), to@),
    {
        proof {
            let sources = sqlite_texts(self.path@);
            assert forall|i: int| 0 <= i < sources.len() implies #[trigger] sources[i]
                == self.sources@[i]@ by {
                assert(texts(self.sources@)[i] == self.sources@[i]@);
            }
            assert(texts(self.sources@).len() == self.sources@.len());
        }
        match &self.phase {
            PreparePhase::Database => PrepareAction::CheckExists { path: self.path.clone() },
            PreparePhase::Source => PrepareAction::CheckExists {
                path: self.sources[self.index].clone(),
            },
            PreparePhase::Candidate { path, .. } => PrepareAction::CheckExists {
                path: path.clone(),
            },
            PreparePhase::Copy { to } => PrepareAction::Copy {
                from: self.sources[self.index].clone(),
                to: to.clone(),
            },
            PreparePhase::Recovered { path, .. } => PrepareAction::CheckExists {
                path: path.clone(),
            },
            PreparePhase::Done { .. } => PrepareAction::Nothing,
            PreparePhase::Failed { .. } => PrepareAction::Nothing,
        }
    }
    /// The name that is asked for is the last one that can be tried.
    pub fn is_at_last_name(&self) -> (last: bool)
        ensures
            last == is_exhausted(self@.stage),
    {
        match &self.phase {
            PreparePhase::Candidate { search, .. } => search.is_at_last(),
            PreparePhase::Recovered { search, .. } => search.is_at_last(),
            _ => false,
        }
    }

    /// Takes the answer to whether there is a file at the path that was asked
    /// for.
    pub fn answered(self, exists: bool) -> (next: Self)
        requires
            self.well_formed(),
            prepare_action(self@) is CheckExists,
            !(exists && is_exhausted(self@.stage)),
        ensures
            next.well_formed(),
            follows_answer(self@, exists, next@),
            next.asked() == self.asked().push((prepare_action(self@)->path, exists)),
            next.found() == if self@.stage is Source {
                self.found().push(exists)
            } else {
                self.found()
            },
            next.copies() == self.copies(),
    {
        let ghost before = self;
        let ghost question = prepare_action(self@)->path;
        let ghost now_asked = self.asked@.push((question, exists));
        let ghost now_found = if self@.stage is Source {
            self.found@.push(exists)
        } else {
            self.found@
        };
        let PrepareRecovery { path, suffix, sources, index, backups, phase, asked, found, copies } =
            self;
        let total: usize = sources.len();
        proof {
            lemma_sources(path@, sources@);
            lemma_still_free(asked@, (question, exists));
            assert(copies@.len() == 0 ==> copied_files(copies@) =~= seq![]);
            assert(now_found.len() > 0 && before@.stage is Source ==> now_found.drop_last()
                =~= found@);
        }
        let mut index = index;
        let phase = match phase {
            PreparePhase::Database => {
                if exists {
                    PreparePhase::Source
                } else {
                    PreparePhase::Failed { message: "database file does not exist".to_string() }
                }
            },
            PreparePhase::Source => {
                if exists {
                    backup_phase(sources[index].as_str(), suffix.as_str())
                } else {
                    index = index + 1;
                    if index < total {
                        PreparePhase::Source
                    } else {
                        recovered_phase(path.as_str(), suffix.as_str(), backups.len() == 0)
                    }
                }
            },
            PreparePhase::Candidate { search, path: tried } => {
                if exists {
                    let mut search = search;
                    search.advance();
                    let candidate = search.candidate();
                    PreparePhase::Candidate { search, path: candidate }
                } else {
                    PreparePhase::Copy { to: tried }
                }
            },
            PreparePhase::Recovered { search, path: tried } => {
                if exists {
                    let mut search = search;
                    search.advance();
                    let candidate = search.candidate();
                    PreparePhase::Recovered { search, path: candidate }
                } else {
                    PreparePhase::Done { recovered: tried }
                }
            },
            phase => phase,
        };
        let next = PrepareRecovery {
            path,
            suffix,
            sources,
            index,
            backups,
            phase,
            asked: Ghost(now_asked),
            found: Ghost(now_found),
            copies,
        };
        assert(now_asked.last() == (question, exists));
        assert(next.asked@[now_asked.len() - 1] == (question, exists));
        next
    }

    /// Takes note that the file was copied.
    pub fn copied(self) -> (next: Self)
        requires
            self.well_formed(),
            prepare_action(self@) is Copy,
        ensures
            next.well_formed(),
            follows_copy(self@, next@),
            next.asked() == self.asked(),
            next.found() == self.found(),
            next.copies() == self.copies().push(
                (prepare_action(self@)->from, prepare_action(self@)->to),
            ),
    {
        let ghost before = self;
        let ghost from = prepare_action(self@)->from;
        let ghost target = prepare_action(self@)->to;
        let ghost now_copies = self.copies@.push((from, target));
        let PrepareRecovery { path, suffix, sources, index, backups, phase, asked, found, copies } =
            self;
        let total: usize = sources.len();
        proof {
            lemma_sources(path@, sources@);
        }
        let mut backups = backups;
        let ghost old_backups = backups@;
        let mut index = index;
        let phase = match phase {
            PreparePhase::Copy { to } => {
                backups.push(to);
                index = index + 1;
                if index < total {
                    PreparePhase::Source
                } else {
                    recovered_phase(path.as_str(), suffix.as_str(), false)
                }
            },
            phase => phase,
        };
        let next = PrepareRecovery {
            path,
            suffix,
            sources,
            index,
            backups,
            phase,
            asked,
            found,
            copies: Ghost(now_copies),
        };
        proof {
            assert(texts(next.backups@) =~= texts(old_backups).push(target));
            assert(copy_targets(now_copies) =~= copy_targets(before.copies@).push(target));
            assert(copied_files(now_copies) =~= copied_files(before.copies@).push(from));
            assert forall|i: int| 0 <= i < now_copies.len() implies was_free(
                next.asked@,
                (#[trigger] now_copies[i]).1,
            ) && is_copy_name(now_copies[i].0, next.suffix@, "bak"@, now_copies[i].1) by {
                if i < before.copies@.len() {
                    assert(now_copies[i] == before.copies@[i]);
                }
            }
        }
        next
    }

    /// How the preparation went. If it succeeded, the database was there, and
    /// those of its files that were there are backed up, each under a name
    /// that was free; the name for the recovered database is free too.
    pub fn finish(self) -> (outcome: Result<RecoveryPaths, String>)
        requires
            self.well_formed(),
            prepare_action(self@) is Nothing,
        ensures
            match outcome {
                Ok(paths) => {
                    &&& self@.stage == (PrepareStage::Done { recovered: paths.recovered_path@ })
                    &&& texts(paths.backup_paths@) == self@.backups
                    &&& paths.backup_paths@.len() > 0
                    &&& self.asked()[0] == (self@.path, true)
                    &&& copied_files(self.copies()) == found_sources(
                        sqlite_texts(self@.path),
                        self.found(),
                    )
                    &&& self.found().len() == sqlite_texts(self@.path).len()
                    &&& copy_targets(self.copies()) == texts(paths.backup_paths@)
                    &&& forall|i: int|
                        0 <= i < self.copies().len() ==> {
                            &&& was_free(self.asked(), (#[trigger] self.copies()[i]).1)
                            &&& is_copy_name(
                                self.copies()[i].0,
                                self@.suffix,
                                "bak"@,
                                self.copies()[i].1,
                            )
                        }
                    &&& was_free(self.asked(), paths.recovered_path@)
                    &&& is_copy_name(
                        self@.path,
                        self@.suffix,
                        "recovered"@,
                        paths.recovered_path@,
                    )
                },
                Err(message) => self@.stage == (PrepareStage::Failed { message: message@ }),
            },
    {
        match self.phase {
            PreparePhase::Done { recovered } => Ok(
                RecoveryPaths { recovered_path: recovered, backup_paths: self.backups },
            ),
            PreparePhase::Failed { message } => Err(message),
            _ => Err(String::new()),
        }
    }
}

/// The texts of the files of a database.
proof fn lemma_sources(path: Seq<char>, sources: Seq<String>)
    requires
        texts(sources) == sqlite_texts(path),
    ensures
        sources.len() == sqlite_texts(path).len(),
        forall|i: int| 0 <= i < sources.len() ==> #[trigger] sqlite_texts(path)[i] == sources[i]@,
{
    assert(texts(sources).len() == sources.len());
    assert forall|i: int| 0 <= i < sources.len() implies #[trigger] sqlite_texts(path)[i]
        == sources[i]@ by {
        assert(texts(sources)[i] == sources[i]@);
    }
}

/// What was found free stays found free.
proof fn lemma_still_free(asked: Seq<(Seq<char>, bool)>, next: (Seq<char>, bool))
    ensures
        forall|path: Seq<char>| #[trigger] was_free(asked, path) ==> was_free(asked.push(next), path),
        !next.1 ==> was_free(asked.push(next), next.0),
        asked.len() > 0 ==> asked.push(next)[0] == asked[0],
        asked.len() == 0 ==> asked.push(next)[0] == next,
{
    assert forall|path: Seq<char>| #[trigger] was_free(asked, path) implies was_free(
        asked.push(next),
        path,
    ) by {
        let i = choose|i: int| 0 <= i < asked.len() && #[trigger] asked[i] == (path, false);
        assert(asked.push(next)[i] == asked[i]);
    }
    assert(asked.push(next)[asked.len() as int] == next);
}

/// Starts to search a name for the copy of `source`.
fn backup_phase(source: &str, suffix: &str) -> (phase: PreparePhase)
    ensures
        match phase {
            PreparePhase::Candidate { search, path } => {
                &&& is_first_search(search@, source@, suffix@, "bak"@)
                &&& is_candidate(search@, path@)
            },
            PreparePhase::Failed { message } => is_named(source@, None) && message@
                == no_name_message(source@),
            _ => false,
        },
{
    match SiblingSearch::new(source, suffix, "bak") {
        Ok(search) => {
            let path = search.candidate();
            PreparePhase::Candidate { search, path }
        },
        Err(message) => PreparePhase::Failed { message },
    }
}

/// Starts to search a name for the recovered database, if there are backups.
fn recovered_phase(database: &str, suffix: &str, nothing_saved: bool) -> (phase: PreparePhase)
    ensures
        match phase {
            PreparePhase::Recovered { search, path } => {
                &&& !nothing_saved
                &&& is_first_search(search@, database@, suffix@, "recovered"@)
                &&& is_candidate(search@, path@)
            },
            PreparePhase::Failed { message } => if nothing_saved {
                message@ == "no database files were available to back up"@
            } else {
                is_named(database@, None) && message@ == no_name_message(database@)
            },
            _ => false,
        },
{
    if nothing_saved {
        return PreparePhase::Failed {
            message: "no database files were available to back up".to_string(),
        };
    }
    match SiblingSearch::new(database, suffix, "recovered") {
        Ok(search) => {
            let path = search.candidate();
            PreparePhase::Recovered { search, path }
        },
        Err(message) => PreparePhase::Failed { message },
    }
}

} // verus!
