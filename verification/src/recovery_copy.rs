//! Copying the tables of a recovered database into a fresh one, statement by
//! statement.
use vstd::prelude::*;

use crate::recovery_error::{
    RecoveryError, RecoveryErrorView, error_view, outside_error, plain_error,
};
use crate::recovery_tables::{
    ATTACH_SQL, DETACH_SQL, FOREIGN_KEYS_OFF_SQL, collect_names, copy_rows_sql, copy_rows_text,
    copy_table_sql, copy_table_text, has_name, name_set, shared_columns, shared_names,
    table_columns_sql, table_columns_text, user_tables_sql, user_tables_text,
};
use crate::text::texts;

verus! {

// ---------------------------------------------------------------------------
// Statements and answers
// ---------------------------------------------------------------------------

/// A statement to run on the fresh database.
pub struct Statement {
    pub sql: String,
    /// The text that is bound to its placeholder, where it has one.
    pub argument: Option<String>,
    /// Its rows are wanted, as texts.
    pub fetches: bool,
}

/// The model of a statement.
pub struct StatementView {
    pub sql: Seq<char>,
    pub argument: Option<Seq<char>>,
    pub fetches: bool,
}

impl View for Statement {
    type V = StatementView;

    open spec fn view(&self) -> StatementView {
        StatementView {
            sql: self.sql@,
            argument: match self.argument {
                Some(argument) => Some(argument@),
                None => None,
            },
            fetches: self.fetches,
        }
    }
}

/// What came of a statement.
pub enum CopyAnswer<E> {
    /// It ran.
    Done,
    /// It gave these rows.
    Rows(Vec<String>),
    /// It failed.
    Failed(E),
}

/// The model of what came of a statement.
pub enum CopyAnswerView<E> {
    Done,
    Rows(Seq<Seq<char>>),
    Failed(E),
}

impl<E> View for CopyAnswer<E> {
    type V = CopyAnswerView<E>;

    open spec fn view(&self) -> CopyAnswerView<E> {
        match self {
            CopyAnswer::Done => CopyAnswerView::Done,
            CopyAnswer::Rows(rows) => CopyAnswerView::Rows(texts(rows@)),
            CopyAnswer::Failed(error) => CopyAnswerView::Failed(*error),
        }
    }
}

// ---------------------------------------------------------------------------
// Progress
// ---------------------------------------------------------------------------

enum CopyPhase<E> {
    Attach,
    ForeignKeys,
    MainTables,
    RecoveredTables,
    MainColumns,
    RecoveredColumns { destination: Vec<String> },
    CopyRows { columns: Vec<String> },
    CopyTable,
    Detach { failure: Option<RecoveryError<E>> },
    Finished { failure: Option<RecoveryError<E>> },
}

/// How far the copying has come.
pub enum CopyPhaseView<E> {
    /// The recovered database is to be attached.
    Attach,
    /// Foreign keys are to be switched off.
    ForeignKeys,
    /// The tables of the current schema are wanted.
    MainTables,
    /// The tables that were recovered are wanted.
    RecoveredTables,
    /// The columns of the table at hand are wanted, in the current schema.
    MainColumns,
    /// And as they were recovered.
    RecoveredColumns { destination: Seq<Seq<char>> },
    /// The rows of the table at hand are to be copied.
    CopyRows { columns: Seq<Seq<char>> },
    /// The table at hand is to be copied with all that it has.
    CopyTable,
    /// The recovered database is to be detached.
    Detach { failure: Option<RecoveryErrorView<E>> },
    /// The copying is over.
    Finished { failure: Option<RecoveryErrorView<E>> },
}

spec fn copy_phase_view<E>(phase: CopyPhase<E>) -> CopyPhaseView<E> {
    match phase {
        CopyPhase::Attach => CopyPhaseView::Attach,
        CopyPhase::ForeignKeys => CopyPhaseView::ForeignKeys,
        CopyPhase::MainTables => CopyPhaseView::MainTables,
        CopyPhase::RecoveredTables => CopyPhaseView::RecoveredTables,
        CopyPhase::MainColumns => CopyPhaseView::MainColumns,
        CopyPhase::RecoveredColumns { destination } => CopyPhaseView::RecoveredColumns {
            destination: texts(destination@),
        },
        CopyPhase::CopyRows { columns } => CopyPhaseView::CopyRows { columns: texts(columns@) },
        CopyPhase::CopyTable => CopyPhaseView::CopyTable,
        CopyPhase::Detach { failure } => CopyPhaseView::Detach { failure: error_view(failure) },
        CopyPhase::Finished { failure } => CopyPhaseView::Finished { failure: error_view(failure) },
    }
}

/// The copying of the tables of a recovered database.
pub struct CopyTables<E> {
    recovered_path: String,
    /// The tables of the current schema.
    destination_tables: Vec<String>,
    /// The tables that were recovered.
    source_tables: Vec<String>,
    /// The table at hand.
    index: usize,
    /// Some table was copied.
    copied: bool,
    phase: CopyPhase<E>,
}

/// The model of the copying.
pub struct CopyView<E> {
    pub recovered_path: Seq<char>,
    pub destination_tables: Seq<Seq<char>>,
    pub source_tables: Seq<Seq<char>>,
    pub index: int,
    pub copied: bool,
    pub phase: CopyPhaseView<E>,
}

impl<E> View for CopyTables<E> {
    type V = CopyView<E>;

    closed spec fn view(&self) -> CopyView<E> {
        CopyView {
            recovered_path: self.recovered_path@,
            destination_tables: texts(self.destination_tables@),
            source_tables: texts(self.source_tables@),
            index: self.index as int,
            copied: self.copied,
            phase: copy_phase_view(self.phase),
        }
    }
}

/// There is a table at hand where one is needed.
pub open spec fn has_table_at_hand<E>(copy: CopyView<E>) -> bool {
    copy.phase is MainColumns || copy.phase is RecoveredColumns || copy.phase is CopyRows
        || copy.phase is CopyTable ==> 0 <= copy.index < copy.source_tables.len()
}

/// The model of a path: its text or, where it has none, how it is displayed.
pub open spec fn path_view(path: Result<&str, &str>) -> Result<Seq<char>, Seq<char>> {
    match path {
        Ok(text) => Ok(text@),
        Err(shown) => Err(shown@),
    }
}

/// Copying starts; it is over at once where the recovered database cannot be
/// named in a statement because its path has no text.
pub open spec fn copy_start<E>(recovered_path: Result<Seq<char>, Seq<char>>) -> CopyView<E> {
    CopyView {
        recovered_path: match recovered_path {
            Ok(text) => text,
            Err(shown) => shown,
        },
        destination_tables: seq![],
        source_tables: seq![],
        index: 0,
        copied: false,
        phase: match recovered_path {
            Ok(_) => CopyPhaseView::Attach,
            Err(shown) => CopyPhaseView::Finished {
                failure: Some(plain_error("recovered path is not valid UTF-8: "@ + shown)),
            },
        },
    }
}

/// The statement that a phase asks for.
pub open spec fn statement_of<E>(copy: CopyView<E>) -> Option<StatementView> {
    let table = copy.source_tables[copy.index];
    match copy.phase {
        CopyPhaseView::Attach => Some(
            StatementView {
                sql: ATTACH_SQL@,
                argument: Some(copy.recovered_path),
                fetches: false,
            },
        ),
        CopyPhaseView::ForeignKeys => Some(
            StatementView { sql: FOREIGN_KEYS_OFF_SQL@, argument: None, fetches: false },
        ),
        CopyPhaseView::MainTables => Some(
            StatementView { sql: user_tables_text("main"@), argument: None, fetches: true },
        ),
        CopyPhaseView::RecoveredTables => Some(
            StatementView { sql: user_tables_text("recovered"@), argument: None, fetches: true },
        ),
        CopyPhaseView::MainColumns => Some(
            StatementView { sql: table_columns_text("main"@), argument: Some(table), fetches: true },
        ),
        CopyPhaseView::RecoveredColumns { .. } => Some(
            StatementView {
                sql: table_columns_text("recovered"@),
                argument: Some(table),
                fetches: true,
            },
        ),
        CopyPhaseView::CopyRows { columns } => Some(
            StatementView { sql: copy_rows_text(table, columns), argument: None, fetches: false },
        ),
        CopyPhaseView::CopyTable => Some(
            StatementView { sql: copy_table_text(table), argument: None, fetches: false },
        ),
        CopyPhaseView::Detach { .. } => Some(
            StatementView { sql: DETACH_SQL@, argument: None, fetches: false },
        ),
        CopyPhaseView::Finished { .. } => None,
    }
}

/// What comes with the table number `index`, or behind the last one.
pub open spec fn at_table<E>(copy: CopyView<E>, index: int) -> CopyView<E> {
    CopyView {
        index,
        phase: if index < copy.source_tables.len() {
            if copy.destination_tables.contains(copy.source_tables[index]) {
                CopyPhaseView::MainColumns
            } else {
                CopyPhaseView::CopyTable
            }
        } else if copy.copied {
            CopyPhaseView::Detach { failure: None }
        } else {
            CopyPhaseView::Detach {
                failure: Some(
                    plain_error("recovered database did not contain any current schema tables"@),
                ),
            }
        },
        ..copy
    }
}

/// The copying after what came of its statement. What cannot come of the
/// statement changes nothing.
pub open spec fn copy_after<E>(copy: CopyView<E>, answer: CopyAnswerView<E>) -> CopyView<E> {
    match (copy.phase, answer) {
        (CopyPhaseView::Attach, CopyAnswerView::Done) => CopyView {
            phase: CopyPhaseView::ForeignKeys,
            ..copy
        },
        (CopyPhaseView::Attach, CopyAnswerView::Failed(error)) => CopyView {
            phase: CopyPhaseView::Finished { failure: Some(outside_error(error)) },
            ..copy
        },
        (CopyPhaseView::ForeignKeys, CopyAnswerView::Done) => CopyView {
            phase: CopyPhaseView::MainTables,
            ..copy
        },
        (CopyPhaseView::ForeignKeys, CopyAnswerView::Failed(error)) => CopyView {
            phase: CopyPhaseView::Finished { failure: Some(outside_error(error)) },
            ..copy
        },
        (CopyPhaseView::MainTables, CopyAnswerView::Rows(rows)) => CopyView {
            destination_tables: name_set(rows),
            phase: CopyPhaseView::RecoveredTables,
            ..copy
        },
        (CopyPhaseView::RecoveredTables, CopyAnswerView::Rows(rows)) => at_table(
            CopyView { source_tables: name_set(rows), ..copy },
            0,
        ),
        (CopyPhaseView::MainColumns, CopyAnswerView::Rows(rows)) => CopyView {
            phase: CopyPhaseView::RecoveredColumns { destination: rows },
            ..copy
        },
        (CopyPhaseView::RecoveredColumns { destination }, CopyAnswerView::Rows(rows)) => {
            let columns = shared_names(destination, rows);
            if columns.len() == 0 {
                at_table(copy, copy.index + 1)
            } else {
                CopyView { phase: CopyPhaseView::CopyRows { columns }, ..copy }
            }
        },
        (CopyPhaseView::CopyRows { .. }, CopyAnswerView::Done) => at_table(
            CopyView { copied: true, ..copy },
            copy.index + 1,
        ),
        (CopyPhaseView::CopyTable, CopyAnswerView::Done) => at_table(
            CopyView { copied: true, ..copy },
            copy.index + 1,
        ),
        (CopyPhaseView::Detach { failure }, CopyAnswerView::Done) => CopyView {
            phase: CopyPhaseView::Finished { failure },
            ..copy
        },
        (CopyPhaseView::Detach { failure }, CopyAnswerView::Failed(error)) => CopyView {
            phase: CopyPhaseView::Finished {
                failure: match failure {
                    Some(failure) => Some(failure),
                    None => Some(outside_error(error)),
                },
            },
            ..copy
        },
        (CopyPhaseView::Finished { .. }, _) => copy,
        (_, CopyAnswerView::Failed(error)) => CopyView {
            phase: CopyPhaseView::Detach { failure: Some(outside_error(error)) },
            ..copy
        },
        (_, _) => copy,
    }
}

impl<E> CopyTables<E> {
    /// The table at hand is one of those that were recovered.
    pub closed spec fn well_formed(self) -> bool {
        has_table_at_hand(self@)
    }

    /// Starts to copy out of the database at `recovered_path`: the text of its
    /// path or, where the path is not UTF-8, how it is displayed.
    pub fn new(recovered_path: Result<&str, &str>) -> (copy: Self)
        ensures
            copy.well_formed(),
            copy@ == copy_start::<E>(path_view(recovered_path)),
    {
        let (text, phase) = match recovered_path {
            Ok(text) => (text, CopyPhase::Attach),
            Err(shown) => {
                let message = "recovered path is not valid UTF-8: ".to_string().concat(shown);
                (shown, CopyPhase::Finished { failure: Some(RecoveryError::plain(message)) })
            },
        };
        let copy = CopyTables {
            recovered_path: text.to_string(),
            destination_tables: Vec::new(),
            source_tables: Vec::new(),
            index: 0,
            copied: false,
            phase,
        };
        assert(texts(copy.destination_tables@) =~= seq![]);
        assert(texts(copy.source_tables@) =~= seq![]);
        copy
    }

    /// The statement to run next; none when the copying is over.
    pub fn statement(&self) -> (statement: Option<Statement>)
        requires
            self.well_formed(),
        ensures
            match statement {
                Some(statement) => statement_of(self@) == Some(statement@),
                None => statement_of(self@) is None,
            },
    {
        proof {
            lemma_texts(self.source_tables@);
        }
        match &self.phase {
            CopyPhase::Attach => Some(
                Statement {
                    sql: ATTACH_SQL.to_string(),
                    argument: Some(self.recovered_path.clone()),
                    fetches: false,
                },
            ),
            CopyPhase::ForeignKeys => Some(
                Statement {
                    sql: FOREIGN_KEYS_OFF_SQL.to_string(),
                    argument: None,
                    fetches: false,
                },
            ),
            CopyPhase::MainTables => Some(
                Statement { sql: user_tables_sql("main"), argument: None, fetches: true },
            ),
            CopyPhase::RecoveredTables => Some(
                Statement { sql: user_tables_sql("recovered"), argument: None, fetches: true },
            ),
            CopyPhase::MainColumns => Some(
                Statement {
                    sql: table_columns_sql("main"),
                    argument: Some(self.source_tables[self.index].clone()),
                    fetches: true,
                },
            ),
            CopyPhase::RecoveredColumns { .. } => Some(
                Statement {
                    sql: table_columns_sql("recovered"),
                    argument: Some(self.source_tables[self.index].clone()),
                    fetches: true,
                },
            ),
            CopyPhase::CopyRows { columns } => Some(
                Statement {
                    sql: copy_rows_sql(self.source_tables[self.index].as_str(), columns),
                    argument: None,
                    fetches: false,
                },
            ),
            CopyPhase::CopyTable => Some(
                Statement {
                    sql: copy_table_sql(self.source_tables[self.index].as_str()),
                    argument: None,
                    fetches: false,
                },
            ),
            CopyPhase::Detach { .. } => Some(
                Statement { sql: DETACH_SQL.to_string(), argument: None, fetches: false },
            ),
            CopyPhase::Finished { .. } => None,
        }
    }

    fn in_phase(self, phase: CopyPhase<E>) -> (copy: Self)
        ensures
            copy@ == (CopyView { phase: copy_phase_view(phase), ..self@ }),
    {
        CopyTables {
            recovered_path: self.recovered_path,
            destination_tables: self.destination_tables,
            source_tables: self.source_tables,
            index: self.index,
            copied: self.copied,
            phase,
        }
    }

    fn go_to_table(self, index: usize) -> (copy: Self)
        ensures
            copy@ == at_table(self@, index as int),
    {
        proof {
            lemma_texts(self.source_tables@);
        }
        let phase = if index < self.source_tables.len() {
            if has_name(&self.destination_tables, &self.source_tables[index]) {
                CopyPhase::MainColumns
            } else {
                CopyPhase::CopyTable
            }
        } else if self.copied {
            CopyPhase::Detach { failure: None }
        } else {
            CopyPhase::Detach {
                failure: Some(
                    RecoveryError::plain(
                        "recovered database did not contain any current schema tables".to_string(),
                    ),
                ),
            }
        };
        CopyTables {
            recovered_path: self.recovered_path,
            destination_tables: self.destination_tables,
            source_tables: self.source_tables,
            index,
            copied: self.copied,
            phase,
        }
    }

    /// Takes what came of the statement.
    pub fn answered(self, answer: CopyAnswer<E>) -> (next: Self)
        requires
            self.well_formed(),
        ensures
            next.well_formed(),
            next@ == copy_after(self@, answer@),
    {
        let ghost before = self@;
        proof {
            lemma_texts(self.source_tables@);
        }
        let CopyTables {
            recovered_path,
            destination_tables,
            source_tables,
            index,
            copied,
            phase,
        } = self;
        let total: usize = source_tables.len();
        assert(has_table_at_hand(before));
        let mut next = CopyTables {
            recovered_path,
            destination_tables,
            source_tables,
            index,
            copied,
            phase: CopyPhase::Attach,
        };
        match (phase, answer) {
            (CopyPhase::Attach, CopyAnswer::Done) => next.in_phase(CopyPhase::ForeignKeys),
            (CopyPhase::Attach, CopyAnswer::Failed(error)) => next.in_phase(
                CopyPhase::Finished { failure: Some(RecoveryError::outside(error)) },
            ),
            (CopyPhase::ForeignKeys, CopyAnswer::Done) => next.in_phase(CopyPhase::MainTables),
            (CopyPhase::ForeignKeys, CopyAnswer::Failed(error)) => next.in_phase(
                CopyPhase::Finished { failure: Some(RecoveryError::outside(error)) },
            ),
            (CopyPhase::MainTables, CopyAnswer::Rows(rows)) => {
                next.destination_tables = collect_names(rows);
                next.in_phase(CopyPhase::RecoveredTables)
            },
            (CopyPhase::RecoveredTables, CopyAnswer::Rows(rows)) => {
                next.source_tables = collect_names(rows);
                next.go_to_table(0)
            },
            (CopyPhase::MainColumns, CopyAnswer::Rows(rows)) => next.in_phase(
                CopyPhase::RecoveredColumns { destination: rows },
            ),
            (CopyPhase::RecoveredColumns { destination }, CopyAnswer::Rows(rows)) => {
                let columns = shared_columns(destination, &rows);
                proof {
                    lemma_texts(columns@);
                }
                if columns.len() == 0 {
                    assert(index < total);
                    next.go_to_table(index + 1)
                } else {
                    next.in_phase(CopyPhase::CopyRows { columns })
                }
            },
            (CopyPhase::CopyRows { .. }, CopyAnswer::Done) => {
                assert(index < total);
                next.copied = true;
                next.go_to_table(index + 1)
            },
            (CopyPhase::CopyTable, CopyAnswer::Done) => {
                assert(index < total);
                next.copied = true;
                next.go_to_table(index + 1)
            },
            (CopyPhase::Detach { failure }, CopyAnswer::Done) => next.in_phase(
                CopyPhase::Finished { failure },
            ),
            (CopyPhase::Detach { failure }, CopyAnswer::Failed(error)) => {
                let failure = match failure {
                    Some(failure) => failure,
                    None => RecoveryError::outside(error),
                };
                next.in_phase(CopyPhase::Finished { failure: Some(failure) })
            },
            (CopyPhase::Finished { failure }, _) => next.in_phase(
                CopyPhase::Finished { failure },
            ),
            (_, CopyAnswer::Failed(error)) => next.in_phase(
                CopyPhase::Detach { failure: Some(RecoveryError::outside(error)) },
            ),
            (phase, _) => next.in_phase(phase),
        }
    }

    /// How the copying went, once it is over.
    pub fn outcome(self) -> (outcome: Option<Result<(), RecoveryError<E>>>)
        ensures
            match outcome {
                Some(Ok(_)) => self@.phase == (CopyPhaseView::Finished::<E> { failure: None }),
                Some(Err(error)) => self@.phase == (CopyPhaseView::Finished {
                    failure: Some(error@),
                }),
                None => !(self@.phase is Finished),
            },
    {
        match self.phase {
            CopyPhase::Finished { failure: None } => Some(Ok(())),
            CopyPhase::Finished { failure: Some(failure) } => Some(Err(failure)),
            _ => None,
        }
    }
}

proof fn lemma_texts(names: Seq<String>)
    ensures
        texts(names).len() == names.len(),
        forall|i: int| 0 <= i < names.len() ==> #[trigger] texts(names)[i] == names[i]@,
{
}

} // verus!
