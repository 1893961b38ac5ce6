//! What holds of every copying of recovered tables, whatever the statements
//! give.
use vstd::prelude::*;

use crate::recovery_copy::{CopyAnswerView, CopyPhaseView, CopyView, copy_after, copy_start};
use crate::recovery_tables::{name_set_is_sorted, shared_names};

verus! {

/// The copying after a number of answers.
pub open spec fn copy_run<E>(
    recovered_path: Result<Seq<char>, Seq<char>>,
    answers: Seq<CopyAnswerView<E>>,
) -> CopyView<E>
    decreases answers.len(),
{
    if answers.len() == 0 {
        copy_start(recovered_path)
    } else {
        copy_after(copy_run(recovered_path, answers.drop_last()), answers.last())
    }
}

/// What became of a recovered table.
pub enum TableFate {
    /// Its rows were copied, as far as these columns go.
    RowsCopied { table: Seq<char>, columns: Seq<Seq<char>> },
    /// It was copied with all that it has.
    TableCopied { table: Seq<char> },
    /// None of its columns is in the current schema.
    NothingShared { table: Seq<char> },
}

/// The table whose fate it is.
pub open spec fn fate_table(fate: TableFate) -> Seq<char> {
    match fate {
        TableFate::RowsCopied { table, .. } => table,
        TableFate::TableCopied { table } => table,
        TableFate::NothingShared { table } => table,
    }
}

/// What became of the recovered tables, by the statements that ran.
pub open spec fn table_fates<E>(
    recovered_path: Result<Seq<char>, Seq<char>>,
    answers: Seq<CopyAnswerView<E>>,
) -> Seq<TableFate>
    decreases answers.len(),
{
    if answers.len() == 0 {
        seq![]
    } else {
        let before = table_fates(recovered_path, answers.drop_last());
        let copy = copy_run(recovered_path, answers.drop_last());
        let table = copy.source_tables[copy.index];
        match (copy.phase, answers.last()) {
            (CopyPhaseView::CopyRows { columns }, CopyAnswerView::Done) => before.push(
                TableFate::RowsCopied { table, columns },
            ),
            (CopyPhaseView::CopyTable, CopyAnswerView::Done) => before.push(
                TableFate::TableCopied { table },
            ),
            (CopyPhaseView::RecoveredColumns { destination }, CopyAnswerView::Rows(rows)) => {
                if shared_names(destination, rows).len() == 0 {
                    before.push(TableFate::NothingShared { table })
                } else {
                    before
                }
            },
            _ => before,
        }
    }
}

/// The tables that something became of.
pub open spec fn fated_tables(fates: Seq<TableFate>) -> Seq<Seq<char>> {
    fates.map_values(|fate: TableFate| fate_table(fate))
}

/// Some table was copied.
pub open spec fn some_copied(fates: Seq<TableFate>) -> bool {
    exists|i: int| 0 <= i < fates.len() && !(#[trigger] fates[i] is NothingShared)
}

spec fn fates_match<E>(copy: CopyView<E>, fates: Seq<TableFate>) -> bool {
    &&& 0 <= copy.index <= copy.source_tables.len()
    &&& fated_tables(fates) == copy.source_tables.take(copy.index)
    &&& copy.copied == some_copied(fates)
    &&& copy.source_tables.no_duplicates()
    &&& match copy.phase {
        CopyPhaseView::Attach => copy.index == 0 && !copy.copied,
        CopyPhaseView::ForeignKeys => copy.index == 0 && !copy.copied,
        CopyPhaseView::MainTables => copy.index == 0 && !copy.copied,
        CopyPhaseView::RecoveredTables => copy.index == 0 && !copy.copied,
        CopyPhaseView::Detach { failure: None } => {
            copy.index == copy.source_tables.len() && copy.copied
        },
        CopyPhaseView::Finished { failure: None } => {
            copy.index == copy.source_tables.len() && copy.copied
        },
        CopyPhaseView::Detach { .. } => true,
        CopyPhaseView::Finished { .. } => true,
        _ => copy.index < copy.source_tables.len(),
    }
}

proof fn lemma_fates<E>(
    recovered_path: Result<Seq<char>, Seq<char>>,
    answers: Seq<CopyAnswerView<E>>,
)
    ensures
        fates_match(copy_run(recovered_path, answers), table_fates(recovered_path, answers)),
    decreases answers.len(),
{
    let copy = copy_run(recovered_path, answers);
    let fates = table_fates(recovered_path, answers);
    if answers.len() == 0 {
        assert(fated_tables(fates) =~= copy.source_tables.take(0));
    } else {
        let last = answers.last();
        let before = copy_run(recovered_path, answers.drop_last());
        let earlier = table_fates(recovered_path, answers.drop_last());
        lemma_fates(recovered_path, answers.drop_last());
        assert(fated_tables(earlier).len() == earlier.len());
        if fates.len() > earlier.len() {
            let fate = fates.last();
            assert(fates =~= earlier.push(fate));
            assert(fated_tables(fates) =~= fated_tables(earlier).push(fate_table(fate)));
            assert(before.source_tables.take(before.index + 1) =~= before.source_tables.take(
                before.index,
            ).push(before.source_tables[before.index]));
            if !(fate is NothingShared) {
                assert(!(fates[earlier.len() as int] is NothingShared));
            }
            if some_copied(earlier) {
                let i = choose|i: int|
                    0 <= i < earlier.len() && !(#[trigger] earlier[i] is NothingShared);
                assert(fates[i] == earlier[i]);
            }
            if some_copied(fates) && fate is NothingShared {
                let i = choose|i: int|
                    0 <= i < fates.len() && !(#[trigger] fates[i] is NothingShared);
                assert(earlier[i] == fates[i]);
            }
        } else {
            assert(fates == earlier);
        }
        if let CopyAnswerView::Rows(rows) = last {
            name_set_is_sorted(rows);
            if before.phase is RecoveredTables {
                assert(fated_tables(fates) =~= copy.source_tables.take(0));
            }
        }
    }
}

/// A copying that succeeds has dealt with every recovered table, each once and
/// in order, and copied at least one of them.
pub proof fn every_table_is_dealt_with<E>(
    recovered_path: Result<Seq<char>, Seq<char>>,
    answers: Seq<CopyAnswerView<E>>,
)
    requires
        copy_run(recovered_path, answers).phase == (CopyPhaseView::Finished::<E> {
            failure: None,
        }),
    ensures
        fated_tables(table_fates(recovered_path, answers)) == copy_run(
            recovered_path,
            answers,
        ).source_tables,
        copy_run(recovered_path, answers).source_tables.no_duplicates(),
        some_copied(table_fates(recovered_path, answers)),
{
    lemma_fates(recovered_path, answers);
    let copy = copy_run(recovered_path, answers);
    assert(copy.source_tables.take(copy.source_tables.len() as int) =~= copy.source_tables);
}

/// The recovered database is attached after a number of answers.
pub open spec fn is_attached<E>(
    recovered_path: Result<Seq<char>, Seq<char>>,
    answers: Seq<CopyAnswerView<E>>,
) -> bool
    decreases answers.len(),
{
    if answers.len() == 0 {
        false
    } else {
        match (copy_run(recovered_path, answers.drop_last()).phase, answers.last()) {
            (CopyPhaseView::Attach, CopyAnswerView::Done) => true,
            (CopyPhaseView::Detach { .. }, CopyAnswerView::Done) => false,
            _ => is_attached(recovered_path, answers.drop_last()),
        }
    }
}

/// Tables are read and copied only while the recovered database is attached,
/// and a copying that succeeds has detached it.
pub proof fn copying_happens_while_attached<E>(
    recovered_path: Result<Seq<char>, Seq<char>>,
    answers: Seq<CopyAnswerView<E>>,
)
    ensures
        match copy_run(recovered_path, answers).phase {
            CopyPhaseView::Attach => !is_attached(recovered_path, answers),
            CopyPhaseView::Finished { failure } => failure is None ==> !is_attached(
                recovered_path,
                answers,
            ),
            _ => is_attached(recovered_path, answers),
        },
    decreases answers.len(),
{
    if answers.len() > 0 {
        copying_happens_while_attached(recovered_path, answers.drop_last());
    }
}

} // verus!
