//! What the statements of a copying say, read back from their SQL, and what
//! comes of them.
use vstd::prelude::*;

use crate::recovery_copy::{
    CopyAnswerView, CopyPhaseView, CopyView, StatementView, at_table, copy_after, copy_start,
    has_table_at_hand, statement_of,
};
use crate::recovery_copy_laws::{TableFate, copy_run, fate_table, table_fates};
use crate::recovery_error::{CauseView, RecoveryErrorView};
use crate::recovery_tables::{
    all_quoted, ascending, copy_rows_text, copy_table_text, doubled_quotes, name_set_is_sorted,
    quoted, quoting_reads_back, read_quoted, shared_columns_are_on_both_sides, shared_names,
    table_columns_text, user_tables_text,
};
use crate::text::join;

verus! {

// ---------------------------------------------------------------------------
// Reading SQL
// ---------------------------------------------------------------------------

/// `text` starts with `front`.
pub open spec fn starts_with(text: Seq<char>, front: Seq<char>) -> bool {
    text.len() >= front.len() && text.take(front.len() as int) == front
}

/// The quoted identifier that follows `front` at the start of `sql`, and what
/// comes behind it.
pub open spec fn name_after(sql: Seq<char>, front: Seq<char>) -> Option<(Seq<char>, Seq<char>)> {
    if starts_with(sql, front.push('"')) {
        read_quoted(sql.skip(front.len() as int + 1))
    } else {
        None
    }
}

/// The quoted identifiers at the start of `sql`, with commas between them, and
/// what comes behind them.
pub open spec fn names_at(sql: Seq<char>) -> Option<(Seq<Seq<char>>, Seq<char>)>
    decreases sql.len(),
{
    match name_after(sql, seq![]) {
        None => None,
        Some((name, rest)) => if starts_with(rest, seq![',', ' ', '"']) && rest.len() < sql.len() {
            match names_at(rest.skip(2)) {
                None => None,
                Some((more, behind)) => Some((seq![name] + more, behind)),
            }
        } else {
            Some((seq![name], rest))
        },
    }
}

/// The table that a statement creates, and the one that it takes all from.
pub open spec fn created_table(sql: Seq<char>) -> Option<(Seq<char>, Seq<char>)> {
    match name_after(sql, "CREATE TABLE main."@) {
        None => None,
        Some((table, rest)) => match name_after(rest, " AS SELECT * FROM recovered."@) {
            None => None,
            Some((source, behind)) => if behind.len() == 0 {
                Some((table, source))
            } else {
                None
            },
        },
    }
}

/// What a statement that moves rows says.
pub struct MovedRows {
    /// The table that rows are put into.
    pub table: Seq<char>,
    /// The columns that they are put into.
    pub columns: Seq<Seq<char>>,
    /// The columns that they are taken from.
    pub source_columns: Seq<Seq<char>>,
    /// The table that they are taken from.
    pub source: Seq<char>,
}

/// What a statement that moves rows says, read back.
pub open spec fn moved_rows(sql: Seq<char>) -> Option<MovedRows> {
    match name_after(sql, "INSERT OR REPLACE INTO main."@) {
        None => None,
        Some((table, rest)) => if !starts_with(rest, " ("@) {
            None
        } else {
            match names_at(rest.skip(2)) {
                None => None,
                Some((columns, rest)) => if !starts_with(rest, ") SELECT "@) {
                    None
                } else {
                    match names_at(rest.skip(9)) {
                        None => None,
                        Some((source_columns, rest)) => match name_after(
                            rest,
                            " FROM recovered."@,
                        ) {
                            None => None,
                            Some((source, behind)) => if behind.len() == 0 {
                                Some(MovedRows { table, columns, source_columns, source })
                            } else {
                                None
                            },
                        },
                    }
                },
            }
        },
    }
}

proof fn lemma_name_after(front: Seq<char>, name: Seq<char>, rest: Seq<char>)
    requires
        rest.len() == 0 || rest[0] != '"',
    ensures
        name_after(front + quoted(name) + rest, front) == Some((name, rest)),
{
    let sql = front + quoted(name) + rest;
    let tail = quoted(name) + rest;
    quoting_reads_back(name, rest);
    assert(quoted(name)[0] == '"');
    assert(sql.take(front.len() as int + 1) =~= front.push('"'));
    assert(sql.skip(front.len() as int + 1) =~= tail.skip(1));
}

proof fn lemma_names_at(names: Seq<Seq<char>>, rest: Seq<char>)
    requires
        names.len() > 0,
        rest.len() == 0 || (rest[0] != '"' && rest[0] != ','),
    ensures
        names_at(join(all_quoted(names), seq![',', ' ']) + rest) == Some((names, rest)),
    decreases names.len(),
{
    let separator = seq![',', ' '];
    let parts = all_quoted(names);
    let sql = join(parts, separator) + rest;
    let name = names[0];
    if names.len() == 1 {
        assert(join(parts, separator) == quoted(name));
        assert(sql =~= seq![] + quoted(name) + rest);
        lemma_name_after(seq![], name, rest);
        assert(seq![name] =~= names);
        if starts_with(rest, seq![',', ' ', '"']) {
            assert(rest.take(3)[0] == rest[0]);
        }
    } else {
        let more = names.drop_first();
        assert(parts.drop_first() =~= all_quoted(more));
        lemma_names_at(more, rest);
        let list = join(all_quoted(more), separator) + rest;
        let behind = separator + list;
        assert(sql =~= seq![] + quoted(name) + behind);
        lemma_name_after(seq![], name, behind);
        assert(behind.skip(2) =~= list);
        lemma_list_starts_quoted(more, rest);
        assert(behind.take(3) =~= seq![',', ' ', '"']);
        assert(behind.len() < sql.len());
        assert(seq![name] + more =~= names);
    }
}

proof fn lemma_list_starts_quoted(names: Seq<Seq<char>>, rest: Seq<char>)
    requires
        names.len() > 0,
    ensures
        (join(all_quoted(names), seq![',', ' ']) + rest).len() > 0,
        (join(all_quoted(names), seq![',', ' ']) + rest)[0] == '"',
{
    let parts = all_quoted(names);
    assert(parts[0] == quoted(names[0]));
    assert(quoted(names[0])[0] == '"');
    assert(join(parts, seq![',', ' '])[0] == '"');
}

/// A statement that copies a table with all that it has creates it under its
/// own name out of the recovered table of that name.
pub proof fn copied_tables_keep_their_names(table: Seq<char>)
    ensures
        created_table(copy_table_text(table)) == Some((table, table)),
{
    let front = "CREATE TABLE main."@;
    let middle = " AS SELECT * FROM recovered."@;
    reveal_strlit(" AS SELECT * FROM recovered.");
    let rest = middle + quoted(table);
    assert(copy_table_text(table) =~= front + quoted(table) + rest);
    assert(rest =~= middle + quoted(table) + seq![]);
    assert(rest[0] == ' ');
    lemma_name_after(front, table, rest);
    lemma_name_after(middle, table, seq![]);
}

/// A statement that copies rows moves them from a recovered table into the one
/// of that name, each column into the one of its name.
pub proof fn copied_rows_keep_their_columns(table: Seq<char>, columns: Seq<Seq<char>>)
    requires
        columns.len() > 0,
    ensures
        moved_rows(copy_rows_text(table, columns)) == Some(
            MovedRows { table, columns, source_columns: columns, source: table },
        ),
{
    reveal_strlit(", ");
    reveal_strlit(" (");
    reveal_strlit(") SELECT ");
    reveal_strlit(" FROM recovered.");
    assert(", "@ =~= seq![',', ' ']);
    let front = "INSERT OR REPLACE INTO main."@;
    let list = join(all_quoted(columns), ", "@);
    let from = " FROM recovered."@;
    let r3 = from + quoted(table);
    let r2 = ") SELECT "@ + list + r3;
    let r1 = " ("@ + list + r2;
    let sql = copy_rows_text(table, columns);
    assert(sql =~= front + quoted(table) + r1);
    assert(r1[0] == ' ' && r2[0] == ')' && r3[0] == ' ');
    lemma_name_after(front, table, r1);
    assert(r1.take(2) =~= " ("@);
    assert(r1.skip(2) =~= list + r2);
    lemma_names_at(columns, r2);
    assert(r2.take(9) =~= ") SELECT "@);
    assert(r2.skip(9) =~= list + r3);
    lemma_names_at(columns, r3);
    assert(r3 =~= from + quoted(table) + seq![]);
    lemma_name_after(from, table, seq![]);
}

// ---------------------------------------------------------------------------
// Statements
// ---------------------------------------------------------------------------

/// Every statement about a table is about the table at hand: it is created, or
/// its rows are moved, out of the recovered table of that name, and its columns
/// are asked for on both sides.
pub proof fn statements_are_about_the_table_at_hand<E>(copy: CopyView<E>)
    requires
        has_table_at_hand(copy),
    ensures
        copy.phase is CopyTable ==> {
            let table = copy.source_tables[copy.index];
            &&& statement_of(copy) matches Some(statement) && created_table(statement.sql) == Some(
                (table, table),
            ) && statement.argument is None && !statement.fetches
        },
        copy.phase matches CopyPhaseView::CopyRows { columns } ==> columns.len() > 0 ==> {
            let table = copy.source_tables[copy.index];
            &&& statement_of(copy) matches Some(statement) && moved_rows(statement.sql) == Some(
                MovedRows { table, columns, source_columns: columns, source: table },
            ) && statement.argument is None && !statement.fetches
        },
        copy.phase is MainColumns || copy.phase is RecoveredColumns ==> {
            let table = copy.source_tables[copy.index];
            &&& statement_of(copy) matches Some(statement) && statement.argument == Some(table)
                && statement.fetches
        },
        copy.phase is MainColumns ==> statement_of(copy)->0.sql
            == "SELECT name FROM \"main\".pragma_table_xinfo(?) WHERE hidden = 0 ORDER BY cid"@,
        copy.phase is RecoveredColumns ==> statement_of(copy)->0.sql
            == "SELECT name FROM \"recovered\".pragma_table_xinfo(?) WHERE hidden = 0 ORDER BY cid"@,
{
    let table = copy.source_tables[copy.index];
    copied_tables_keep_their_names(table);
    if let CopyPhaseView::CopyRows { columns } = copy.phase {
        if columns.len() > 0 {
            copied_rows_keep_their_columns(table, columns);
        }
    }
    lemma_plain_names_quoted();
    reveal_strlit("main");
    reveal_strlit("recovered");
    reveal_strlit("SELECT name FROM ");
    reveal_strlit(".pragma_table_xinfo(?) WHERE hidden = 0 ORDER BY cid");
    reveal_strlit("SELECT name FROM \"main\".pragma_table_xinfo(?) WHERE hidden = 0 ORDER BY cid");
    reveal_strlit(
        "SELECT name FROM \"recovered\".pragma_table_xinfo(?) WHERE hidden = 0 ORDER BY cid",
    );
    assert(table_columns_text("main"@)
        =~= "SELECT name FROM \"main\".pragma_table_xinfo(?) WHERE hidden = 0 ORDER BY cid"@);
    assert(table_columns_text("recovered"@)
        =~= "SELECT name FROM \"recovered\".pragma_table_xinfo(?) WHERE hidden = 0 ORDER BY cid"@);
}

proof fn lemma_plain_quotes(name: Seq<char>)
    requires
        !name.contains('"'),
    ensures
        doubled_quotes(name) == name,
    decreases name.len(),
{
    if name.len() > 0 {
        let rest = name.drop_last();
        assert(name.contains(name[name.len() - 1]));
        assert forall|i: int| 0 <= i < rest.len() implies rest[i] != '"' by {
            assert(name.contains(name[i]));
        }
        lemma_plain_quotes(rest);
        assert(rest.push(name.last()) =~= name);
    }
}

proof fn lemma_plain_names_quoted()
    ensures
        quoted("main"@) == seq!['"'] + "main"@ + seq!['"'],
        quoted("recovered"@) == seq!['"'] + "recovered"@ + seq!['"'],
{
    reveal_strlit("main");
    reveal_strlit("recovered");
    lemma_plain_quotes("main"@);
    lemma_plain_quotes("recovered"@);
}

/// The statements that are about no table: the recovered database is attached
/// by its path and detached again, and the tables of either side are asked for.
pub proof fn statements_frame_the_copying<E>(copy: CopyView<E>)
    ensures
        copy.phase is Attach ==> statement_of(copy) == Some(
            StatementView {
                sql: "ATTACH DATABASE ? AS recovered"@,
                argument: Some(copy.recovered_path),
                fetches: false,
            },
        ),
        copy.phase is ForeignKeys ==> statement_of(copy) == Some(
            StatementView { sql: "PRAGMA foreign_keys = OFF"@, argument: None, fetches: false },
        ),
        copy.phase is MainTables ==> statement_of(copy) == Some(
            StatementView {
                sql: "\nSELECT name\nFROM \"main\".sqlite_schema\nWHERE type = 'table'\n  AND name NOT LIKE 'sqlite_%'\n  AND name != '_sqlx_migrations'\nORDER BY name\n        "@,
                argument: None,
                fetches: true,
            },
        ),
        copy.phase is RecoveredTables ==> statement_of(copy) == Some(
            StatementView {
                sql: "\nSELECT name\nFROM \"recovered\".sqlite_schema\nWHERE type = 'table'\n  AND name NOT LIKE 'sqlite_%'\n  AND name != '_sqlx_migrations'\nORDER BY name\n        "@,
                argument: None,
                fetches: true,
            },
        ),
        copy.phase is Detach ==> statement_of(copy) == Some(
            StatementView { sql: "DETACH DATABASE recovered"@, argument: None, fetches: false },
        ),
        copy.phase is Finished <==> statement_of(copy) is None,
{
    lemma_plain_names_quoted();
    reveal_strlit("main");
    reveal_strlit("recovered");
    reveal_strlit("\nSELECT name\nFROM ");
    reveal_strlit(
        ".sqlite_schema\nWHERE type = 'table'\n  AND name NOT LIKE 'sqlite_%'\n  AND name != '_sqlx_migrations'\nORDER BY name\n        ",
    );
    reveal_strlit(
        "\nSELECT name\nFROM \"main\".sqlite_schema\nWHERE type = 'table'\n  AND name NOT LIKE 'sqlite_%'\n  AND name != '_sqlx_migrations'\nORDER BY name\n        ",
    );
    reveal_strlit(
        "\nSELECT name\nFROM \"recovered\".sqlite_schema\nWHERE type = 'table'\n  AND name NOT LIKE 'sqlite_%'\n  AND name != '_sqlx_migrations'\nORDER BY name\n        ",
    );
    assert(user_tables_text("main"@)
        =~= "\nSELECT name\nFROM \"main\".sqlite_schema\nWHERE type = 'table'\n  AND name NOT LIKE 'sqlite_%'\n  AND name != '_sqlx_migrations'\nORDER BY name\n        "@);
    assert(user_tables_text("recovered"@)
        =~= "\nSELECT name\nFROM \"recovered\".sqlite_schema\nWHERE type = 'table'\n  AND name NOT LIKE 'sqlite_%'\n  AND name != '_sqlx_migrations'\nORDER BY name\n        "@);
}

// ---------------------------------------------------------------------------
// Whole copyings
// ---------------------------------------------------------------------------

/// The table that a statement writes, if it writes one.
pub open spec fn written_table(statement: Option<StatementView>) -> Option<Seq<char>> {
    match statement {
        None => None,
        Some(statement) => match created_table(statement.sql) {
            Some((table, _)) => Some(table),
            None => match moved_rows(statement.sql) {
                Some(moved) => Some(moved.table),
                None => None,
            },
        },
    }
}

/// The tables that were written, by the statements that ran.
pub open spec fn written_tables<E>(
    recovered_path: Result<Seq<char>, Seq<char>>,
    answers: Seq<CopyAnswerView<E>>,
) -> Seq<Seq<char>>
    decreases answers.len(),
{
    if answers.len() == 0 {
        seq![]
    } else {
        let before = written_tables(recovered_path, answers.drop_last());
        let statement = statement_of(copy_run(recovered_path, answers.drop_last()));
        match (written_table(statement), answers.last()) {
            (Some(table), CopyAnswerView::Done) => before.push(table),
            _ => before,
        }
    }
}

/// The tables that were copied, in order.
pub open spec fn copied_tables(fates: Seq<TableFate>) -> Seq<Seq<char>>
    decreases fates.len(),
{
    if fates.len() == 0 {
        seq![]
    } else {
        let before = copied_tables(fates.drop_last());
        match fates.last() {
            TableFate::NothingShared { .. } => before,
            TableFate::RowsCopied { table, .. } => before.push(table),
            TableFate::TableCopied { table } => before.push(table),
        }
    }
}

/// Which phase writes.
proof fn lemma_written<E>(copy: CopyView<E>)
    requires
        has_table_at_hand(copy),
        copy.phase matches CopyPhaseView::CopyRows { columns } ==> columns.len() > 0,
    ensures
        written_table(statement_of(copy)) == if copy.phase is CopyRows || copy.phase is CopyTable {
            Some(copy.source_tables[copy.index])
        } else {
            None
        },
{
    statements_are_about_the_table_at_hand(copy);
    statements_frame_the_copying(copy);
    reveal_strlit("CREATE TABLE main.");
    reveal_strlit("INSERT OR REPLACE INTO main.");
    reveal_strlit("ATTACH DATABASE ? AS recovered");
    reveal_strlit("PRAGMA foreign_keys = OFF");
    reveal_strlit("DETACH DATABASE recovered");
    reveal_strlit("\nSELECT name\nFROM ");
    reveal_strlit("SELECT name FROM ");
    if let Some(statement) = statement_of(copy) {
        let sql = statement.sql;
        let create = "CREATE TABLE main."@.push('"');
        let insert = "INSERT OR REPLACE INTO main."@.push('"');
        if starts_with(sql, create) {
            assert(sql.take(create.len() as int)[0] == sql[0]);
            assert(sql[0] == 'C');
        }
        if starts_with(sql, insert) {
            assert(sql.take(insert.len() as int)[0] == sql[0]);
            assert(sql[0] == 'I');
        }
        if copy.phase is CopyRows {
            assert(sql[0] == 'I');
        } else if !(copy.phase is CopyTable) {
            assert(sql[0] == 'A' || sql[0] == 'P' || sql[0] == 'D' || sql[0] == '\n' || sql[0]
                == 'S');
        }
    }
}

/// The phases of a run have a table at hand where they need one.
proof fn lemma_run_has_table<E>(
    recovered_path: Result<Seq<char>, Seq<char>>,
    answers: Seq<CopyAnswerView<E>>,
)
    ensures
        ({
            let copy = copy_run(recovered_path, answers);
            &&& copy.index >= 0
            &&& has_table_at_hand(copy)
            &&& copy.phase matches CopyPhaseView::CopyRows { columns } ==> columns.len() > 0
            &&& copy.phase is MainColumns || copy.phase is RecoveredColumns || copy.phase
                is CopyRows ==> copy.destination_tables.contains(copy.source_tables[copy.index])
            &&& copy.phase is CopyTable ==> !copy.destination_tables.contains(
                copy.source_tables[copy.index],
            )
        }),
    decreases answers.len(),
{
    if answers.len() > 0 {
        lemma_run_has_table(recovered_path, answers.drop_last());
    }
}

/// The tables that the statements of a copying write are the recovered tables
/// that were copied, each under its own name and in order.
pub proof fn written_tables_are_the_copied_ones<E>(
    recovered_path: Result<Seq<char>, Seq<char>>,
    answers: Seq<CopyAnswerView<E>>,
)
    ensures
        written_tables(recovered_path, answers) == copied_tables(
            table_fates(recovered_path, answers),
        ),
    decreases answers.len(),
{
    if answers.len() > 0 {
        let before = answers.drop_last();
        written_tables_are_the_copied_ones(recovered_path, before);
        lemma_run_has_table(recovered_path, before);
        let copy = copy_run(recovered_path, before);
        lemma_written(copy);
        let earlier = table_fates(recovered_path, before);
        let fates = table_fates(recovered_path, answers);
        if fates.len() > earlier.len() {
            assert(fates.drop_last() =~= earlier);
        }
    }
}

/// A table of the current schema keeps that schema: only its rows are copied,
/// or nothing where no column is shared. A table that is not in the current
/// schema is copied with all that it has.
pub proof fn current_tables_keep_their_schema<E>(
    recovered_path: Result<Seq<char>, Seq<char>>,
    answers: Seq<CopyAnswerView<E>>,
    i: int,
)
    requires
        0 <= i < table_fates(recovered_path, answers).len(),
    ensures
        ({
            let fate = table_fates(recovered_path, answers)[i];
            let copy = copy_run(recovered_path, answers);
            &&& fate is TableCopied <==> !copy.destination_tables.contains(fate_table(fate))
            &&& fate matches TableFate::RowsCopied { columns, .. } ==> columns.len() > 0
        }),
    decreases answers.len(),
{
    if answers.len() > 0 {
        let before = answers.drop_last();
        let earlier = table_fates(recovered_path, before);
        lemma_run_has_table(recovered_path, before);
        lemma_no_fates_yet(recovered_path, before);
        if i < earlier.len() {
            current_tables_keep_their_schema(recovered_path, before, i);
        }
    }
}

proof fn lemma_no_fates_yet<E>(
    recovered_path: Result<Seq<char>, Seq<char>>,
    answers: Seq<CopyAnswerView<E>>,
)
    ensures
        ({
            let phase = copy_run(recovered_path, answers).phase;
            phase is Attach || phase is ForeignKeys || phase is MainTables || phase
                is RecoveredTables ==> table_fates(recovered_path, answers).len() == 0
        }),
    decreases answers.len(),
{
    if answers.len() > 0 {
        lemma_no_fates_yet(recovered_path, answers.drop_last());
        lemma_run_has_table(recovered_path, answers.drop_last());
    }
}

/// The tables of either side are those that were listed, each once and in
/// ascending order.
pub proof fn tables_are_those_that_were_listed<E>(
    copy: CopyView<E>,
    rows: Seq<Seq<char>>,
    name: Seq<char>,
)
    ensures
        copy.phase is MainTables ==> {
            let after = copy_after(copy, CopyAnswerView::Rows(rows));
            &&& after.phase is RecoveredTables
            &&& after.destination_tables.contains(name) <==> rows.contains(name)
        },
        copy.phase is RecoveredTables ==> {
            let after = copy_after(copy, CopyAnswerView::Rows(rows));
            &&& after.index == 0
            &&& after.source_tables.contains(name) <==> rows.contains(name)
            &&& after.source_tables.no_duplicates()
            &&& ascending(after.source_tables)
            &&& after.destination_tables == copy.destination_tables
        },
{
    name_set_is_sorted(rows);
}

/// The columns that are copied are those that the table has on both sides, in
/// the order of the current schema; where there is none, the table is passed
/// over.
pub proof fn shared_columns_are_copied<E>(
    copy: CopyView<E>,
    current: Seq<Seq<char>>,
    recovered: Seq<Seq<char>>,
)
    requires
        copy.phase is MainColumns,
    ensures
        ({
            let asked = copy_after(copy, CopyAnswerView::Rows(current));
            let after = copy_after(asked, CopyAnswerView::Rows(recovered));
            &&& asked.phase is RecoveredColumns
            &&& asked.index == copy.index
            &&& (exists|name: Seq<char>| #[trigger]
                current.contains(name) && recovered.contains(name)) <==> after.phase is CopyRows
            &&& after.phase matches CopyPhaseView::CopyRows { columns } ==> {
                &&& after.index == copy.index
                &&& forall|name: Seq<char>| #[trigger]
                    columns.contains(name) <==> current.contains(name) && recovered.contains(name)
                &&& in_order_of(columns, current)
            }
            &&& !(after.phase is CopyRows) ==> after.index == copy.index + 1 && after.copied
                == copy.copied
        }),
{
    let columns = shared_names(current, recovered);
    shared_columns_are_on_both_sides(current, recovered);
    shared_columns_keep_their_order(current, recovered);
    if columns.len() > 0 {
        assert(columns.contains(columns[0]));
        assert(current.contains(columns[0]) && recovered.contains(columns[0]));
    }
    if exists|name: Seq<char>| #[trigger] current.contains(name) && recovered.contains(name) {
        let name = choose|name: Seq<char>| #[trigger]
            current.contains(name) && recovered.contains(name);
        assert(columns.contains(name));
    }
}

/// `part` is what is left of `whole` when some of its members are left out:
/// `at` gives the places of those that are kept.
pub open spec fn kept_places(part: Seq<Seq<char>>, whole: Seq<Seq<char>>, at: Seq<int>) -> bool {
    &&& at.len() == part.len()
    &&& forall|i: int|
        0 <= i < at.len() ==> 0 <= #[trigger] at[i] < whole.len() && whole[at[i]] == part[i]
    &&& forall|i: int, j: int|
        #![trigger at[i], at[j]]
        0 <= i < j < at.len() ==> at[i] < at[j]
}

/// `part` is what is left of `whole` when some of its members are left out.
pub open spec fn in_order_of(part: Seq<Seq<char>>, whole: Seq<Seq<char>>) -> bool {
    exists|at: Seq<int>| kept_places(part, whole, at)
}

/// Shared columns stand in the order of the current schema.
pub proof fn shared_columns_keep_their_order(
    destination: Seq<Seq<char>>,
    source: Seq<Seq<char>>,
)
    ensures
        in_order_of(shared_names(destination, source), destination),
    decreases destination.len(),
{
    let all = shared_names(destination, source);
    if destination.len() == 0 {
        assert(kept_places(all, destination, seq![]));
    } else {
        let rest = destination.drop_last();
        shared_columns_keep_their_order(rest, source);
        let before = shared_names(rest, source);
        let at = choose|at: Seq<int>| kept_places(before, rest, at);
        assert forall|i: int| 0 <= i < at.len() implies 0 <= #[trigger] at[i] < destination.len()
            && destination[at[i]] == before[i] by {
            assert(rest[at[i]] == before[i]);
        }
        if source.contains(destination.last()) {
            assert(kept_places(all, destination, at.push(destination.len() - 1)));
        } else {
            assert(kept_places(all, destination, at));
        }
    }
}

/// The error that an operation outside gave, and nothing else.
pub open spec fn is_error_of<E>(failure: Option<RecoveryErrorView<E>>, error: E) -> bool {
    failure matches Some(failure) && failure.cause == CauseView::Outside(error)
        && failure.contexts.len() == 0
}

/// Whatever statement fails, the copying ends with its error. Once the tables
/// are being copied, the recovered database is detached first, and how that
/// goes changes nothing.
pub proof fn failed_statements_end_the_copying<E>(
    copy: CopyView<E>,
    error: E,
    then: CopyAnswerView<E>,
)
    requires
        !(copy.phase is Finished),
        !(copy.phase is Detach),
        !(then is Rows),
    ensures
        ({
            let failed = copy_after(copy, CopyAnswerView::Failed(error));
            &&& copy.phase is Attach || copy.phase is ForeignKeys ==> (failed.phase matches
                CopyPhaseView::Finished { failure } && is_error_of(failure, error))
            &&& !(copy.phase is Attach || copy.phase is ForeignKeys) ==> {
                &&& failed.phase is Detach
                &&& copy_after(failed, then).phase matches CopyPhaseView::Finished { failure }
                    && is_error_of(failure, error)
            }
        }),
{
}

/// A copying that has dealt with every table detaches the recovered database.
/// It succeeds exactly if some table was copied and detaching works; else the
/// error is that nothing was copied, or that of detaching.
pub proof fn copying_succeeds_if_something_was_copied<E>(
    copy: CopyView<E>,
    index: int,
    error: E,
)
    requires
        index >= copy.source_tables.len(),
    ensures
        ({
            let last = at_table(copy, index);
            let detached = copy_after(last, CopyAnswerView::Done);
            let stuck = copy_after(last, CopyAnswerView::Failed(error));
            &&& last.phase is Detach
            &&& copy.copied ==> detached.phase == (CopyPhaseView::Finished::<E> { failure: None })
            &&& copy.copied ==> (stuck.phase matches CopyPhaseView::Finished { failure }
                && is_error_of(failure, error))
            &&& !copy.copied ==> (detached.phase matches CopyPhaseView::Finished { failure }
                && failure matches Some(failure) && failure.cause == CauseView::<E>::Message(
                "recovered database did not contain any current schema tables"@,
            ) && failure.contexts.len() == 0)
            &&& !copy.copied ==> stuck.phase == detached.phase
        }),
{
}

/// A path that is no text cannot be attached: the copying is over at once, with
/// an error that shows the path. Any other path is attached first.
pub proof fn paths_that_are_no_texts_are_refused<E>(recovered_path: Result<Seq<char>, Seq<char>>)
    ensures
        recovered_path matches Ok(text) ==> {
            &&& copy_start::<E>(recovered_path).phase is Attach
            &&& copy_start::<E>(recovered_path).recovered_path == text
        },
        recovered_path matches Err(shown) ==> (copy_start::<E>(recovered_path).phase matches
            CopyPhaseView::Finished { failure } && failure matches Some(failure) && failure.cause
            == CauseView::<E>::Message("recovered path is not valid UTF-8: "@ + shown)
            && failure.contexts.len() == 0),
{
}

/// A copying goes from attaching to the tables of both sides, step by step.
pub proof fn copying_goes_step_by_step<E>(copy: CopyView<E>, index: int)
    ensures
        copy.phase is Attach ==> copy_after(copy, CopyAnswerView::Done).phase is ForeignKeys,
        copy.phase is ForeignKeys ==> copy_after(copy, CopyAnswerView::Done).phase is MainTables,
        copy.phase is CopyRows || copy.phase is CopyTable ==> {
            let after = copy_after(copy, CopyAnswerView::Done);
            &&& after.index == copy.index + 1
            &&& after.copied
            &&& after.source_tables == copy.source_tables
            &&& after.destination_tables == copy.destination_tables
        },
        0 <= index < copy.source_tables.len() ==> {
            let next = at_table(copy, index);
            &&& next.index == index
            &&& next.phase is MainColumns <==> copy.destination_tables.contains(
                copy.source_tables[index],
            )
            &&& next.phase is CopyTable <==> !copy.destination_tables.contains(
                copy.source_tables[index],
            )
        },
{
}

/// A statement that fetches is answered with rows, and no other is; an answer
/// that does not fit changes nothing, nor does any once the copying has ended.
/// The database that is copied from stays the same.
pub proof fn answers_fit_the_statement<E>(copy: CopyView<E>, answer: CopyAnswerView<E>)
    ensures
        copy_after(copy, answer).recovered_path == copy.recovered_path,
        statement_of(copy) is None ==> copy_after(copy, answer) == copy,
        statement_of(copy) matches Some(statement) ==> {
            &&& statement.fetches && answer is Done ==> copy_after(copy, answer) == copy
            &&& !statement.fetches && answer is Rows ==> copy_after(copy, answer) == copy
        },
{
}

} // verus!
