//! Moving the tables of a recovered database into a fresh one: the SQL that it
//! takes, which columns go along, and what a recovered database has to show.
use vstd::prelude::*;

use crate::order::{
    Rank, char_codes, compare_texts, flip, lemma_char_codes_injective, lex_order_equal,
    lex_order_flip, lex_order_transitive, text_order,
};
use crate::text::{chars_of, join, join_strings, string_of, texts};

verus! {

// ---------------------------------------------------------------------------
// Identifiers
// ---------------------------------------------------------------------------

/// `identifier` with every double quote doubled.
pub open spec fn doubled_quotes(identifier: Seq<char>) -> Seq<char>
    decreases identifier.len(),
{
    if identifier.len() == 0 {
        seq![]
    } else {
        let before = doubled_quotes(identifier.drop_last());
        if identifier.last() == '"' {
            before.push('"').push('"')
        } else {
            before.push(identifier.last())
        }
    }
}

/// `identifier` as a quoted SQL identifier.
pub open spec fn quoted(identifier: Seq<char>) -> Seq<char> {
    seq!['"'] + doubled_quotes(identifier) + seq!['"']
}

/// `identifier` as a quoted SQL identifier.
pub fn quote_identifier(identifier: &str) -> (sql: String)
    ensures
        sql@ == quoted(identifier@),
{
    let chars = chars_of(identifier);
    let mut out: Vec<char> = Vec::new();
    out.push('"');
    let mut i: usize = 0;
    while i < chars.len()
        invariant
            i <= chars@.len(),
            out@ == seq!['"'] + doubled_quotes(chars@.take(i as int)),
        decreases chars@.len() - i,
    {
        assert(chars@.take(i + 1).drop_last() =~= chars@.take(i as int));
        if chars[i] == '"' {
            out.push('"');
            out.push('"');
        } else {
            out.push(chars[i]);
        }
        assert(out@ =~= seq!['"'] + doubled_quotes(chars@.take(i + 1)));
        i = i + 1;
    }
    out.push('"');
    assert(chars@.take(chars@.len() as int) =~= chars@);
    assert(out@ =~= quoted(identifier@));
    let end: usize = out.len();
    assert(out@.subrange(0, end as int) =~= out@);
    string_of(&out, 0, end)
}

/// Reads what follows an opening double quote up to the closing one, with two
/// double quotes for one; gives the identifier and what comes behind it.
pub open spec fn read_quoted(sql: Seq<char>) -> Option<(Seq<char>, Seq<char>)>
    decreases sql.len(),
{
    if sql.len() == 0 {
        None
    } else if sql[0] != '"' {
        match read_quoted(sql.skip(1)) {
            Some((identifier, rest)) => Some((seq![sql[0]] + identifier, rest)),
            None => None,
        }
    } else if sql.len() > 1 && sql[1] == '"' {
        match read_quoted(sql.skip(2)) {
            Some((identifier, rest)) => Some((seq!['"'] + identifier, rest)),
            None => None,
        }
    } else {
        Some((seq![], sql.skip(1)))
    }
}

/// Doubling quotes goes character by character.
proof fn lemma_doubled_front(c: char, rest: Seq<char>)
    ensures
        doubled_quotes(seq![c] + rest) == (if c == '"' {
            seq!['"', '"']
        } else {
            seq![c]
        }) + doubled_quotes(rest),
    decreases rest.len(),
{
    let all = seq![c] + rest;
    if rest.len() == 0 {
        assert(all.drop_last() =~= seq![]);
        assert(doubled_quotes(all.drop_last()) =~= seq![]);
        assert(doubled_quotes(rest) =~= seq![]);
        assert(doubled_quotes(all) =~= if c == '"' {
            seq!['"', '"']
        } else {
            seq![c]
        });
    } else {
        assert(all.drop_last() =~= seq![c] + rest.drop_last());
        lemma_doubled_front(c, rest.drop_last());
        let front = if c == '"' {
            seq!['"', '"']
        } else {
            seq![c]
        };
        assert(doubled_quotes(all) =~= front + doubled_quotes(rest));
    }
}

/// A quoted identifier reads back as what was quoted, whatever it holds, and
/// ends where its closing quote stands.
pub proof fn quoting_reads_back(identifier: Seq<char>, rest: Seq<char>)
    requires
        rest.len() == 0 || rest[0] != '"',
    ensures
        read_quoted((quoted(identifier) + rest).skip(1)) == Some((identifier, rest)),
{
    assert((quoted(identifier) + rest).skip(1) =~= doubled_quotes(identifier) + seq!['"'] + rest);
    lemma_reads_back(identifier, rest);
}

proof fn lemma_reads_back(identifier: Seq<char>, rest: Seq<char>)
    requires
        rest.len() == 0 || rest[0] != '"',
    ensures
        read_quoted(doubled_quotes(identifier) + seq!['"'] + rest) == Some((identifier, rest)),
    decreases identifier.len(),
{
    let sql = doubled_quotes(identifier) + seq!['"'] + rest;
    if identifier.len() == 0 {
        assert(sql.skip(1) =~= rest);
        assert(identifier =~= seq![]);
        if rest.len() > 0 {
            assert(sql[1] == rest[0]);
        }
    } else {
        let c = identifier[0];
        let more = identifier.skip(1);
        assert(identifier =~= seq![c] + more);
        lemma_doubled_front(c, more);
        lemma_reads_back(more, rest);
        let sql_more = doubled_quotes(more) + seq!['"'] + rest;
        if c == '"' {
            assert(sql[0] == '"' && sql[1] == '"');
            assert(sql.skip(2) =~= sql_more);
        } else {
            assert(sql[0] == c);
            assert(sql.skip(1) =~= sql_more);
        }
    }
}

/// Different identifiers are quoted differently.
pub proof fn quoting_is_injective(a: Seq<char>, b: Seq<char>)
    requires
        quoted(a) == quoted(b),
    ensures
        a == b,
{
    quoting_reads_back(a, seq![]);
    quoting_reads_back(b, seq![]);
}

// ---------------------------------------------------------------------------
// Statements
// ---------------------------------------------------------------------------

/// Makes the recovered database, whose path is bound, known as `recovered`.
pub const ATTACH_SQL: &'static str = "ATTACH DATABASE ? AS recovered";

/// Lets rows be copied in any order of tables.
pub const FOREIGN_KEYS_OFF_SQL: &'static str = "PRAGMA foreign_keys = OFF";

/// Lets go of the recovered database.
pub const DETACH_SQL: &'static str = "DETACH DATABASE recovered";

/// Counts the user tables.
pub const COUNT_TABLES_SQL: &'static str = "\nSELECT COUNT(*) AS table_count\nFROM sqlite_schema\nWHERE type = 'table'\n  AND name NOT LIKE 'sqlite_%'\n  AND name != '_sqlx_migrations'\n            ";

/// Checks a database.
pub const INTEGRITY_SQL: &'static str = "PRAGMA integrity_check";

/// Lists the user tables of a schema: all but those of SQLite itself and the
/// record of migrations.
pub open spec fn user_tables_text(schema: Seq<char>) -> Seq<char> {
    "\nSELECT name\nFROM "@ + quoted(schema)
        + ".sqlite_schema\nWHERE type = 'table'\n  AND name NOT LIKE 'sqlite_%'\n  AND name != '_sqlx_migrations'\nORDER BY name\n        "@
}

/// Lists the user tables of a schema.
pub fn user_tables_sql(schema: &str) -> (sql: String)
    ensures
        sql@ == user_tables_text(schema@),
{
    let schema = quote_identifier(schema);
    "\nSELECT name\nFROM ".to_string().concat(schema.as_str()).concat(
        ".sqlite_schema\nWHERE type = 'table'\n  AND name NOT LIKE 'sqlite_%'\n  AND name != '_sqlx_migrations'\nORDER BY name\n        ",
    )
}

/// Lists the columns of the table that is bound, in their order.
pub open spec fn table_columns_text(schema: Seq<char>) -> Seq<char> {
    "SELECT name FROM "@ + quoted(schema)
        + ".pragma_table_xinfo(?) WHERE hidden = 0 ORDER BY cid"@
}

/// Lists the columns of the table that is bound, in their order.
pub fn table_columns_sql(schema: &str) -> (sql: String)
    ensures
        sql@ == table_columns_text(schema@),
{
    let schema = quote_identifier(schema);
    "SELECT name FROM ".to_string().concat(schema.as_str()).concat(
        ".pragma_table_xinfo(?) WHERE hidden = 0 ORDER BY cid",
    )
}

/// Each of `identifiers` quoted.
pub open spec fn all_quoted(identifiers: Seq<Seq<char>>) -> Seq<Seq<char>> {
    identifiers.map_values(|identifier: Seq<char>| quoted(identifier))
}

/// Copies the rows of a recovered table, as far as `columns` go.
pub open spec fn copy_rows_text(table: Seq<char>, columns: Seq<Seq<char>>) -> Seq<char> {
    let table = quoted(table);
    let columns = join(all_quoted(columns), ", "@);
    "INSERT OR REPLACE INTO main."@ + table + " ("@ + columns + ") SELECT "@ + columns
        + " FROM recovered."@ + table
}

/// Copies the rows of a recovered table, as far as `columns` go.
pub fn copy_rows_sql(table: &str, columns: &Vec<String>) -> (sql: String)
    ensures
        sql@ == copy_rows_text(table@, texts(columns@)),
{
    let mut names: Vec<String> = Vec::new();
    let mut i: usize = 0;
    while i < columns.len()
        invariant
            i <= columns@.len(),
            texts(names@) == all_quoted(texts(columns@).take(i as int)),
        decreases columns@.len() - i,
    {
        let ghost before = names@;
        names.push(quote_identifier(columns[i].as_str()));
        assert(texts(names@) =~= texts(before).push(quoted(columns@[i as int]@)));
        assert(texts(columns@).take(i + 1) =~= texts(columns@).take(i as int).push(
            columns@[i as int]@,
        ));
        assert(texts(names@) =~= all_quoted(texts(columns@).take(i + 1)));
        i = i + 1;
    }
    assert(texts(columns@).take(columns@.len() as int) =~= texts(columns@));
    let list = join_strings(&names, ", ");
    let table = quote_identifier(table);
    "INSERT OR REPLACE INTO main.".to_string().concat(table.as_str()).concat(" (").concat(
        list.as_str(),
    ).concat(") SELECT ").concat(list.as_str()).concat(" FROM recovered.").concat(table.as_str())
}

/// Copies a recovered table that is not in the current schema.
pub open spec fn copy_table_text(table: Seq<char>) -> Seq<char> {
    "CREATE TABLE main."@ + quoted(table) + " AS SELECT * FROM recovered."@ + quoted(table)
}

/// Copies a recovered table that is not in the current schema.
pub fn copy_table_sql(table: &str) -> (sql: String)
    ensures
        sql@ == copy_table_text(table@),
{
    let table = quote_identifier(table);
    "CREATE TABLE main.".to_string().concat(table.as_str()).concat(
        " AS SELECT * FROM recovered.",
    ).concat(table.as_str())
}

// ---------------------------------------------------------------------------
// Sets of names
// ---------------------------------------------------------------------------

/// `names` ascend strictly.
pub open spec fn ascending(names: Seq<Seq<char>>) -> bool {
    forall|i: int, j: int|
        #![trigger names[i], names[j]]
        0 <= i < j < names.len() ==> text_order(names[i], names[j]) is Less
}

/// `set`, which ascends, with `name`.
pub open spec fn with_member(set: Seq<Seq<char>>, name: Seq<char>) -> Seq<Seq<char>>
    decreases set.len(),
{
    if set.len() == 0 {
        seq![name]
    } else {
        match text_order(set.last(), name) {
            Rank::Less => set.push(name),
            Rank::Equal => set,
            Rank::Greater => with_member(set.drop_last(), name).push(set.last()),
        }
    }
}

/// The names in `rows`, each once and in ascending order.
pub open spec fn name_set(rows: Seq<Seq<char>>) -> Seq<Seq<char>>
    decreases rows.len(),
{
    if rows.len() == 0 {
        seq![]
    } else {
        with_member(name_set(rows.drop_last()), rows.last())
    }
}

/// Two texts rank equal only if they are the same.
proof fn lemma_text_order(a: Seq<char>, b: Seq<char>)
    ensures
        text_order(a, b) is Equal <==> a == b,
        text_order(b, a) == flip(text_order(a, b)),
{
    lex_order_equal(char_codes(a), char_codes(b));
    lex_order_flip(char_codes(a), char_codes(b));
    if char_codes(a) == char_codes(b) {
        lemma_char_codes_injective(a, b);
    }
}

proof fn lemma_with_member(set: Seq<Seq<char>>, name: Seq<char>)
    requires
        ascending(set),
    ensures
        ascending(with_member(set, name)),
        forall|other: Seq<char>|
            with_member(set, name).contains(other) <==> set.contains(other) || other == name,
    decreases set.len(),
{
    let more = with_member(set, name);
    if set.len() == 0 {
        assert(more[0] == name);
    } else {
        let rest = set.drop_last();
        let last = set.last();
        lemma_text_order(last, name);
        assert(set =~= rest.push(last));
        match text_order(last, name) {
            Rank::Less => {
                assert forall|i: int, j: int|
                    #![trigger more[i], more[j]]
                    0 <= i < j < more.len() implies text_order(more[i], more[j]) is Less by {
                    assert(more[i] == set[i]);
                    if j < set.len() {
                        assert(more[j] == set[j]);
                    } else if i < set.len() - 1 {
                        assert(text_order(set[i], set[set.len() - 1]) is Less);
                        lex_order_transitive(char_codes(set[i]), char_codes(last), char_codes(name));
                    }
                }
                lemma_push_contains(set, name);
            },
            Rank::Equal => {
                assert(set[set.len() - 1] == name);
            },
            Rank::Greater => {
                assert forall|i: int, j: int|
                    #![trigger rest[i], rest[j]]
                    0 <= i < j < rest.len() implies text_order(rest[i], rest[j]) is Less by {
                    assert(rest[i] == set[i] && rest[j] == set[j]);
                }
                lemma_with_member(rest, name);
                let inner = with_member(rest, name);
                assert(more =~= inner.push(last));
                assert forall|i: int, j: int|
                    #![trigger more[i], more[j]]
                    0 <= i < j < more.len() implies text_order(more[i], more[j]) is Less by {
                    assert(more[i] == inner[i]);
                    if j < inner.len() {
                        assert(more[j] == inner[j]);
                    } else {
                        assert(inner.contains(inner[i]));
                        if inner[i] != name {
                            assert(rest.contains(inner[i]));
                            let k = choose|k: int| 0 <= k < rest.len() && rest[k] == inner[i];
                            assert(set[k] == inner[i]);
                            assert(text_order(set[k], set[set.len() - 1]) is Less);
                        }
                    }
                }
                lemma_push_contains(inner, last);
                lemma_push_contains(rest, last);
            },
        }
    }
}

proof fn lemma_push_contains(names: Seq<Seq<char>>, name: Seq<char>)
    ensures
        forall|other: Seq<char>| #[trigger]
            names.push(name).contains(other) <==> names.contains(other) || other == name,
{
    assert forall|other: Seq<char>| #[trigger]
        names.push(name).contains(other) <==> names.contains(other) || other == name by {
        let more = names.push(name);
        if names.contains(other) {
            let k = choose|k: int| 0 <= k < names.len() && names[k] == other;
            assert(more[k] == other);
        }
        if other == name {
            assert(more[names.len() as int] == other);
        }
        if more.contains(other) {
            let k = choose|k: int| 0 <= k < more.len() && more[k] == other;
            if k < names.len() {
                assert(names[k] == other);
            }
        }
    }
}

/// A set of names holds what it is made of, each name once and in ascending
/// order.
pub proof fn name_set_is_sorted(rows: Seq<Seq<char>>)
    ensures
        ascending(name_set(rows)),
        name_set(rows).no_duplicates(),
        forall|name: Seq<char>| name_set(rows).contains(name) <==> rows.contains(name),
    decreases rows.len(),
{
    if rows.len() > 0 {
        let rest = rows.drop_last();
        name_set_is_sorted(rest);
        lemma_with_member(name_set(rest), rows.last());
        assert(rows =~= rest.push(rows.last()));
        lemma_push_contains(rest, rows.last());
    }
    let set = name_set(rows);
    assert forall|i: int, j: int| 0 <= i < set.len() && 0 <= j < set.len() && i != j implies set[i]
        != set[j] by {
        lemma_text_order(set[i], set[j]);
        if i < j {
            assert(text_order(set[i], set[j]) is Less);
        } else {
            assert(text_order(set[j], set[i]) is Less);
        }
    }
}

/// Adds `name` to a set of names.
fn add_member(set: &mut Vec<String>, name: String)
    ensures
        texts(final(set)@) == with_member(texts(old(set)@), name@),
{
    let ghost names = texts(set@);
    let mut at: usize = set.len();
    assert(names.take(at as int) =~= names);
    assert(names.skip(at as int) =~= seq![]);
    while at > 0
        invariant
            at <= set@.len(),
            names == texts(set@),
            set@ == old(set)@,
            with_member(names, name@) == with_member(names.take(at as int), name@) + names.skip(
                at as int,
            ),
        decreases at,
    {
        let ghost front = names.take(at as int);
        assert(front.last() == set@[at - 1]@);
        assert(front.drop_last() =~= names.take(at - 1));
        match compare_texts(set[at - 1].as_str(), name.as_str()) {
            Rank::Less => {
                set.insert(at, name);
                assert(texts(set@) =~= front.push(name@) + names.skip(at as int));
                return;
            },
            Rank::Equal => {
                assert(front + names.skip(at as int) =~= names);
                return;
            },
            Rank::Greater => {
                assert(with_member(front, name@) + names.skip(at as int) =~= with_member(
                    names.take(at - 1),
                    name@,
                ) + names.skip(at - 1));
                at = at - 1;
            },
        }
    }
    set.insert(0, name);
    assert(names.take(0) =~= seq![]);
    assert(texts(set@) =~= seq![name@] + names.skip(0));
}

/// The names in `rows`, each once and in ascending order.
pub fn collect_names(rows: Vec<String>) -> (set: Vec<String>)
    ensures
        texts(set@) == name_set(texts(rows@)),
{
    let mut set: Vec<String> = Vec::new();
    assert(texts(set@) =~= seq![]);
    for name in it: rows
        invariant
            it.seq() == rows@,
            texts(set@) == name_set(texts(rows@).take(it.index() as int)),
    {
        let ghost seen = texts(rows@).take(it.index() as int);
        assert(texts(rows@).take(it.index() + 1) =~= seen.push(name@));
        assert(seen.push(name@).drop_last() =~= seen);
        add_member(&mut set, name);
    }
    assert(texts(rows@).take(rows@.len() as int) =~= texts(rows@));
    set
}

/// Tests whether `name` is among `names`.
pub fn has_name(names: &Vec<String>, name: &String) -> (found: bool)
    ensures
        found == texts(names@).contains(name@),
{
    let mut i: usize = 0;
    while i < names.len()
        invariant
            i <= names@.len(),
            forall|j: int| 0 <= j < i ==> texts(names@)[j] != name@,
        decreases names@.len() - i,
    {
        assert(texts(names@)[i as int] == names@[i as int]@);
        if names[i] == *name {
            assert(texts(names@).contains(texts(names@)[i as int]));
            return true;
        }
        i = i + 1;
    }
    assert(texts(names@).len() == names@.len());
    false
}

/// Those of `destination` that are among `source` too, in their order.
pub open spec fn shared_names(destination: Seq<Seq<char>>, source: Seq<Seq<char>>) -> Seq<Seq<char>>
    decreases destination.len(),
{
    if destination.len() == 0 {
        seq![]
    } else {
        let before = shared_names(destination.drop_last(), source);
        if source.contains(destination.last()) {
            before.push(destination.last())
        } else {
            before
        }
    }
}

/// Those of the columns of a table that survived the recovery and are still in
/// the current schema, in the order of the current schema.
pub fn shared_columns(destination: Vec<String>, source: &Vec<String>) -> (columns: Vec<String>)
    ensures
        texts(columns@) == shared_names(texts(destination@), texts(source@)),
{
    let mut columns: Vec<String> = Vec::new();
    assert(texts(columns@) =~= seq![]);
    for name in it: destination
        invariant
            it.seq() == destination@,
            texts(columns@) == shared_names(
                texts(destination@).take(it.index() as int),
                texts(source@),
            ),
    {
        let ghost seen = texts(destination@).take(it.index() as int);
        let ghost before = columns@;
        assert(texts(destination@).take(it.index() + 1) =~= seen.push(name@));
        assert(seen.push(name@).drop_last() =~= seen);
        if has_name(source, &name) {
            columns.push(name);
            assert(texts(columns@) =~= texts(before).push(name@));
        }
    }
    assert(texts(destination@).take(destination@.len() as int) =~= texts(destination@));
    columns
}

/// A column is copied exactly if it is on both sides.
pub proof fn shared_columns_are_on_both_sides(
    destination: Seq<Seq<char>>,
    source: Seq<Seq<char>>,
)
    ensures
        forall|name: Seq<char>|
            shared_names(destination, source).contains(name) <==> destination.contains(name)
                && source.contains(name),
    decreases destination.len(),
{
    if destination.len() > 0 {
        let rest = destination.drop_last();
        shared_columns_are_on_both_sides(rest, source);
        assert(destination =~= rest.push(destination.last()));
        lemma_push_contains(rest, destination.last());
        lemma_push_contains(shared_names(rest, source), destination.last());
    }
}

// ---------------------------------------------------------------------------
// What a recovered database has to show
// ---------------------------------------------------------------------------

/// Checks that there are user tables. A file that is no database can recover
/// to an empty database, and taking that for a success would lose the data.
pub fn assert_recovered_schema(table_count: i64) -> (checked: Result<(), String>)
    ensures
        match checked {
            Ok(_) => table_count != 0,
            Err(message) => table_count == 0 && message@
                == "SQLite recovery did not recover any user tables"@,
        },
{
    if table_count == 0 {
        return Err("SQLite recovery did not recover any user tables".to_string());
    }
    Ok(())
}

/// The check of a database found nothing wrong.
pub open spec fn is_sound(rows: Seq<Seq<char>>) -> bool {
    forall|i: int| 0 <= i < rows.len() ==> #[trigger] rows[i] == "ok"@
}

/// The check of a database found something.
pub open spec fn unsound_message(rows: Seq<Seq<char>>) -> Seq<char> {
    "recovered database failed integrity_check: "@ + join(rows, "; "@)
}

/// Checks what the check of a database said.
pub fn assert_integrity_ok(rows: &Vec<String>) -> (checked: Result<(), String>)
    ensures
        match checked {
            Ok(_) => is_sound(texts(rows@)),
            Err(message) => !is_sound(texts(rows@)) && message@ == unsound_message(texts(rows@)),
        },
{
    let ok = "ok".to_string();
    let mut i: usize = 0;
    while i < rows.len()
        invariant
            ok@ == "ok"@,
            i <= rows@.len(),
            forall|j: int| 0 <= j < i ==> #[trigger] texts(rows@)[j] == "ok"@,
        decreases rows@.len() - i,
    {
        assert(texts(rows@)[i as int] == rows@[i as int]@);
        if rows[i] != ok {
            let found = join_strings(rows, "; ");
            return Err(
                "recovered database failed integrity_check: ".to_string().concat(found.as_str()),
            );
        }
        i = i + 1;
    }
    assert(texts(rows@).len() == rows@.len());
    Ok(())
}

} // verus!
