use std::collections::BTreeSet;

use codex_recall::recovery_copy::{CopyAnswer, CopyTables, Statement};
use codex_recall::recovery_error::{FailureCause, RecoveryError};
use codex_recall::recovery_tables::{
    assert_integrity_ok, assert_recovered_schema, collect_names, copy_rows_sql, copy_table_sql,
    has_name, quote_identifier, shared_columns, table_columns_sql, user_tables_sql,
};

fn strings(names: &[&str]) -> Vec<String> {
    names.iter().map(|name| name.to_string()).collect()
}

#[test]
fn identifiers_are_quoted() {
    assert_eq!(quote_identifier("threads"), "\"threads\"");
    assert_eq!(quote_identifier(""), "\"\"");
    assert_eq!(quote_identifier("a\"b"), "\"a\"\"b\"");
    assert_eq!(quote_identifier("\""), "\"\"\"\"");
    assert_eq!(
        quote_identifier("x\"; DROP TABLE t; --"),
        "\"x\"\"; DROP TABLE t; --\""
    );
    assert_eq!(quote_identifier("日 é"), "\"日 é\"");
}

#[test]
fn statements() {
    assert_eq!(
        user_tables_sql("main"),
        "\nSELECT name\nFROM \"main\".sqlite_schema\nWHERE type = 'table'\n  AND name NOT LIKE 'sqlite_%'\n  AND name != '_sqlx_migrations'\nORDER BY name\n        "
    );
    assert_eq!(
        table_columns_sql("recovered"),
        "SELECT name FROM \"recovered\".pragma_table_xinfo(?) WHERE hidden = 0 ORDER BY cid"
    );
    assert_eq!(
        copy_rows_sql("threads", &strings(&["id", "ti\"tle"])),
        "INSERT OR REPLACE INTO main.\"threads\" (\"id\", \"ti\"\"tle\") SELECT \"id\", \"ti\"\"tle\" FROM recovered.\"threads\""
    );
    assert_eq!(
        copy_table_sql("extra"),
        "CREATE TABLE main.\"extra\" AS SELECT * FROM recovered.\"extra\""
    );
}

#[test]
fn names_are_collected_as_a_set() {
    for names in [
        vec![],
        vec!["b", "a", "b", "c", "a"],
        vec!["é", "z", "Z", "日", "", "\u{ffff}", "𝄞"],
    ] {
        let expected: Vec<String> = strings(&names)
            .into_iter()
            .collect::<BTreeSet<_>>()
            .into_iter()
            .collect();
        assert_eq!(collect_names(strings(&names)), expected);
    }
}

#[test]
fn columns_on_both_sides_are_copied() {
    assert_eq!(
        shared_columns(
            strings(&["id", "title", "new", "cwd"]),
            &strings(&["cwd", "old", "id", "title"])
        ),
        vec!["id", "title", "cwd"]
    );
    assert!(shared_columns(strings(&["a"]), &strings(&["A"])).is_empty());
    assert!(has_name(&strings(&["a", "b"]), &"b".to_string()));
    assert!(!has_name(&strings(&["a", "b"]), &"c".to_string()));
}

#[test]
fn recovered_databases_need_tables() {
    assert_eq!(
        assert_recovered_schema(0),
        Err("SQLite recovery did not recover any user tables".to_string())
    );
    assert_eq!(assert_recovered_schema(1), Ok(()));
}

#[test]
fn recovered_databases_need_to_be_sound() {
    assert_eq!(assert_integrity_ok(&strings(&["ok"])), Ok(()));
    assert_eq!(assert_integrity_ok(&Vec::new()), Ok(()));
    assert_eq!(
        assert_integrity_ok(&strings(&["ok", "page 3 is bad", "row 4 is bad"])),
        Err("recovered database failed integrity_check: ok; page 3 is bad; row 4 is bad".to_string())
    );
    assert!(assert_integrity_ok(&strings(&["OK"])).is_err());
}

type Answers = fn(&Statement) -> CopyAnswer<&'static str>;

/// Runs a copying and returns its statements and its outcome.
fn copy(answer: Answers) -> (Vec<String>, Result<(), RecoveryError<&'static str>>) {
    let mut copy = CopyTables::new(Ok("recovered.sqlite"));
    let mut statements = Vec::new();
    while let Some(statement) = copy.statement() {
        let answer = answer(&statement);
        assert!(
            !matches!(&answer, CopyAnswer::Rows(_)) || statement.fetches,
            "rows only come of queries"
        );
        statements.push(match statement.argument {
            Some(argument) => format!("{} [{argument}]", statement.sql),
            None => statement.sql,
        });
        copy = copy.answered(answer);
    }
    (statements, copy.outcome().expect("the copying is over"))
}

fn message(error: RecoveryError<&'static str>) -> String {
    assert!(error.contexts.is_empty());
    match error.cause {
        FailureCause::Message(message) => message,
        FailureCause::Outside(error) => format!("outside: {error}"),
    }
}

fn rows(names: &[&str]) -> CopyAnswer<&'static str> {
    CopyAnswer::Rows(strings(names))
}

#[test]
fn tables_are_copied() {
    let (statements, outcome) = copy(|statement| {
        if statement.sql == user_tables_sql("main") {
            rows(&["threads", "logs", "jobs"])
        } else if statement.sql == user_tables_sql("recovered") {
            rows(&["threads", "logs", "extra"])
        } else if statement.sql == table_columns_sql("main") {
            match statement.argument.as_deref() {
                Some("threads") => rows(&["id", "title", "added"]),
                _ => rows(&["line"]),
            }
        } else if statement.sql == table_columns_sql("recovered") {
            match statement.argument.as_deref() {
                Some("threads") => rows(&["title", "id"]),
                _ => rows(&["other"]),
            }
        } else {
            CopyAnswer::Done
        }
    });
    assert!(outcome.is_ok());
    assert_eq!(
        statements,
        vec![
            "ATTACH DATABASE ? AS recovered [recovered.sqlite]".to_string(),
            "PRAGMA foreign_keys = OFF".to_string(),
            user_tables_sql("main"),
            user_tables_sql("recovered"),
            "CREATE TABLE main.\"extra\" AS SELECT * FROM recovered.\"extra\"".to_string(),
            format!("{} [logs]", table_columns_sql("main")),
            format!("{} [logs]", table_columns_sql("recovered")),
            format!("{} [threads]", table_columns_sql("main")),
            format!("{} [threads]", table_columns_sql("recovered")),
            "INSERT OR REPLACE INTO main.\"threads\" (\"id\", \"title\") SELECT \"id\", \"title\" FROM recovered.\"threads\"".to_string(),
            "DETACH DATABASE recovered".to_string(),
        ]
    );
}

#[test]
fn something_has_to_be_copied() {
    let (statements, outcome) = copy(|statement| {
        if statement.fetches {
            rows(&[])
        } else {
            CopyAnswer::Done
        }
    });
    assert_eq!(
        statements.last().map(String::as_str),
        Some("DETACH DATABASE recovered")
    );
    assert_eq!(
        outcome.map_err(message),
        Err("recovered database did not contain any current schema tables".to_string())
    );
}

#[test]
fn tables_without_shared_columns_do_not_count() {
    let (_, outcome) = copy(|statement| {
        if statement.sql == table_columns_sql("main") {
            rows(&["a"])
        } else if statement.fetches {
            rows(&["b"])
        } else {
            CopyAnswer::Done
        }
    });
    assert_eq!(
        outcome.map_err(message),
        Err("recovered database did not contain any current schema tables".to_string())
    );
}

#[test]
fn recovered_paths_need_to_be_texts() {
    let copy: CopyTables<&'static str> = CopyTables::new(Err("/data/\u{fffd}.recovered"));
    assert!(copy.statement().is_none());
    assert_eq!(
        copy.outcome().expect("the copying is over").map_err(message),
        Err("recovered path is not valid UTF-8: /data/\u{fffd}.recovered".to_string())
    );
}

#[test]
fn attaching_may_fail() {
    let (statements, outcome) = copy(|_| CopyAnswer::Failed("locked"));
    assert_eq!(statements.len(), 1);
    assert_eq!(outcome.map_err(message), Err("outside: locked".to_string()));
    let (statements, outcome) = copy(|statement| {
        if statement.argument.is_some() {
            CopyAnswer::Done
        } else {
            CopyAnswer::Failed("no pragma")
        }
    });
    assert_eq!(statements.len(), 2);
    assert_eq!(
        outcome.map_err(message),
        Err("outside: no pragma".to_string())
    );
}

#[test]
fn failed_statements_are_followed_by_detaching() {
    let (statements, outcome) = copy(|statement| {
        if statement.sql.starts_with("CREATE") {
            CopyAnswer::Failed("disk full")
        } else if statement.sql.starts_with("DETACH") {
            CopyAnswer::Failed("busy")
        } else if statement.sql == user_tables_sql("recovered") {
            rows(&["extra", "more"])
        } else if statement.fetches {
            rows(&[])
        } else {
            CopyAnswer::Done
        }
    });
    assert_eq!(statements.len(), 6);
    assert_eq!(
        statements.last().map(String::as_str),
        Some("DETACH DATABASE recovered")
    );
    assert_eq!(
        outcome.map_err(message),
        Err("outside: disk full".to_string())
    );
}

#[test]
fn detaching_may_fail() {
    let (_, outcome) = copy(|statement| {
        if statement.sql.starts_with("DETACH") {
            CopyAnswer::Failed("busy")
        } else if statement.sql == user_tables_sql("recovered") {
            rows(&["extra"])
        } else if statement.fetches {
            rows(&[])
        } else {
            CopyAnswer::Done
        }
    });
    assert_eq!(outcome.map_err(message), Err("outside: busy".to_string()));
}

#[test]
fn errors_gather_contexts() {
    let error = RecoveryError::<u8>::plain("m".to_string())
        .wrapped("inner".to_string())
        .wrapped("outer".to_string());
    assert_eq!(error.contexts, vec!["inner", "outer"]);
    assert!(matches!(
        RecoveryError::outside(7).cause,
        FailureCause::Outside(7)
    ));
}

/// Reads a quoted identifier back.
fn read_back(sql: &str) -> Option<(String, String)> {
    let mut chars = sql.strip_prefix('"')?.chars().peekable();
    let mut identifier = String::new();
    while let Some(c) = chars.next() {
        if c != '"' {
            identifier.push(c);
        } else if chars.peek() == Some(&'"') {
            chars.next();
            identifier.push('"');
        } else {
            return Some((identifier, chars.collect()));
        }
    }
    None
}

#[test]
fn quoted_identifiers_read_back() {
    let names = ["", "a", "\"", "\"\"", "a\"b", "\"a", "a\"", "日\"日"];
    for name in names {
        let sql = format!("{}.t", quote_identifier(name));
        assert_eq!(
            read_back(&sql),
            Some((name.to_string(), ".t".to_string()))
        );
        for other in names {
            assert_eq!(quote_identifier(name) == quote_identifier(other), name == other);
        }
    }
}
