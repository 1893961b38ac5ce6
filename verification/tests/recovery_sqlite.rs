use std::future::Future;

use codex_recall::malformed::is_malformed_sqlite_error;
use codex_recall::recovery_copy::{CopyAnswer, CopyTables};
use codex_recall::recovery_tables::{
    COUNT_TABLES_SQL, INTEGRITY_SQL, assert_integrity_ok, assert_recovered_schema,
};
use sqlx::Connection;
use sqlx::sqlite::SqliteConnection;

fn block_on<F: Future>(future: F) -> F::Output {
    tokio::runtime::Builder::new_current_thread()
        .enable_all()
        .build()
        .expect("runtime")
        .block_on(future)
}

async fn execute(connection: &mut SqliteConnection, sql: &str) {
    sqlx::query(sql)
        .execute(connection)
        .await
        .expect("statement");
}

/// Copies what `fill` puts into the recovered database into one that `schema`
/// sets up.
async fn copy(
    schema: &[&str],
    fill: &[&str],
) -> (SqliteConnection, Result<(), String>) {
    let mut connection = SqliteConnection::connect("sqlite::memory:")
        .await
        .expect("database");
    for sql in schema {
        execute(&mut connection, sql).await;
    }
    let mut copy = CopyTables::<String>::new(Ok(":memory:"));
    while let Some(statement) = copy.statement() {
        let answer = if statement.fetches {
            let mut query = sqlx::query_scalar::<_, String>(statement.sql.as_str());
            if let Some(argument) = &statement.argument {
                query = query.bind(argument);
            }
            match query.fetch_all(&mut connection).await {
                Ok(rows) => CopyAnswer::Rows(rows),
                Err(err) => CopyAnswer::Failed(err.to_string()),
            }
        } else {
            let mut query = sqlx::query(statement.sql.as_str());
            if let Some(argument) = &statement.argument {
                query = query.bind(argument);
            }
            match query.execute(&mut connection).await {
                Ok(_) => CopyAnswer::Done,
                Err(err) => CopyAnswer::Failed(err.to_string()),
            }
        };
        let attached = statement.argument.is_some() && !statement.fetches;
        copy = copy.answered(answer);
        if attached {
            for sql in fill {
                execute(&mut connection, sql).await;
            }
        }
    }
    let outcome = copy.outcome().expect("the copying is over");
    (
        connection,
        outcome.map_err(|error| match error.cause {
            codex_recall::recovery_error::FailureCause::Message(message) => message,
            codex_recall::recovery_error::FailureCause::Outside(error) => error,
        }),
    )
}

#[test]
fn rows_and_tables_survive_copying() {
    block_on(async {
        let (mut connection, outcome) = copy(
            &[
                "CREATE TABLE threads (id TEXT PRIMARY KEY, added INTEGER NOT NULL DEFAULT 7, \"ti\"\"tle\" TEXT)",
                "CREATE TABLE _sqlx_migrations (version INTEGER)",
            ],
            &[
                "CREATE TABLE recovered.threads (\"ti\"\"tle\" TEXT, gone TEXT, added INTEGER, id TEXT)",
                "INSERT INTO recovered.threads VALUES ('survived recovery', 'x', 9, '456')",
                "CREATE TABLE recovered.\"extra \"\"data\" (value TEXT)",
                "INSERT INTO recovered.\"extra \"\"data\" VALUES ('preserved')",
                "CREATE TABLE recovered._sqlx_migrations (version INTEGER)",
                "INSERT INTO recovered._sqlx_migrations VALUES (1)",
            ],
        )
        .await;
        assert_eq!(outcome, Ok(()));
        let row: (String, i64, String) =
            sqlx::query_as("SELECT id, added, \"ti\"\"tle\" FROM threads")
                .fetch_one(&mut connection)
                .await
                .expect("row");
        assert_eq!(
            row,
            ("456".to_string(), 9, "survived recovery".to_string())
        );
        let value: String = sqlx::query_scalar("SELECT value FROM \"extra \"\"data\"")
            .fetch_one(&mut connection)
            .await
            .expect("row");
        assert_eq!(value, "preserved");
        let migrations: i64 = sqlx::query_scalar("SELECT COUNT(*) FROM _sqlx_migrations")
            .fetch_one(&mut connection)
            .await
            .expect("count");
        assert_eq!(migrations, 0);

        let count: i64 = sqlx::query_scalar(COUNT_TABLES_SQL)
            .fetch_one(&mut connection)
            .await
            .expect("count");
        assert_eq!(count, 2);
        assert_eq!(assert_recovered_schema(count), Ok(()));
        let rows: Vec<String> = sqlx::query_scalar(INTEGRITY_SQL)
            .fetch_all(&mut connection)
            .await
            .expect("rows");
        assert_eq!(assert_integrity_ok(&rows), Ok(()));
    });
}

#[test]
fn empty_databases_have_nothing_to_copy() {
    block_on(async {
        let (mut connection, outcome) = copy(&["CREATE TABLE threads (id TEXT)"], &[]).await;
        assert_eq!(
            outcome,
            Err("recovered database did not contain any current schema tables".to_string())
        );
        let attached: Vec<String> = sqlx::query_scalar("SELECT name FROM pragma_database_list")
            .fetch_all(&mut connection)
            .await
            .expect("rows");
        assert_eq!(attached, vec!["main"]);
    });
}

#[test]
fn real_sqlite_errors_are_told_apart() {
    block_on(async {
        let mut connection = SqliteConnection::connect("sqlite::memory:")
            .await
            .expect("database");
        let err = sqlx::query("SELECT * FROM nowhere")
            .execute(&mut connection)
            .await
            .expect_err("no such table");
        assert!(!is_malformed_sqlite_error(&anyhow::Error::new(err)));

        execute(&mut connection, "CREATE TABLE t (id INTEGER)").await;
        execute(&mut connection, "PRAGMA writable_schema = ON").await;
        execute(
            &mut connection,
            "UPDATE sqlite_schema SET sql = 'nonsense' WHERE name = 't'",
        )
        .await;
        execute(&mut connection, "PRAGMA writable_schema = RESET").await;
        let err = sqlx::query("SELECT * FROM t")
            .execute(&mut connection)
            .await
            .expect_err("malformed schema");
        assert!(is_malformed_sqlite_error(
            &anyhow::Error::new(err).context("while starting")
        ));
    });
}
