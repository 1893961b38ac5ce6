use std::borrow::Cow;
use std::error::Error as StdError;
use std::fmt;

use codex_recall::malformed::{
    ErrorCause, SqlxError, causes_are_malformed, error_message_is_malformed,
    is_malformed_sqlite_error, sqlite_code_is_malformed, sqlx_error_is_malformed,
};
use sqlx::error::{DatabaseError, ErrorKind};

#[derive(Debug)]
struct FakeDatabaseError {
    code: Option<&'static str>,
    message: &'static str,
}

impl fmt::Display for FakeDatabaseError {
    fn fmt(&self, f: &mut fmt::Formatter<'_>) -> fmt::Result {
        f.write_str("database said no")
    }
}

impl StdError for FakeDatabaseError {}

impl DatabaseError for FakeDatabaseError {
    fn message(&self) -> &str {
        self.message
    }

    fn code(&self) -> Option<Cow<'_, str>> {
        self.code.map(Cow::Borrowed)
    }

    fn as_error(&self) -> &(dyn StdError + Send + Sync + 'static) {
        self
    }

    fn as_error_mut(&mut self) -> &mut (dyn StdError + Send + Sync + 'static) {
        self
    }

    fn into_error(self: Box<Self>) -> Box<dyn StdError + Send + Sync + 'static> {
        self
    }

    fn kind(&self) -> ErrorKind {
        ErrorKind::Other
    }
}

fn database_error(code: Option<&'static str>, message: &'static str) -> anyhow::Error {
    anyhow::Error::new(sqlx::Error::Database(Box::new(FakeDatabaseError {
        code,
        message,
    })))
}

fn cause(message: &str) -> ErrorCause {
    ErrorCause {
        message: message.to_string(),
        sqlx: None,
    }
}

#[test]
fn detects_malformed_sqlite_messages() {
    let err = anyhow::Error::msg("database disk image is malformed");

    assert!(is_malformed_sqlite_error(&err));
}

#[derive(Debug)]
struct FailsToDisplay;

impl fmt::Display for FailsToDisplay {
    fn fmt(&self, f: &mut fmt::Formatter<'_>) -> fmt::Result {
        f.write_str("file is not a database")?;
        Err(fmt::Error)
    }
}

impl StdError for FailsToDisplay {}

#[test]
fn errors_that_fail_to_display_count_by_what_they_wrote() {
    assert!(is_malformed_sqlite_error(&anyhow::Error::new(
        FailsToDisplay
    )));
}

#[test]
fn ordinary_errors_are_not_malformed() {
    assert!(!is_malformed_sqlite_error(&anyhow::Error::msg("disk full")));
    assert!(!is_malformed_sqlite_error(&anyhow::Error::new(
        sqlx::Error::RowNotFound
    )));
    assert!(!is_malformed_sqlite_error(&database_error(
        Some("5"),
        "database is locked"
    )));
    assert!(!is_malformed_sqlite_error(&database_error(None, "no such table")));
}

#[test]
fn result_codes_of_sqlx_errors_count() {
    assert!(is_malformed_sqlite_error(&database_error(Some("11"), "oops")));
    assert!(is_malformed_sqlite_error(&database_error(Some("26"), "oops")));
    assert!(is_malformed_sqlite_error(&database_error(Some("267"), "oops")));
    assert!(!is_malformed_sqlite_error(&database_error(Some("12"), "oops")));
}

#[test]
fn messages_of_sqlx_database_errors_count() {
    assert!(is_malformed_sqlite_error(&database_error(
        None,
        "file is not a database"
    )));
    let err = anyhow::Error::new(sqlx::Error::Protocol(
        "the Database schema was malformed".to_string(),
    ));
    assert!(is_malformed_sqlite_error(&err));
}

#[test]
fn causes_below_context_count() {
    let err = database_error(Some("11"), "oops").context("while migrating").context("at startup");
    assert!(is_malformed_sqlite_error(&err));
    let err = anyhow::Error::msg("file is not a database").context("at startup");
    assert!(is_malformed_sqlite_error(&err));
    let err = anyhow::Error::msg("nothing wrong").context("at startup");
    assert!(!is_malformed_sqlite_error(&err));
}

#[test]
fn codes_are_read_as_decimal_numbers() {
    assert!(sqlite_code_is_malformed("11"));
    assert!(sqlite_code_is_malformed("26"));
    assert!(sqlite_code_is_malformed("+11"));
    assert!(sqlite_code_is_malformed("0011"));
    assert!(!sqlite_code_is_malformed("none"));
    assert!(!sqlite_code_is_malformed(""));
    assert!(!sqlite_code_is_malformed("11 "));
    assert!(!sqlite_code_is_malformed("0x0b"));
    assert!(!sqlite_code_is_malformed("0"));
}

#[test]
fn extended_codes_count_by_their_low_byte() {
    for extended in 0..40 {
        let base = extended * 256;
        assert!(sqlite_code_is_malformed(&(base + 11).to_string()));
        assert!(sqlite_code_is_malformed(&(base + 26).to_string()));
        assert!(!sqlite_code_is_malformed(&(base + 10).to_string()));
    }
    for code in [-2147483648i32, -1000, -245, -230, -1, 0, 11, 2147483647] {
        let expected = matches!(code & 0xff, 11 | 26);
        assert_eq!(sqlite_code_is_malformed(&code.to_string()), expected, "{code}");
    }
    assert!(!sqlite_code_is_malformed("4294967307"));
}

#[test]
fn message_patterns() {
    assert!(error_message_is_malformed("database disk image is malformed"));
    assert!(error_message_is_malformed("file is not a database"));
    assert!(error_message_is_malformed("database schema is malformed"));
    assert!(error_message_is_malformed("database is corrupt"));
    assert!(error_message_is_malformed("malformed page in database"));
    assert!(!error_message_is_malformed("malformed page"));
    assert!(!error_message_is_malformed("database is busy"));
    assert!(!error_message_is_malformed(""));
}

#[test]
fn message_case_and_surroundings_do_not_matter() {
    assert!(error_message_is_malformed("File Is NOT a DataBase"));
    assert!(error_message_is_malformed(
        "error returned from database: (code: 26) FILE IS NOT A DATABASE, sorry"
    ));
}

#[test]
fn plain_sqlx_errors() {
    assert!(sqlx_error_is_malformed(&SqlxError::Database {
        code: Some("11".to_string()),
        message: "x".to_string(),
    }));
    assert!(sqlx_error_is_malformed(&SqlxError::Database {
        code: None,
        message: "database is corrupt".to_string(),
    }));
    assert!(!sqlx_error_is_malformed(&SqlxError::Database {
        code: None,
        message: "x".to_string(),
    }));
    assert!(sqlx_error_is_malformed(&SqlxError::Other {
        message: "database is corrupt".to_string(),
    }));
    assert!(!sqlx_error_is_malformed(&SqlxError::Other {
        message: "pool closed".to_string(),
    }));
}

#[test]
fn chains_of_causes() {
    assert!(!causes_are_malformed(&vec![]));
    assert!(!causes_are_malformed(&vec![cause("a"), cause("b")]));
    assert!(causes_are_malformed(&vec![
        cause("a"),
        cause("file is not a database"),
    ]));
    assert!(causes_are_malformed(&vec![
        cause("a"),
        ErrorCause {
            message: "b".to_string(),
            sqlx: Some(SqlxError::Database {
                code: Some("26".to_string()),
                message: "c".to_string(),
            }),
        },
    ]));
}
