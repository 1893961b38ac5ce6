//! Telling whether an error says that a SQLite database file is damaged.
use std::fmt::Write;

use vstd::prelude::*;

use crate::text::{
    ascii_lowercase, contains_text, has_text, lowercase_chars, occurs_at, parse_i32, parsed_i32,
    signed_decimal,
};
use crate::text_laws::{lower_case_changes_letters_alone, signed_numbers_read_back};

verus! {

/// SQLite's result code for a damaged database image.
pub const SQLITE_CORRUPT: i32 = 11;

/// SQLite's result code for a file that is no database.
pub const SQLITE_NOTADB: i32 = 26;

/// What a SQLx error says, in plain values.
pub enum SqlxError {
    /// The database itself reported the error, under an optional result code.
    Database { code: Option<String>, message: String },
    /// Any other SQLx error, by its display text.
    Other { message: String },
}

/// The model of what a SQLx error says.
pub enum SqlxErrorView {
    Database { code: Option<Seq<char>>, message: Seq<char> },
    Other { message: Seq<char> },
}

impl View for SqlxError {
    type V = SqlxErrorView;

    open spec fn view(&self) -> SqlxErrorView {
        match self {
            SqlxError::Database { code, message } => SqlxErrorView::Database {
                code: match code {
                    Some(code) => Some(code@),
                    None => None,
                },
                message: message@,
            },
            SqlxError::Other { message } => SqlxErrorView::Other { message: message@ },
        }
    }
}

/// One link of an error's chain of causes: its display text and, where the
/// link is a SQLx error, what that error says.
pub struct ErrorCause {
    pub message: String,
    pub sqlx: Option<SqlxError>,
}

/// The model of one link of an error's chain of causes.
pub struct ErrorCauseView {
    pub message: Seq<char>,
    pub sqlx: Option<SqlxErrorView>,
}

impl View for ErrorCause {
    type V = ErrorCauseView;

    open spec fn view(&self) -> ErrorCauseView {
        ErrorCauseView {
            message: self.message@,
            sqlx: match self.sqlx {
                Some(err) => Some(err@),
                None => None,
            },
        }
    }
}

/// The model of a chain of causes.
pub open spec fn cause_views(causes: Seq<ErrorCause>) -> Seq<ErrorCauseView> {
    causes.map_values(|cause: ErrorCause| cause@)
}

// ---------------------------------------------------------------------------
// What counts as damage
// ---------------------------------------------------------------------------

/// `code` writes a result code whose primary code, its low byte, is that of a
/// damaged database.
pub open spec fn code_malformed(code: Seq<char>) -> bool {
    match parse_i32(code) {
        Some(code) => (code & 0xff) == SQLITE_CORRUPT || (code & 0xff) == SQLITE_NOTADB,
        None => false,
    }
}

/// `message` says, in any mix of upper and lower case, that a database is
/// damaged.
pub open spec fn message_malformed(message: Seq<char>) -> bool {
    let lower = ascii_lowercase(message);
    ||| contains_text(lower, "database disk image is malformed"@)
    ||| contains_text(lower, "file is not a database"@)
    ||| contains_text(lower, "database schema is malformed"@)
    ||| contains_text(lower, "database is corrupt"@)
    ||| contains_text(lower, "database"@) && contains_text(lower, "malformed"@)
}

/// A SQLx error says that a database is damaged: by its code or its message
/// if the database reported it, by its display text if not.
pub open spec fn sqlx_malformed(err: SqlxErrorView) -> bool {
    match err {
        SqlxErrorView::Database { code, message } => {
            ||| code is Some && code_malformed(code->0)
            ||| message_malformed(message)
        },
        SqlxErrorView::Other { message } => message_malformed(message),
    }
}

/// A link of a chain says that a database is damaged.
pub open spec fn cause_malformed(cause: ErrorCauseView) -> bool {
    ||| cause.sqlx is Some && sqlx_malformed(cause.sqlx->0)
    ||| message_malformed(cause.message)
}

/// Some link of `chain` says that a database is damaged.
pub open spec fn chain_malformed(chain: Seq<ErrorCauseView>) -> bool {
    exists|i: int| 0 <= i < chain.len() && cause_malformed(#[trigger] chain[i])
}

/// Tests a result code, written in decimal, for a primary code of damage.
pub fn sqlite_code_is_malformed(code: &str) -> (malformed: bool)
    ensures
        malformed == code_malformed(code@),
{
    match parsed_i32(code) {
        Some(code) => {
            let primary_code: i32 = code & 0xff;
            primary_code == SQLITE_CORRUPT || primary_code == SQLITE_NOTADB
        },
        None => false,
    }
}

/// Tests whether a message says that a database is damaged.
pub fn error_message_is_malformed(message: &str) -> (malformed: bool)
    ensures
        malformed == message_malformed(message@),
{
    let lower = lowercase_chars(message);
    has_text(&lower, "database disk image is malformed") || has_text(
        &lower,
        "file is not a database",
    ) || has_text(&lower, "database schema is malformed") || has_text(&lower, "database is corrupt")
        || (has_text(&lower, "database") && has_text(&lower, "malformed"))
}

/// Tests whether a SQLx error says that a database is damaged.
pub fn sqlx_error_is_malformed(err: &SqlxError) -> (malformed: bool)
    ensures
        malformed == sqlx_malformed(err@),
{
    match err {
        SqlxError::Database { code, message } => {
            let by_code = match code {
                Some(code) => sqlite_code_is_malformed(code.as_str()),
                None => false,
            };
            by_code || error_message_is_malformed(message.as_str())
        },
        SqlxError::Other { message } => error_message_is_malformed(message.as_str()),
    }
}

/// Tests whether a chain of causes says that a database is damaged. Result
/// codes are looked at first, then every message: a wrapper may have kept no
/// more than the text of the error below it.
pub fn causes_are_malformed(causes: &Vec<ErrorCause>) -> (malformed: bool)
    ensures
        malformed == chain_malformed(cause_views(causes@)),
{
    let ghost chain = cause_views(causes@);
    let mut i: usize = 0;
    while i < causes.len()
        invariant
            i <= causes@.len(),
            chain == cause_views(causes@),
            forall|j: int|
                0 <= j < i ==> !((#[trigger] chain[j]).sqlx is Some && sqlx_malformed(
                    chain[j].sqlx->0,
                )),
        decreases causes@.len() - i,
    {
        assert(chain[i as int] == causes@[i as int]@);
        if let Some(err) = &causes[i].sqlx {
            if sqlx_error_is_malformed(err) {
                assert(cause_malformed(chain[i as int]));
                return true;
            }
        }
        i = i + 1;
    }
    let mut i: usize = 0;
    while i < causes.len()
        invariant
            i <= causes@.len(),
            chain == cause_views(causes@),
            forall|j: int|
                0 <= j < chain.len() ==> !((#[trigger] chain[j]).sqlx is Some && sqlx_malformed(
                    chain[j].sqlx->0,
                )),
            forall|j: int| 0 <= j < i ==> !message_malformed((#[trigger] chain[j]).message),
        decreases causes@.len() - i,
    {
        assert(chain[i as int] == causes@[i as int]@);
        if error_message_is_malformed(causes[i].message.as_str()) {
            assert(cause_malformed(chain[i as int]));
            return true;
        }
        i = i + 1;
    }
    false
}

// ---------------------------------------------------------------------------
// Errors of the `anyhow` crate
// ---------------------------------------------------------------------------

/// An error of the `anyhow` crate, with the causes below it.
#[verifier::external_type_specification]
#[verifier::external_body]
pub struct ExAnyhowError(anyhow::Error);

/// `chain` is what walking the causes of `err` shows: the error itself and
/// then, link by link, the source of the link before, each by its display text
/// and, where it is a SQLx error, by what that error reports of itself. An
/// error may show more than one chain: the operating system words its errors in
/// the language of the machine.
pub uninterp spec fn shows_chain(err: anyhow::Error, chain: Seq<ErrorCauseView>) -> bool;

/// `anyhow::Error::chain`, which hands out the error itself and then, link by
/// link, the source of the link before. Each link is taken by its display text
/// and, where `downcast_ref` finds a `sqlx::Error`, by what that error reports
/// of itself. The contract says that the links are a chain that the error
/// shows, and that there is at least one. Which texts these are is left open:
/// they come from each error's own `Display`, `message` and `code`, and two
/// walks need not agree on them. A `Display` that fails leaves the text it had
/// written.
#[verifier::external_body]
fn error_causes(err: &anyhow::Error) -> (causes: Vec<ErrorCause>)
    ensures
        shows_chain(*err, cause_views(causes@)),
        causes@.len() > 0,
{
    let shown = |value: &dyn std::fmt::Display| {
        let mut text = String::new();
        let _ = write!(text, "{value}");
        text
    };
    err.chain().map(|cause| ErrorCause {
        message: shown(&cause),
        sqlx: cause.downcast_ref::<sqlx::Error>().map(|err| match err {
            sqlx::Error::Database(err) => SqlxError::Database {
                code: err.code().map(String::from),
                message: err.message().to_string(),
            },
            other => SqlxError::Other { message: shown(other) },
        }),
    }).collect()
}

/// Tests whether an error, or anything below it, says that a database is
/// damaged: the answer is that of `causes_are_malformed` on a chain that the
/// error shows.
pub fn is_malformed_sqlite_error(err: &anyhow::Error) -> (malformed: bool)
    ensures
        exists|chain: Seq<ErrorCauseView>|
            {
                &&& #[trigger] shows_chain(*err, chain)
                &&& chain.len() > 0
                &&& malformed == chain_malformed(chain)
            },
{
    let causes = error_causes(err);
    causes_are_malformed(&causes)
}

// ---------------------------------------------------------------------------
// Laws
// ---------------------------------------------------------------------------

/// A text within a text is still within a longer one.
proof fn lemma_contains_widens(
    before: Seq<char>,
    hay: Seq<char>,
    after: Seq<char>,
    needle: Seq<char>,
)
    requires
        contains_text(hay, needle),
    ensures
        contains_text(before + hay + after, needle),
{
    let at = choose|at: int| occurs_at(hay, needle, at);
    let wide = before + hay + after;
    let there = before.len() + at;
    assert(wide.subrange(there, there + needle.len()) =~= hay.subrange(at, at + needle.len()));
    assert(occurs_at(wide, needle, there));
}

/// Quoting a message of damage inside another message keeps it one.
pub proof fn quoting_keeps_damage(before: Seq<char>, message: Seq<char>, after: Seq<char>)
    requires
        message_malformed(message),
    ensures
        message_malformed(before + message + after),
{
    let lower = ascii_lowercase(message);
    let wide = ascii_lowercase(before + message + after);
    let start = ascii_lowercase(before);
    let end = ascii_lowercase(after);
    assert(wide =~= start + lower + end);
    assert forall|needle: Seq<char>| #[trigger] contains_text(lower, needle) implies contains_text(
        wide,
        needle,
    ) by {
        lemma_contains_widens(start, lower, end, needle);
    }
}

/// Whether a message tells of damage does not depend on the case of its
/// letters.
pub proof fn damage_ignores_case(message: Seq<char>, other: Seq<char>)
    requires
        ascii_lowercase(message) == ascii_lowercase(other),
    ensures
        message_malformed(message) == message_malformed(other),
{
}

/// Wrapping an error into another one hides no damage and makes none up: what
/// is wrapped is damage if the outer error tells of it or the inner ones do.
pub proof fn wrapping_hides_no_damage(outer: ErrorCauseView, chain: Seq<ErrorCauseView>)
    ensures
        chain_malformed(seq![outer] + chain) == (cause_malformed(outer) || chain_malformed(chain)),
{
    let all = seq![outer] + chain;
    assert(all[0] == outer);
    if chain_malformed(chain) {
        let i = choose|i: int| 0 <= i < chain.len() && cause_malformed(#[trigger] chain[i]);
        assert(all[i + 1] == chain[i]);
    }
    if chain_malformed(all) {
        let i = choose|i: int| 0 <= i < all.len() && cause_malformed(#[trigger] all[i]);
        if i > 0 {
            assert(chain[i - 1] == all[i]);
        }
    }
}

/// An extended result code counts by its primary code: adding any multiple of
/// 256 to a code changes nothing.
pub proof fn extended_codes_count_by_primary_code(code: Seq<char>, primary: Seq<char>)
    requires
        parse_i32(code) is Some,
        parse_i32(primary) is Some,
        (parse_i32(code)->0) % 256 == (parse_i32(primary)->0) % 256,
    ensures
        code_malformed(code) == code_malformed(primary),
{
    let a = parse_i32(code)->0;
    let b = parse_i32(primary)->0;
    assert((a & 0xff) == a % 256) by (bit_vector);
    assert((b & 0xff) == b % 256) by (bit_vector);
}

/// A result code, written in decimal, tells of damage exactly if its low byte is
/// 11 or 26; what is no number does not.
pub proof fn codes_tell_by_their_low_byte(value: i32, text: Seq<char>)
    ensures
        code_malformed(signed_decimal(value as int)) <==> value % 256 == 11 || value % 256 == 26,
        parse_i32(text) is None ==> !code_malformed(text),
{
    signed_numbers_read_back(value);
    assert((value & 0xff) == value % 256) by (bit_vector);
}

/// A text within a text within a third is within the third.
proof fn lemma_contains_transitive(a: Seq<char>, b: Seq<char>, c: Seq<char>)
    requires
        contains_text(a, b),
        contains_text(b, c),
    ensures
        contains_text(a, c),
{
    let x = choose|x: int| occurs_at(a, b, x);
    let y = choose|y: int| occurs_at(b, c, y);
    assert(a.subrange(x + y, x + y + c.len()) =~= a.subrange(x, x + b.len()).subrange(
        y,
        y + c.len(),
    ));
    assert(occurs_at(a, c, x + y));
}

/// A message tells of damage exactly if it says, in any mix of upper and lower
/// case, that a file is no database, that a database is corrupt, or anything of
/// a database and of malformed.
pub proof fn messages_tell_by_what_they_say(message: Seq<char>, lower: Seq<char>)
    requires
        lower.len() == message.len(),
        forall|i: int|
            0 <= i < message.len() ==> if 'A' <= message[i] && message[i] <= 'Z' {
                #[trigger] lower[i] as int == message[i] as int + 32
            } else {
                lower[i] == message[i]
            },
    ensures
        message_malformed(message) <==> {
            ||| contains_text(lower, "file is not a database"@)
            ||| contains_text(lower, "database is corrupt"@)
            ||| contains_text(lower, "database"@) && contains_text(lower, "malformed"@)
        },
{
    lower_case_changes_letters_alone(message);
    assert(ascii_lowercase(message) =~= lower) by {
        assert forall|i: int| 0 <= i < lower.len() implies ascii_lowercase(message)[i] == lower[i] by {
            let c = ascii_lowercase(message)[i];
            assert(c as int == lower[i] as int);
        }
    }
    reveal_strlit("database disk image is malformed");
    reveal_strlit("database schema is malformed");
    reveal_strlit("database");
    reveal_strlit("malformed");
    let image = "database disk image is malformed"@;
    let schema = "database schema is malformed"@;
    assert(image.subrange(0, 8) =~= "database"@);
    assert(occurs_at(image, "database"@, 0));
    assert(image.subrange(23, 32) =~= "malformed"@);
    assert(occurs_at(image, "malformed"@, 23));
    assert(schema.subrange(0, 8) =~= "database"@);
    assert(occurs_at(schema, "database"@, 0));
    assert(schema.subrange(19, 28) =~= "malformed"@);
    assert(occurs_at(schema, "malformed"@, 19));
    if contains_text(lower, image) {
        lemma_contains_transitive(lower, image, "database"@);
        lemma_contains_transitive(lower, image, "malformed"@);
    }
    if contains_text(lower, schema) {
        lemma_contains_transitive(lower, schema, "database"@);
        lemma_contains_transitive(lower, schema, "malformed"@);
    }
}

/// A chain of causes tells of damage exactly if one of its links does: by its
/// text or, where it is a SQLx error, by the code or the message that the
/// database gave, or else by its own text.
pub proof fn chains_tell_link_by_link(chain: Seq<ErrorCauseView>)
    ensures
        chain_malformed(chain) <==> exists|i: int|
            0 <= i < chain.len() && {
                ||| message_malformed((#[trigger] chain[i]).message)
                ||| match chain[i].sqlx {
                    None => false,
                    Some(SqlxErrorView::Other { message }) => message_malformed(message),
                    Some(SqlxErrorView::Database { code, message }) => message_malformed(message)
                        || match code {
                        Some(code) => code_malformed(code),
                        None => false,
                    },
                }
            },
{
    if chain_malformed(chain) {
        let i = choose|i: int| 0 <= i < chain.len() && cause_malformed(#[trigger] chain[i]);
        assert(cause_malformed(chain[i]));
    }
    if exists|i: int|
        0 <= i < chain.len() && {
            ||| message_malformed((#[trigger] chain[i]).message)
            ||| match chain[i].sqlx {
                None => false,
                Some(SqlxErrorView::Other { message }) => message_malformed(message),
                Some(SqlxErrorView::Database { code, message }) => message_malformed(message)
                    || match code {
                    Some(code) => code_malformed(code),
                    None => false,
                },
            }
        } {
        let i = choose|i: int|
            0 <= i < chain.len() && {
                ||| message_malformed((#[trigger] chain[i]).message)
                ||| match chain[i].sqlx {
                    None => false,
                    Some(SqlxErrorView::Other { message }) => message_malformed(message),
                    Some(SqlxErrorView::Database { code, message }) => message_malformed(message)
                        || match code {
                        Some(code) => code_malformed(code),
                        None => false,
                    },
                }
            };
        assert(cause_malformed(chain[i]));
    }
}

/// A SQLx error tells of damage by the database's code or message, or else by
/// its own text.
pub proof fn sqlx_errors_tell_by_code_or_message(
    code: Option<Seq<char>>,
    message: Seq<char>,
)
    ensures
        sqlx_malformed(SqlxErrorView::Other { message }) == message_malformed(message),
        sqlx_malformed(SqlxErrorView::Database { code, message }) <==> message_malformed(message)
            || (code is Some && code_malformed(code->0)),
{
}

} // verus!
