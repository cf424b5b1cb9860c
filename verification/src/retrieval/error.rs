//! The errors of the retrieval index and their stable codes.
use crate::text::{concat, owned, starts_with};
use vstd::prelude::*;

verus! {

/// `std::io::Error`, carried opaquely.
#[verifier::external_type_specification]
#[verifier::external_body]
pub struct ExIoError(std::io::Error);

/// `rusqlite::Error`, carried opaquely.
#[verifier::external_type_specification]
#[verifier::external_body]
pub struct ExSqliteError(rusqlite::Error);

#[derive(Debug)]
pub enum RetrievalError {
    InvalidConfig(String),
    RootIndexDenied,
    EmptyQuery,
    InsecureIndexPermissions(String),
    Canonicalize { path: String, source: std::io::Error },
    Io { path: String, source: std::io::Error },
    CorruptDatabase { path: String, details: String },
    Sqlite(rusqlite::Error),
}

/// The stable machine-readable code of each error.
pub open spec fn error_code(e: RetrievalError) -> Seq<char> {
    match e {
        RetrievalError::InvalidConfig(_) => "invalid_config"@,
        RetrievalError::RootIndexDenied => "root_index_denied"@,
        RetrievalError::EmptyQuery => "empty_query"@,
        RetrievalError::InsecureIndexPermissions(_) => "insecure_index_permissions"@,
        RetrievalError::Canonicalize { .. } => "canonicalize_failed"@,
        RetrievalError::Io { .. } => "io_error"@,
        RetrievalError::CorruptDatabase { .. } => "corrupt_database"@,
        RetrievalError::Sqlite(_) => "sqlite_error"@,
    }
}

/// `Display` of `std::io::Error`: the operating system's description.
/// Nothing is stated of the text.
#[verifier::external_body]
fn io_error_text(e: &std::io::Error) -> String {
    e.to_string()
}

/// `Display` of `rusqlite::Error`. Nothing is stated of the text.
#[verifier::external_body]
fn sqlite_error_text(e: &rusqlite::Error) -> String {
    e.to_string()
}

/// The text of an error up to the words of the operating system or SQLite
/// that end it, if any.
pub open spec fn message_head(e: RetrievalError) -> Seq<char> {
    match e {
        RetrievalError::InvalidConfig(m) => "invalid retrieval config: "@ + m@,
        RetrievalError::RootIndexDenied => "indexing must run as a non-root identity"@,
        RetrievalError::EmptyQuery => "query contains no searchable tokens"@,
        RetrievalError::InsecureIndexPermissions(m) => "index file has insecure permissions: "@
            + m@,
        RetrievalError::Canonicalize { path, .. } => "failed to canonicalize "@ + path@ + ": "@,
        RetrievalError::Io { path, .. } => "I/O error at "@ + path@ + ": "@,
        RetrievalError::CorruptDatabase { path, details } => "database corruption detected at "@
            + path@ + ": "@ + details@,
        RetrievalError::Sqlite(_) => "sqlite error: "@,
    }
}

/// The error's text is all its own.
pub open spec fn message_complete(e: RetrievalError) -> bool {
    !(e is Canonicalize || e is Io || e is Sqlite)
}

impl RetrievalError {
    pub fn code(&self) -> (r: &'static str)
        ensures
            r@ == error_code(*self),
    {
        match self {
            RetrievalError::InvalidConfig(_) => "invalid_config",
            RetrievalError::RootIndexDenied => "root_index_denied",
            RetrievalError::EmptyQuery => "empty_query",
            RetrievalError::InsecureIndexPermissions(_) => "insecure_index_permissions",
            RetrievalError::Canonicalize { .. } => "canonicalize_failed",
            RetrievalError::Io { .. } => "io_error",
            RetrievalError::CorruptDatabase { .. } => "corrupt_database",
            RetrievalError::Sqlite(_) => "sqlite_error",
        }
    }

    pub fn io(path: String, source: std::io::Error) -> (r: Self)
        ensures
            r matches RetrievalError::Io { path: p, .. } && p@ == path@,
    {
        RetrievalError::Io { path, source }
    }

    /// The human-readable text of the error; the operating system's or
    /// SQLite's own words end the messages that wrap their errors.
    pub fn message(&self) -> (r: String)
        ensures
            message_complete(*self) ==> r@ == message_head(*self),
            starts_with(r@, message_head(*self)),
    {
        let r = match self {
            RetrievalError::InvalidConfig(m) => concat("invalid retrieval config: ", m.as_str()),
            RetrievalError::RootIndexDenied => owned("indexing must run as a non-root identity"),
            RetrievalError::EmptyQuery => owned("query contains no searchable tokens"),
            RetrievalError::InsecureIndexPermissions(m) => concat(
                "index file has insecure permissions: ",
                m.as_str(),
            ),
            RetrievalError::Canonicalize { path, source } => {
                let head = concat(concat("failed to canonicalize ", path.as_str()).as_str(), ": ");
                concat(head.as_str(), io_error_text(source).as_str())
            },
            RetrievalError::Io { path, source } => {
                let head = concat(concat("I/O error at ", path.as_str()).as_str(), ": ");
                concat(head.as_str(), io_error_text(source).as_str())
            },
            RetrievalError::CorruptDatabase { path, details } => {
                let head = concat(
                    concat("database corruption detected at ", path.as_str()).as_str(),
                    ": ",
                );
                concat(head.as_str(), details.as_str())
            },
            RetrievalError::Sqlite(e) => concat("sqlite error: ", sqlite_error_text(e).as_str()),
        };
        proof {
            let h = message_head(*self);
            if message_complete(*self) {
                assert(r@ =~= h);
            }
            assert(r@.take(h.len() as int) =~= h);
        }
        r
    }
}

} // verus!
