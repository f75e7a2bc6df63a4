//! The error type of the server and of the client.

use vstd::prelude::*;
use vstd::string::*;

verus! {

/// `std::io::Error`, carried through unread.
#[verifier::external_type_specification]
#[verifier::external_body]
pub struct ExIoError(std::io::Error);

/// `std::string::FromUtf8Error`, carried through unread.
#[verifier::external_type_specification]
#[verifier::external_body]
pub struct ExFromUtf8Error(std::string::FromUtf8Error);

/// Everything that can go wrong in the server or in the client.
#[derive(Debug)]
pub enum ServerError {
    EnvErr(String),
    IoErr(std::io::Error),
    InvalidRedisType(String),
    InvalidRedisCommand(String),
    NoRedisKey(String),
    InvalidSnapshot(String),
    SnapshotCorrupted(String),
    InvalidUtf8(std::string::FromUtf8Error),
    ServerResponse(String),
}

/// What a `ServerError` says: its variant and, where it has one, its text.
pub enum ErrorView {
    EnvErr(Seq<char>),
    IoErr,
    InvalidRedisType(Seq<char>),
    InvalidRedisCommand(Seq<char>),
    NoRedisKey(Seq<char>),
    InvalidSnapshot(Seq<char>),
    SnapshotCorrupted(Seq<char>),
    InvalidUtf8,
    ServerResponse(Seq<char>),
}

impl View for ServerError {
    type V = ErrorView;

    open spec fn view(&self) -> ErrorView {
        match self {
            ServerError::EnvErr(s) => ErrorView::EnvErr(s@),
            ServerError::IoErr(_) => ErrorView::IoErr,
            ServerError::InvalidRedisType(s) => ErrorView::InvalidRedisType(s@),
            ServerError::InvalidRedisCommand(s) => ErrorView::InvalidRedisCommand(s@),
            ServerError::NoRedisKey(s) => ErrorView::NoRedisKey(s@),
            ServerError::InvalidSnapshot(s) => ErrorView::InvalidSnapshot(s@),
            ServerError::SnapshotCorrupted(s) => ErrorView::SnapshotCorrupted(s@),
            ServerError::InvalidUtf8(_) => ErrorView::InvalidUtf8,
            ServerError::ServerResponse(s) => ErrorView::ServerResponse(s@),
        }
    }
}

/// The text with which an error of each variant is shown, before what it carries.
pub open spec fn error_prefix(e: ErrorView) -> Seq<char> {
    match e {
        ErrorView::EnvErr(_) => "Env_err : "@,
        ErrorView::IoErr => "io_err : "@,
        ErrorView::InvalidRedisType(_) => "InvalidRedisType : "@,
        ErrorView::InvalidRedisCommand(_) => "InvalidRedisCommand : "@,
        ErrorView::NoRedisKey(_) => "NoRedisKey : "@,
        ErrorView::InvalidSnapshot(_) => "Invalid snapshot: "@,
        ErrorView::SnapshotCorrupted(_) => "Snapshot corrupted: "@,
        ErrorView::InvalidUtf8 => "Invalid UTF-8 data: "@,
        ErrorView::ServerResponse(_) => "ServerRsponseError : "@,
    }
}

/// The full text of an error that carries its own message; `None` for the
/// variants that carry an error of the standard library.
pub open spec fn error_text(e: ErrorView) -> Option<Seq<char>> {
    match e {
        ErrorView::EnvErr(s) => Some(error_prefix(e) + s),
        ErrorView::InvalidRedisType(s) => Some(error_prefix(e) + s),
        ErrorView::InvalidRedisCommand(s) => Some(error_prefix(e) + s),
        ErrorView::NoRedisKey(s) => Some(error_prefix(e) + s),
        ErrorView::InvalidSnapshot(s) => Some(error_prefix(e) + s),
        ErrorView::SnapshotCorrupted(s) => Some(error_prefix(e) + s),
        ErrorView::ServerResponse(s) => Some(error_prefix(e) + s),
        _ => None,
    }
}

/// The text of a `std::io::Error` (its `Display`). Nothing is stated of
/// the text, which the operating system supplies.
#[verifier::external_body]
fn io_error_text(e: &std::io::Error) -> String {
    e.to_string()
}

/// The text of a `std::string::FromUtf8Error` (its `Display`). Nothing
/// is stated of the text.
#[verifier::external_body]
pub(crate) fn utf8_error_text(e: &std::string::FromUtf8Error) -> String {
    e.to_string()
}

impl ServerError {
    /// The error as text: a prefix that names the variant, then what the
    /// variant carries.
    pub fn message(&self) -> (m: String)
        ensures
            error_prefix(self@).is_prefix_of(m@),
            error_text(self@) matches Some(t) ==> m@ == t,
    {
        let (mut m, rest) = match self {
            ServerError::EnvErr(s) => ("Env_err : ".to_string(), s.clone()),
            ServerError::IoErr(e) => ("io_err : ".to_string(), io_error_text(e)),
            ServerError::NoRedisKey(s) => ("NoRedisKey : ".to_string(), s.clone()),
            ServerError::InvalidRedisType(s) => ("InvalidRedisType : ".to_string(), s.clone()),
            ServerError::InvalidRedisCommand(s) => (
                "InvalidRedisCommand : ".to_string(),
                s.clone(),
            ),
            ServerError::InvalidSnapshot(s) => ("Invalid snapshot: ".to_string(), s.clone()),
            ServerError::SnapshotCorrupted(s) => ("Snapshot corrupted: ".to_string(), s.clone()),
            ServerError::InvalidUtf8(e) => ("Invalid UTF-8 data: ".to_string(), utf8_error_text(e)),
            ServerError::ServerResponse(s) => ("ServerRsponseError : ".to_string(), s.clone()),
        };
        let ghost p = m@;
        m.append(rest.as_str());
        assert(p.is_prefix_of(m@)) by {
            assert(m@.subrange(0, p.len() as int) =~= p);
        }
        m
    }
}

impl From<std::io::Error> for ServerError {
    fn from(error: std::io::Error) -> (r: Self) {
        ServerError::IoErr(error)
    }
}

impl vstd::std_specs::convert::FromSpecImpl<std::io::Error> for ServerError {
    open spec fn obeys_from_spec() -> bool {
        true
    }

    open spec fn from_spec(v: std::io::Error) -> Self {
        ServerError::IoErr(v)
    }
}

impl From<std::string::FromUtf8Error> for ServerError {
    fn from(error: std::string::FromUtf8Error) -> (r: Self) {
        ServerError::InvalidUtf8(error)
    }
}

impl vstd::std_specs::convert::FromSpecImpl<std::string::FromUtf8Error> for ServerError {
    open spec fn obeys_from_spec() -> bool {
        true
    }

    open spec fn from_spec(v: std::string::FromUtf8Error) -> Self {
        ServerError::InvalidUtf8(v)
    }
}

} // verus!
