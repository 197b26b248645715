//! The error taxonomy: typed kinds with a human message.
//!
//! The kind determines programmatic handling and the HTTP status the control
//! plane answers with; the message is carried verbatim into response bodies.

use vstd::prelude::*;
use vstd::string::*;

verus! {

/// What went wrong, as a programmatic category.
#[derive(Clone, Copy, Debug, PartialEq, Eq, Structural)]
pub enum ErrorKind {
    IOError,
    EncodingError,
    DaemonError,
    StorageError,
    QMPError,
    AlreadyRunning,
    AlreadyStopped,
    AlreadyExists,
    NoSuchEntity,
    Pending,
}

/// An error: a kind plus a human message.
#[derive(Clone, Debug)]
pub struct Error {
    kind: ErrorKind,
    message: String,
}

/// The display form of an error, by kind: a fixed phrase for the state
/// errors, a prefixed message for the infrastructure errors, and the
/// message verbatim where the message already tells the whole story.
pub open spec fn spec_display(kind: ErrorKind, message: Seq<char>) -> Seq<char> {
    match kind {
        ErrorKind::IOError => "i/o error: "@ + message,
        ErrorKind::EncodingError => "encoding error: "@ + message,
        ErrorKind::DaemonError => "daemon error: "@ + message,
        ErrorKind::StorageError => "storage error: "@ + message,
        ErrorKind::QMPError => message,
        ErrorKind::AlreadyRunning => "Already running."@,
        ErrorKind::AlreadyStopped => "Already stopped."@,
        ErrorKind::AlreadyExists => "Already exists."@,
        ErrorKind::NoSuchEntity => "No such entity."@,
        ErrorKind::Pending => message,
    }
}

/// The canonical error-to-HTTP-status projection of the control plane.
pub open spec fn spec_status_code(kind: ErrorKind) -> u16 {
    match kind {
        ErrorKind::AlreadyRunning => 304,
        ErrorKind::AlreadyStopped => 304,
        ErrorKind::AlreadyExists => 409,
        ErrorKind::NoSuchEntity => 404,
        ErrorKind::Pending => 503,
        _ => 500,
    }
}

impl Error {
    pub closed spec fn spec_kind(&self) -> ErrorKind {
        self.kind
    }

    pub closed spec fn spec_message(&self) -> Seq<char> {
        self.message@
    }

    pub fn new(kind: ErrorKind, message: &str) -> (r: Self)
        ensures
            r.spec_kind() == kind,
            r.spec_message() == message@,
    {
        Self { kind, message: String::from_str(message) }
    }

    pub fn from_string(kind: ErrorKind, message: String) -> (r: Self)
        ensures
            r.spec_kind() == kind,
            r.spec_message() == message@,
    {
        Self { kind, message }
    }

    pub fn kind(&self) -> (r: ErrorKind)
        ensures
            r == self.spec_kind(),
    {
        self.kind
    }

    pub fn message(&self) -> (r: &str)
        ensures
            r@ == self.spec_message(),
    {
        self.message.as_str()
    }

    /// The display string of the error, used as an HTTP response body and
    /// printed by the command-line client.
    pub fn display_string(&self) -> (r: String)
        ensures
            r@ == spec_display(self.spec_kind(), self.spec_message()),
    {
        match self.kind {
            ErrorKind::IOError => String::from_str("i/o error: ").concat(self.message.as_str()),
            ErrorKind::EncodingError => String::from_str("encoding error: ").concat(
                self.message.as_str(),
            ),
            ErrorKind::DaemonError => String::from_str("daemon error: ").concat(
                self.message.as_str(),
            ),
            ErrorKind::StorageError => String::from_str("storage error: ").concat(
                self.message.as_str(),
            ),
            ErrorKind::QMPError => self.message.clone(),
            ErrorKind::AlreadyRunning => String::from_str("Already running."),
            ErrorKind::AlreadyStopped => String::from_str("Already stopped."),
            ErrorKind::AlreadyExists => String::from_str("Already exists."),
            ErrorKind::NoSuchEntity => String::from_str("No such entity."),
            ErrorKind::Pending => self.message.clone(),
        }
    }

    /// The HTTP status code the control plane answers with for this error.
    pub fn status_code(&self) -> (r: u16)
        ensures
            r == spec_status_code(self.spec_kind()),
    {
        match self.kind {
            ErrorKind::AlreadyRunning => 304,
            ErrorKind::AlreadyStopped => 304,
            ErrorKind::AlreadyExists => 409,
            ErrorKind::NoSuchEntity => 404,
            ErrorKind::Pending => 503,
            _ => 500,
        }
    }
}

/// The SQLite extended result code for a UNIQUE-constraint violation.
pub const SQLITE_CONSTRAINT_UNIQUE: i32 = 2067;

/// Projects the outcome of a failed database call onto the error taxonomy.
///
/// A statement failure carrying the UNIQUE-constraint extended code becomes
/// `AlreadyExists`; an empty query result becomes `NoSuchEntity`; anything
/// else is a `StorageError`.  The database driver's error value is taken
/// apart outside the library; this function receives its plain parts.
pub fn sqlite_error(no_rows: bool, extended_code: Option<i32>, message: String) -> (r: Error)
    ensures
        r.spec_message() == message@,
        no_rows ==> r.spec_kind() == ErrorKind::NoSuchEntity,
        !no_rows && extended_code == Some(SQLITE_CONSTRAINT_UNIQUE) ==> r.spec_kind()
            == ErrorKind::AlreadyExists,
        !no_rows && extended_code != Some(SQLITE_CONSTRAINT_UNIQUE) ==> r.spec_kind()
            == ErrorKind::StorageError,
{
    if no_rows {
        Error::from_string(ErrorKind::NoSuchEntity, message)
    } else {
        match extended_code {
            Some(code) if code == SQLITE_CONSTRAINT_UNIQUE => Error::from_string(
                ErrorKind::AlreadyExists,
                message,
            ),
            _ => Error::from_string(ErrorKind::StorageError, message),
        }
    }
}

/// Decodes an HTTP status answered by the daemon back into the taxonomy:
/// the client-side inverse of the canonical mapping, as far as the codes
/// allow it to be inverted.
pub fn decode_status(code: u32, contents: String) -> (r: Result<(), Error>)
    ensures
        code == 200 <==> r is Ok,
        code == 404 ==> (r matches Err(e) && e.spec_kind() == ErrorKind::NoSuchEntity
            && e.spec_message() == contents@),
        code == 409 ==> (r matches Err(e) && e.spec_kind() == ErrorKind::AlreadyExists
            && e.spec_message() == contents@),
        code == 503 ==> (r matches Err(e) && e.spec_kind() == ErrorKind::Pending
            && e.spec_message() == contents@),
        code != 200 && code != 404 && code != 409 && code != 503 ==> (r matches Err(e)
            && e.spec_kind() == ErrorKind::IOError && e.spec_message() == contents@),
{
    match code {
        200 => Ok(()),
        404 => Err(Error::from_string(ErrorKind::NoSuchEntity, contents)),
        409 => Err(Error::from_string(ErrorKind::AlreadyExists, contents)),
        503 => Err(Error::from_string(ErrorKind::Pending, contents)),
        _ => Err(Error::from_string(ErrorKind::IOError, contents)),
    }
}

} // verus!
