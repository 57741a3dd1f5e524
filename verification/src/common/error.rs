//! The error type of the storage core.

use vstd::prelude::*;
use vstd::std_specs::convert::IntoSpec;

verus! {

/// Everything that an operation of this crate can report as a failure.
#[derive(Debug, Clone, PartialEq)]
pub enum Error {
    /// An I/O operation failed.
    Io(String),
    /// A page failed its integrity check.
    Corruption(String),
    /// An argument was not acceptable.
    InvalidInput(String),
    /// A resource was not found.
    NotFound(String),
    /// An operation would exceed the memory limit.
    OutOfMemory,
    /// A transaction conflict or deadlock.
    TransactionConflict(String),
    /// An internal error.
    Internal(String),
    /// A byte that is not the tag of any page type.
    InvalidPageType(u8),
}

/// What `to_string` gives for every error but `InvalidPageType`: a fixed
/// prefix that names the kind, then the message.
pub open spec fn display_text(e: Error) -> Seq<char> {
    match e {
        Error::Io(msg) => "I/O error: "@ + msg@,
        Error::Corruption(msg) => "Database corruption: "@ + msg@,
        Error::InvalidInput(msg) => "Invalid input: "@ + msg@,
        Error::NotFound(msg) => "Not found: "@ + msg@,
        Error::OutOfMemory => "Out of memory"@,
        Error::TransactionConflict(msg) => "Transaction conflict: "@ + msg@,
        Error::Internal(msg) => "Internal error: "@ + msg@,
        Error::InvalidPageType(_) => "Invalid page type"@,
    }
}

/// Whether an operation that failed with this error may succeed when it is
/// tried again or with other arguments. Corruption, exhausted memory,
/// internal errors and unknown page types are final.
pub open spec fn recoverable(e: Error) -> bool {
    e is Io || e is TransactionConflict || e is InvalidInput || e is NotFound
}

#[verifier::external_type_specification]
#[verifier::external_body]
pub struct ExIoError(std::io::Error);

/// The text of a `std::io::Error`, as its `to_string` gives it. The text
/// depends on the platform, so nothing is claimed of it.
#[verifier::external_body]
fn io_error_text(err: &std::io::Error) -> String {
    err.to_string()
}

/// `prefix` followed by `msg`, made with `format!`: the characters of the
/// one, then those of the other.
#[verifier::external_body]
fn prefixed(prefix: &str, msg: &String) -> (r: String)
    ensures
        r@ == prefix@ + msg@,
{
    format!("{prefix}{msg}")
}

/// The message for a buffer of the wrong length, made with `format!`: it
/// names what was measured, the length that was expected and the length that
/// was found. Nothing is claimed of the text.
#[verifier::external_body]
pub(crate) fn length_message(what: &str, expected: usize, got: usize) -> String {
    format!("Invalid {what}: expected {expected}, got {got}")
}

/// The message for a failure that concerns one page or one offset, made with
/// `format!`: the text, then the number. Nothing is claimed of the text.
#[verifier::external_body]
pub(crate) fn numbered_message(text: &str, number: u64) -> String {
    format!("{text} {number}")
}

/// The text for a byte that is no page type tag, made with `format!`.
/// Nothing is claimed of the text.
#[verifier::external_body]
fn invalid_page_type_text(byte: u8) -> String {
    format!("Invalid page type: 0x{byte:02x}")
}

impl Error {
    /// An I/O failure with the given message.
    pub fn io<S: Into<String>>(msg: S) -> (e: Error)
        ensures
            e is Io,
            S::obeys_into_spec() ==> e == Error::Io(msg.into_spec()),
    {
        Error::Io(msg.into())
    }

    /// A corruption failure with the given message.
    pub fn corruption<S: Into<String>>(msg: S) -> (e: Error)
        ensures
            e is Corruption,
            S::obeys_into_spec() ==> e == Error::Corruption(msg.into_spec()),
    {
        Error::Corruption(msg.into())
    }

    /// An invalid-input failure with the given message.
    pub fn invalid_input<S: Into<String>>(msg: S) -> (e: Error)
        ensures
            e is InvalidInput,
            S::obeys_into_spec() ==> e == Error::InvalidInput(msg.into_spec()),
    {
        Error::InvalidInput(msg.into())
    }

    /// A not-found failure with the given message.
    pub fn not_found<S: Into<String>>(msg: S) -> (e: Error)
        ensures
            e is NotFound,
            S::obeys_into_spec() ==> e == Error::NotFound(msg.into_spec()),
    {
        Error::NotFound(msg.into())
    }

    /// A transaction conflict with the given message.
    pub fn transaction_conflict<S: Into<String>>(msg: S) -> (e: Error)
        ensures
            e is TransactionConflict,
            S::obeys_into_spec() ==> e == Error::TransactionConflict(msg.into_spec()),
    {
        Error::TransactionConflict(msg.into())
    }

    /// An internal error with the given message.
    pub fn internal<S: Into<String>>(msg: S) -> (e: Error)
        ensures
            e is Internal,
            S::obeys_into_spec() ==> e == Error::Internal(msg.into_spec()),
    {
        Error::Internal(msg.into())
    }

    /// Whether this is an I/O failure.
    pub fn is_io(&self) -> (r: bool)
        ensures
            r == (*self is Io),
    {
        matches!(self, Error::Io(_))
    }

    /// Whether this is a corruption failure.
    pub fn is_corruption(&self) -> (r: bool)
        ensures
            r == (*self is Corruption),
    {
        matches!(self, Error::Corruption(_))
    }

    /// Whether this is a not-found failure.
    pub fn is_not_found(&self) -> (r: bool)
        ensures
            r == (*self is NotFound),
    {
        matches!(self, Error::NotFound(_))
    }

    /// Whether the failure is one that a caller may recover from.
    pub fn is_recoverable(&self) -> (r: bool)
        ensures
            r == recoverable(*self),
    {
        match self {
            Error::Io(_)
            | Error::TransactionConflict(_)
            | Error::InvalidInput(_)
            | Error::NotFound(_) => true,
            Error::Corruption(_)
            | Error::OutOfMemory
            | Error::Internal(_)
            | Error::InvalidPageType(_) => false,
        }
    }

    /// The error as text: the kind, then the message.
    pub fn to_string(&self) -> (r: String)
        ensures
            !(*self is InvalidPageType) ==> r@ == display_text(*self),
    {
        match self {
            Error::Io(msg) => prefixed("I/O error: ", msg),
            Error::Corruption(msg) => prefixed("Database corruption: ", msg),
            Error::InvalidInput(msg) => prefixed("Invalid input: ", msg),
            Error::NotFound(msg) => prefixed("Not found: ", msg),
            Error::OutOfMemory => "Out of memory".to_owned(),
            Error::TransactionConflict(msg) => prefixed("Transaction conflict: ", msg),
            Error::Internal(msg) => prefixed("Internal error: ", msg),
            Error::InvalidPageType(byte) => invalid_page_type_text(*byte),
        }
    }
}

impl From<std::io::Error> for Error {
    /// An I/O failure that carries the text of the `std::io::Error`.
    fn from(err: std::io::Error) -> (e: Error)
        ensures
            e is Io,
    {
        Error::Io(io_error_text(&err))
    }
}

/// The text of a `std::io::Error` depends on the platform, so the conversion
/// has no spec function to obey: its `ensures` says what holds of the result.
impl vstd::std_specs::convert::FromSpecImpl<std::io::Error> for Error {
    open spec fn obeys_from_spec() -> bool {
        false
    }

    open spec fn from_spec(err: std::io::Error) -> Error {
        arbitrary()
    }
}

} // verus!
