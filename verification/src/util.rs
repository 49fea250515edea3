//! The error type shared by the whole library.

use vstd::prelude::*;

verus! {

/// The stable tag of an error, by which a client tells failures apart.
#[derive(Clone, Copy, Debug, PartialEq, Eq, Structural)]
pub enum ErrorKind {
    /// Anything without a more precise kind.
    Unknown,
    /// Reloading gravity failed.
    GravityError,
    /// The daemon could not be reached.
    FtlConnectionFail,
    /// The daemon answered with something that is no valid value of the expected type.
    FtlReadError,
    /// The daemon's answer did not end where it had to.
    FtlEomError,
    /// The referenced entity does not exist.
    NotFound,
    /// The item to add is already there.
    AlreadyExists,
    /// The text is no valid domain (or no valid regular expression, for the regex list).
    InvalidDomain,
    /// The request is malformed.
    BadRequest,
    /// The caller is not authenticated.
    Unauthorized,
    /// A file could not be read.
    FileRead,
    /// A file could not be written.
    FileWrite,
    /// The configuration is missing required shape or holds invalid values.
    ConfigParsingError,
    /// A settings file holds a value which its entry does not accept.
    InvalidSettingValue,
    /// The query archive failed.
    FtlDatabase,
    /// The gravity database failed.
    GravityDatabase,
}

/// An error of the library. It carries its kind and nothing else.
#[derive(Clone, Copy, Debug, PartialEq, Eq, Structural)]
pub struct Error {
    kind: ErrorKind,
}

impl Error {
    /// The kind of the error, as a specification value.
    pub closed spec fn spec_kind(&self) -> ErrorKind {
        self.kind
    }

    /// The error of the given kind.
    pub closed spec fn spec_from(kind: ErrorKind) -> Error {
        Error { kind }
    }

    /// An error is its kind: the error of a kind has that kind, and an
    /// error is the error of its kind.
    pub proof fn lemma_error_is_kind(error: Error, kind: ErrorKind)
        ensures
            Error::spec_from(kind).spec_kind() == kind,
            Error::spec_from(error.spec_kind()) == error,
    {
    }

    /// Make an error of the given kind.
    pub fn from(kind: ErrorKind) -> (e: Error)
        ensures
            e == Error::spec_from(kind),
            e.spec_kind() == kind,
    {
        Error { kind }
    }

    /// The kind of the error.
    #[verifier::when_used_as_spec(spec_kind)]
    pub fn kind(&self) -> (k: ErrorKind)
        ensures
            k == self.spec_kind(),
    {
        self.kind
    }
}

/// Whether a result is the error of the given kind.
pub open spec fn is_error<T>(result: Result<T, Error>, kind: ErrorKind) -> bool {
    match result {
        Ok(_) => false,
        Err(e) => e.spec_kind() == kind,
    }
}

} // verus!
