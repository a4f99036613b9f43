//! The library's error type.
use vstd::prelude::*;

verus! {

/// Errors the control plane reports to its callers.
#[derive(Debug)]
pub enum Error {
    /// A configuration value could not be used.
    InvalidConfig { key: String, message: String },
    /// A requested record does not exist.
    NotFound(String),
    /// The request conflicts with the current state of a record.
    StateConflict(String),
    /// The request is malformed.
    Domain(String),
    /// A capability (source, client, runtime) is not available.
    CapabilityUnavailable(String),
}

/// The mathematical value of an [`Error`].
pub enum ErrorV {
    InvalidConfig { key: Seq<char>, message: Seq<char> },
    NotFound(Seq<char>),
    StateConflict(Seq<char>),
    Domain(Seq<char>),
    CapabilityUnavailable(Seq<char>),
}

impl View for Error {
    type V = ErrorV;

    open spec fn view(&self) -> ErrorV {
        match self {
            Error::InvalidConfig { key, message } => ErrorV::InvalidConfig {
                key: key@,
                message: message@,
            },
            Error::NotFound(m) => ErrorV::NotFound(m@),
            Error::StateConflict(m) => ErrorV::StateConflict(m@),
            Error::Domain(m) => ErrorV::Domain(m@),
            Error::CapabilityUnavailable(m) => ErrorV::CapabilityUnavailable(m@),
        }
    }
}

/// The view of a result: its value by `f` or its error by view.
pub open spec fn result_view<T, U>(r: Result<T, Error>, f: spec_fn(T) -> U) -> Result<U, ErrorV> {
    match r {
        Ok(t) => Ok(f(t)),
        Err(e) => Err(e@),
    }
}

} // verus!
