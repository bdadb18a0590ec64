//! The errors of a synchronization run.

use vstd::prelude::*;

verus! {

/// What can go wrong while a source is mirrored. Each error carries the message
/// that is shown to the operator.
#[derive(Clone, Debug, PartialEq, Eq)]
pub enum Error {
    /// The token endpoint did not hand out an access token.
    AuthError(String),
    /// A request failed in transport, or was answered with a status other than
    /// success.
    NetworkError(String),
    /// An answer does not have the expected shape.
    ProtocolError(String),
    /// A local file could not be read or written.
    IoError(String),
}

/// The kind of an error, without its message.
#[derive(Clone, Copy, Debug, PartialEq, Eq, Structural)]
pub enum ErrorKind {
    Auth,
    Network,
    Protocol,
    Io,
}

/// An error as a mathematical value: its kind and its message.
pub struct ErrorView {
    pub kind: ErrorKind,
    pub message: Seq<char>,
}

impl View for Error {
    type V = ErrorView;

    open spec fn view(&self) -> ErrorView {
        match self {
            Error::AuthError(m) => ErrorView { kind: ErrorKind::Auth, message: m@ },
            Error::NetworkError(m) => ErrorView { kind: ErrorKind::Network, message: m@ },
            Error::ProtocolError(m) => ErrorView { kind: ErrorKind::Protocol, message: m@ },
            Error::IoError(m) => ErrorView { kind: ErrorKind::Io, message: m@ },
        }
    }
}

impl Error {
    /// The kind of the error.
    pub fn kind(&self) -> (kind: ErrorKind)
        ensures
            kind == self@.kind,
    {
        match self {
            Error::AuthError(_) => ErrorKind::Auth,
            Error::NetworkError(_) => ErrorKind::Network,
            Error::ProtocolError(_) => ErrorKind::Protocol,
            Error::IoError(_) => ErrorKind::Io,
        }
    }

    /// The message of the error, as it is shown to the operator.
    pub fn to_string(&self) -> (message: String)
        ensures
            message@ == self@.message,
    {
        match self {
            Error::AuthError(m) => m.clone(),
            Error::NetworkError(m) => m.clone(),
            Error::ProtocolError(m) => m.clone(),
            Error::IoError(m) => m.clone(),
        }
    }
}

} // verus!
