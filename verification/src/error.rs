//! The unified error taxonomy.
//!
//! Every failure a backend reports is translated into a [`StorageError`]
//! carrying one of the [`StorageErrorKind`] kinds and a human-readable
//! message; errors about a particular path carry that path as well. Write
//! operations report a [`TransferError`] that distinguishes a failure of
//! the input stream from a failure of the storage target.

use vstd::prelude::*;

use crate::path::{ObjectPath, PathModel};

verus! {

/// The kinds of failure the library reports.
#[derive(Clone, Copy, Debug, PartialEq, Eq, Structural)]
pub enum StorageErrorKind {
    NotFound,
    InvalidPath,
    InvalidSettings,
    InvalidData,
    AccessDenied,
    AccessExpired,
    ConnectionFailed,
    ConnectionClosed,
    Cancelled,
    InternalError,
    OtherError,
}

/// The mathematical value of a [`StorageError`].
#[verifier::ext_equal]
pub ghost struct ErrorModel {
    pub kind: StorageErrorKind,
    pub message: Seq<char>,
    pub path: Option<PathModel>,
}

/// A failure value: a kind, a message, and — for errors about a particular
/// path — that path.
#[derive(Debug, Clone)]
pub struct StorageError {
    kind: StorageErrorKind,
    message: String,
    path: Option<ObjectPath>,
}

impl View for StorageError {
    type V = ErrorModel;

    closed spec fn view(&self) -> ErrorModel {
        ErrorModel {
            kind: self.kind,
            message: self.message@,
            path: match self.path {
                Some(p) => Some(p@),
                None => None,
            },
        }
    }
}

impl StorageError {
    /// The kind of failure.
    pub fn kind(&self) -> (k: StorageErrorKind)
        ensures
            k == self@.kind,
    {
        self.kind
    }

    /// The human-readable message.
    pub fn message(&self) -> (m: &str)
        ensures
            m@ == self@.message,
    {
        self.message.as_str()
    }

    /// The path the failure is about, where there is one.
    pub fn path(&self) -> (p: &Option<ObjectPath>)
        ensures
            match p {
                Some(q) => self@.path matches Some(m) && m == q@,
                None => self@.path is None,
            },
    {
        &self.path
    }
}

/// The two sides a failed write is charged to: the input stream that was
/// being drained, or the storage target that was being filled.
#[derive(Debug)]
pub enum TransferError {
    SourceError(StorageError),
    TargetError(StorageError),
}

/// An entry was not found at the given path.
pub fn not_found(path: ObjectPath) -> (e: StorageError)
    ensures
        e@.kind == StorageErrorKind::NotFound,
        e@.message =~= "File not found."@,
        e@.path matches Some(p) && p == path@,
{
    StorageError {
        kind: StorageErrorKind::NotFound,
        message: "File not found.".to_owned(),
        path: Some(path),
    }
}

/// The given path is not a legal target for the requested operation.
pub fn invalid_path(path: ObjectPath, message: &str) -> (e: StorageError)
    ensures
        e@.kind == StorageErrorKind::InvalidPath,
        e@.message == message@,
        e@.path matches Some(p) && p == path@,
{
    StorageError {
        kind: StorageErrorKind::InvalidPath,
        message: message.to_owned(),
        path: Some(path),
    }
}

/// The backend was constructed with unusable settings.
pub fn invalid_settings(message: &str) -> (e: StorageError)
    ensures
        e@ =~= (ErrorModel {
            kind: StorageErrorKind::InvalidSettings,
            message: message@,
            path: None,
        }),
{
    StorageError { kind: StorageErrorKind::InvalidSettings, message: message.to_owned(), path: None }
}

/// Data received from a backend or a caller could not be understood.
pub fn invalid_data(message: &str) -> (e: StorageError)
    ensures
        e@ =~= (ErrorModel { kind: StorageErrorKind::InvalidData, message: message@, path: None }),
{
    StorageError { kind: StorageErrorKind::InvalidData, message: message.to_owned(), path: None }
}

/// The credentials were not accepted.
pub fn access_denied(message: &str) -> (e: StorageError)
    ensures
        e@ =~= (ErrorModel { kind: StorageErrorKind::AccessDenied, message: message@, path: None }),
{
    StorageError { kind: StorageErrorKind::AccessDenied, message: message.to_owned(), path: None }
}

/// A previously valid authorization has expired.
pub fn access_expired(message: &str) -> (e: StorageError)
    ensures
        e@ =~= (ErrorModel {
            kind: StorageErrorKind::AccessExpired,
            message: message@,
            path: None,
        }),
{
    StorageError { kind: StorageErrorKind::AccessExpired, message: message.to_owned(), path: None }
}

/// A connection could not be established.
pub fn connection_failed(message: &str) -> (e: StorageError)
    ensures
        e@ =~= (ErrorModel {
            kind: StorageErrorKind::ConnectionFailed,
            message: message@,
            path: None,
        }),
{
    StorageError {
        kind: StorageErrorKind::ConnectionFailed,
        message: message.to_owned(),
        path: None,
    }
}

/// An established connection was closed before the operation finished.
pub fn connection_closed(message: &str) -> (e: StorageError)
    ensures
        e@ =~= (ErrorModel {
            kind: StorageErrorKind::ConnectionClosed,
            message: message@,
            path: None,
        }),
{
    StorageError {
        kind: StorageErrorKind::ConnectionClosed,
        message: message.to_owned(),
        path: None,
    }
}

/// The operation was cancelled before it completed.
pub fn cancelled(message: &str) -> (e: StorageError)
    ensures
        e@ =~= (ErrorModel { kind: StorageErrorKind::Cancelled, message: message@, path: None }),
{
    StorageError { kind: StorageErrorKind::Cancelled, message: message.to_owned(), path: None }
}

/// A failure inside the library or the remote service itself.
pub fn internal_error(message: &str) -> (e: StorageError)
    ensures
        e@ =~= (ErrorModel {
            kind: StorageErrorKind::InternalError,
            message: message@,
            path: None,
        }),
{
    StorageError { kind: StorageErrorKind::InternalError, message: message.to_owned(), path: None }
}

/// The typed outcome of an operation a backend variant does not yet
/// implement: reported as a failure value, never a crash.
pub fn unsupported(operation: &str) -> (e: StorageError)
    ensures
        e@ =~= (ErrorModel {
            kind: StorageErrorKind::OtherError,
            message: operation@ + " is not yet supported by this backend."@,
            path: None,
        }),
{
    let mut msg = operation.to_owned();
    msg.append(" is not yet supported by this backend.");
    StorageError { kind: StorageErrorKind::OtherError, message: msg, path: None }
}

/// A failure that fits no other kind; the message is preserved.
pub fn other_error(message: &str) -> (e: StorageError)
    ensures
        e@ =~= (ErrorModel { kind: StorageErrorKind::OtherError, message: message@, path: None }),
{
    StorageError { kind: StorageErrorKind::OtherError, message: message.to_owned(), path: None }
}

} // verus!
