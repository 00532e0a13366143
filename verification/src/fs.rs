//! The backend dispatcher.
//!
//! An [`Fs`] is the single handle callers use: it validates the requested
//! path and names the validated operation for the active backend variant.
//! The asynchronous execution of an operation — driving the filesystem or
//! the network — is layered on top by callers; what is decided here is
//! exactly which requests are legal and which backend they go to.

use vstd::prelude::*;

use crate::b2::B2Settings;
use crate::error::{self, StorageError, StorageErrorKind};
use crate::file::FileBackend;
use crate::path::{has_drive_prefix, ObjectPath, PathModel};

verus! {

/// The type of backend behind an [`Fs`].
#[derive(Clone, Copy, Debug, PartialEq, Eq, Structural)]
pub enum Backend {
    /// The local-filesystem backend.
    File,
    /// The networked object-store backend.
    B2,
}

/// The concrete backend held by an [`Fs`].
#[derive(Debug)]
pub enum BackendImplementation {
    File(FileBackend),
    B2(B2Settings),
}

/// The type a backend implementation is.
pub open spec fn impl_kind(b: BackendImplementation) -> Backend {
    match b {
        BackendImplementation::File(_) => Backend::File,
        BackendImplementation::B2(_) => Backend::B2,
    }
}

/// Whether a path is a legal target for a request that wants a directory
/// (`should_be_dir`) or a concrete file: it must be rooted, its
/// directory-prefix flag must match, and it must not carry a platform
/// drive designator.
pub open spec fn path_ok(m: PathModel, should_be_dir: bool) -> bool {
    &&& m.absolute
    &&& m.dir == should_be_dir
    &&& !(m.segments.len() > 0 && has_drive_prefix(m.segments[0]))
}

/// The message a rejected request carries: the first rule the path broke,
/// in the order the rules are checked.
pub open spec fn check_path_message(m: PathModel, should_be_dir: bool) -> Seq<char> {
    if !m.absolute {
        "Requests must use an absolute path."@
    } else if should_be_dir && !m.dir {
        "This request requires the path to a directory."@
    } else if !should_be_dir && m.dir {
        "This request requires the path to a file."@
    } else {
        "Paths should not include windows prefixes."@
    }
}

/// The main handle used to interact with a storage backend.
#[derive(Debug)]
pub struct Fs {
    backend: BackendImplementation,
}

impl Fs {
    /// The backend held.
    pub closed spec fn backend_spec(&self) -> BackendImplementation {
        self.backend
    }

    /// A handle around the given backend.
    pub fn new(backend: BackendImplementation) -> (r: Fs)
        ensures
            r.backend_spec() == backend,
    {
        Fs { backend }
    }

    /// Validates a requested path: rejected with an
    /// [`InvalidPath`](StorageErrorKind::InvalidPath) error naming the
    /// first broken rule, or accepted exactly when [`path_ok`] holds.
    pub fn check_path(&self, path: &ObjectPath, should_be_dir: bool) -> (r: Result<
        (),
        StorageError,
    >)
        requires
            path@.wf(),
        ensures
            r is Ok <==> path_ok(path@, should_be_dir),
            r matches Err(e) ==> e@.kind == StorageErrorKind::InvalidPath && e@.message
                == check_path_message(path@, should_be_dir) && (e@.path matches Some(p) && p
                == path@),
    {
        if !path.is_absolute() {
            Err(error::invalid_path(path.duplicate(), "Requests must use an absolute path."))
        } else if should_be_dir && !path.is_dir_prefix() {
            Err(
                error::invalid_path(
                    path.duplicate(),
                    "This request requires the path to a directory.",
                ),
            )
        } else if !should_be_dir && path.is_dir_prefix() {
            Err(error::invalid_path(path.duplicate(), "This request requires the path to a file."))
        } else if path.is_windows() {
            Err(error::invalid_path(path.duplicate(), "Paths should not include windows prefixes."))
        } else {
            Ok(())
        }
    }

    /// The backend held, for callers that drive it.
    pub fn backend_implementation(&self) -> (r: &BackendImplementation)
        ensures
            *r == self.backend_spec(),
    {
        &self.backend
    }

    /// The type of backend this handle is using.
    pub fn backend_type(&self) -> (r: Backend)
        ensures
            r == impl_kind(self.backend_spec()),
    {
        match &self.backend {
            BackendImplementation::File(_) => Backend::File,
            BackendImplementation::B2(_) => Backend::B2,
        }
    }

    /// Admits a listing request: everything whose path starts with the
    /// given directory path. The validated path is returned for the
    /// backend to run; a path that is not an absolute directory prefix is
    /// rejected.
    pub fn list_files(&self, path: ObjectPath) -> (r: Result<ObjectPath, StorageError>)
        requires
            path@.wf(),
        ensures
            r is Ok <==> path_ok(path@, true),
            r matches Ok(p) ==> p@ == path@,
            r matches Err(e) ==> e@.kind == StorageErrorKind::InvalidPath && e@.message
                == check_path_message(path@, true),
    {
        self.check_path(&path, true)?;
        Ok(path)
    }

    /// Admits a metadata request for the entry at the given path; a path
    /// that is not an absolute file path is rejected.
    pub fn get_file(&self, path: ObjectPath) -> (r: Result<ObjectPath, StorageError>)
        requires
            path@.wf(),
        ensures
            r is Ok <==> path_ok(path@, false),
            r matches Ok(p) ==> p@ == path@,
            r matches Err(e) ==> e@.kind == StorageErrorKind::InvalidPath && e@.message
                == check_path_message(path@, false),
    {
        self.check_path(&path, false)?;
        Ok(path)
    }

    /// Admits a byte-stream request for the file at the given path; a
    /// path that is not an absolute file path is rejected.
    pub fn get_file_stream(&self, path: ObjectPath) -> (r: Result<ObjectPath, StorageError>)
        requires
            path@.wf(),
        ensures
            r is Ok <==> path_ok(path@, false),
            r matches Ok(p) ==> p@ == path@,
            r matches Err(e) ==> e@.kind == StorageErrorKind::InvalidPath && e@.message
                == check_path_message(path@, false),
    {
        self.check_path(&path, false)?;
        Ok(path)
    }

    /// Admits a deletion request for the entry at the given path (a
    /// directory goes with its contents); a path that is not an absolute
    /// file path is rejected.
    pub fn delete_file(&self, path: ObjectPath) -> (r: Result<ObjectPath, StorageError>)
        requires
            path@.wf(),
        ensures
            r is Ok <==> path_ok(path@, false),
            r matches Ok(p) ==> p@ == path@,
            r matches Err(e) ==> e@.kind == StorageErrorKind::InvalidPath && e@.message
                == check_path_message(path@, false),
    {
        self.check_path(&path, false)?;
        Ok(path)
    }

    /// Admits a write request: whatever stands at the path is overwritten
    /// by the bytes of the caller's stream; a path that is not an
    /// absolute file path is rejected.
    pub fn write_from_stream(&self, path: ObjectPath) -> (r: Result<ObjectPath, StorageError>)
        requires
            path@.wf(),
        ensures
            r is Ok <==> path_ok(path@, false),
            r matches Ok(p) ==> p@ == path@,
            r matches Err(e) ==> e@.kind == StorageErrorKind::InvalidPath && e@.message
                == check_path_message(path@, false),
    {
        self.check_path(&path, false)?;
        Ok(path)
    }
}

} // verus!
