//! Object metadata snapshots.
//!
//! An [`Object`] is what a backend reports about one addressable entry: its
//! path, its type, its size (meaningful for files only), and a backend tag
//! used to re-enter that backend's operations without a fresh lookup.

use vstd::prelude::*;

use crate::path::{ObjectPath, PathModel};

verus! {

/// The type of an addressable entry.
#[derive(Clone, Copy, Debug, PartialEq, Eq, Structural)]
pub enum ObjectType {
    File,
    Directory,
    Symlink,
    Unknown,
}

/// The backend-private tag carried by an [`Object`]; it records which
/// backend produced the snapshot and is never inspected generically.
#[derive(Clone, Copy, Debug, PartialEq, Eq, Structural)]
pub enum ObjectInternals {
    File,
    B2,
}

/// The mathematical value of an [`Object`].
#[verifier::ext_equal]
pub ghost struct ObjectModel {
    pub internals: ObjectInternals,
    pub object_type: ObjectType,
    pub path: PathModel,
    pub size: u64,
}

/// One entry as reported by a backend: immutable metadata snapshot.
#[derive(Debug, Clone)]
pub struct Object {
    internals: ObjectInternals,
    object_type: ObjectType,
    path: ObjectPath,
    size: u64,
}

impl View for Object {
    type V = ObjectModel;

    closed spec fn view(&self) -> ObjectModel {
        ObjectModel {
            internals: self.internals,
            object_type: self.object_type,
            path: self.path@,
            size: self.size,
        }
    }
}

impl Object {
    /// Assembles a snapshot from its parts.
    pub fn new(internals: ObjectInternals, object_type: ObjectType, path: ObjectPath, size: u64)
        -> (r: Object)
        ensures
            r@ =~= (ObjectModel { internals, object_type, path: path@, size }),
    {
        Object { internals, object_type, path, size }
    }

    /// The type of the entry.
    pub fn object_type(&self) -> (r: ObjectType)
        ensures
            r == self@.object_type,
    {
        self.object_type
    }

    /// The path of the entry.
    pub fn path(&self) -> (r: &ObjectPath)
        ensures
            r@ == self@.path,
    {
        &self.path
    }

    /// The size of the entry in bytes; meaningful for files only.
    pub fn size(&self) -> (r: u64)
        ensures
            r == self@.size,
    {
        self.size
    }

    /// The backend tag of the entry.
    pub fn internals(&self) -> (r: ObjectInternals)
        ensures
            r == self@.internals,
    {
        self.internals
    }

    /// An owned copy with the same value.
    pub fn duplicate(&self) -> (r: Object)
        ensures
            r@ == self@,
    {
        Object {
            internals: self.internals,
            object_type: self.object_type,
            path: self.path.duplicate(),
            size: self.size,
        }
    }

    /// Consumes the snapshot, keeping only its path.
    pub fn into_path(self) -> (r: ObjectPath)
        ensures
            r@ == self@.path,
    {
        self.path
    }
}

} // verus!
