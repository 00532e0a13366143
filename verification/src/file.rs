//! The local-filesystem backend's decision logic.
//!
//! Filesystem calls themselves (directory iteration, metadata, removal,
//! file creation and writing) are asynchronous primitives of the host
//! environment; everything the backend decides around them is here: how a
//! path maps to a native path, how metadata becomes an [`Object`], which
//! listing entries are kept and descended into, in what order a recursive
//! delete removes entries, and what an overwriting write must delete first.

use vstd::prelude::*;
use vstd::string::*;

use crate::error::{self, StorageError, StorageErrorKind, TransferError};
use crate::object::{Object, ObjectInternals, ObjectModel, ObjectType};
use crate::path::{path_starts_with, string_of, ObjectPath, PathModel};
use crate::segs_view;

verus! {

/// What the library reads from a host filesystem failure: whether it was a
/// not-found condition, and its message.
#[derive(Debug, Clone)]
pub struct OsError {
    pub not_found: bool,
    pub message: String,
}

/// The kind of entry a metadata call reports.
#[derive(Clone, Copy, Debug, PartialEq, Eq, Structural)]
pub enum MetadataKind {
    File,
    Directory,
    Other,
}

/// What the library reads from a host metadata snapshot: the kind of entry
/// and its length in bytes.
#[derive(Clone, Copy, Debug, PartialEq, Eq, Structural)]
pub struct FsMetadata {
    pub kind: MetadataKind,
    pub len: u64,
}

/// Translates a host filesystem failure at the boundary: a not-found
/// condition becomes [`StorageErrorKind::NotFound`] carrying the path, and
/// anything else an other-error naming the path.
pub fn get_storage_error(error: &OsError, path: ObjectPath) -> (r: StorageError)
    requires
        path@.wf(),
    ensures
        error.not_found ==> r@.kind == StorageErrorKind::NotFound && (r@.path matches Some(p) && p
            == path@),
        !error.not_found ==> r@.kind == StorageErrorKind::OtherError && r@.message == string_of(
            path@,
        ),
{
    if error.not_found {
        error::not_found(path)
    } else {
        error::other_error(path.to_string().as_str())
    }
}

/// The object a path and an optional metadata snapshot describe: a file
/// with its length, a directory or symlink of size zero, or an unknown
/// entry where no metadata could be read.
pub open spec fn object_of(path: PathModel, meta: Option<FsMetadata>) -> ObjectModel {
    match meta {
        Some(m) => match m.kind {
            MetadataKind::File => ObjectModel {
                internals: ObjectInternals::File,
                object_type: ObjectType::File,
                path,
                size: m.len,
            },
            MetadataKind::Directory => ObjectModel {
                internals: ObjectInternals::File,
                object_type: ObjectType::Directory,
                path,
                size: 0,
            },
            MetadataKind::Other => ObjectModel {
                internals: ObjectInternals::File,
                object_type: ObjectType::Symlink,
                path,
                size: 0,
            },
        },
        None => ObjectModel {
            internals: ObjectInternals::File,
            object_type: ObjectType::Unknown,
            path,
            size: 0,
        },
    }
}

/// Builds the object snapshot for a path from its metadata; see
/// [`object_of`].
pub fn get_object(path: ObjectPath, metadata: Option<FsMetadata>) -> (r: Object)
    ensures
        r@ =~= object_of(path@, metadata),
{
    let (object_type, size): (ObjectType, u64) = match metadata {
        Some(m) => match m.kind {
            MetadataKind::File => (ObjectType::File, m.len),
            MetadataKind::Directory => (ObjectType::Directory, 0),
            MetadataKind::Other => (ObjectType::Symlink, 0),
        },
        None => (ObjectType::Unknown, 0),
    };
    Object::new(ObjectInternals::File, object_type, path, size)
}

/// The root directory all of a file backend's operations are mapped under,
/// as native path components.
#[derive(Debug, Clone)]
pub struct FileSpace {
    base: Vec<String>,
}

impl View for FileSpace {
    type V = Seq<Seq<char>>;

    closed spec fn view(&self) -> Seq<Seq<char>> {
        segs_view(self.base@)
    }
}

impl FileSpace {
    /// A space rooted at the given native path components.
    pub fn new(base: Vec<String>) -> (r: FileSpace)
        ensures
            r@ == segs_view(base@),
    {
        FileSpace { base }
    }

    /// Maps an object path into the space: the root's components followed
    /// by the path's segments. Never fails.
    pub fn get_std_path(&self, path: &ObjectPath) -> (r: Result<Vec<String>, StorageError>)
        ensures
            r matches Ok(v) && segs_view(v@) == self@ + path@.segments,
    {
        let mut result: Vec<String> = Vec::new();
        let mut i: usize = 0;
        while i < self.base.len()
            invariant
                i <= self.base.len(),
                result@ =~= self.base@.take(i as int),
            decreases self.base.len() - i,
        {
            result.push(self.base[i].clone());
            i = i + 1;
        }
        let parts = path.parts();
        let mut j: usize = 0;
        while j < parts.len()
            invariant
                j <= parts.len(),
                result@ =~= self.base@ + parts@.take(j as int),
            decreases parts.len() - j,
        {
            result.push(parts[j].clone());
            j = j + 1;
        }
        proof {
            assert(result@ =~= self.base@ + parts@);
            assert forall|k: int| 0 <= k < result@.len() implies #[trigger] segs_view(result@)[k]
                == (self@ + segs_view(parts@))[k] by {
                assert(segs_view(result@)[k] == result@[k]@);
                if k < self.base@.len() {
                    assert(result@[k] == self.base@[k]);
                    assert(segs_view(self.base@)[k] == self.base@[k]@);
                } else {
                    assert(result@[k] == parts@[k - self.base@.len()]);
                    assert(segs_view(parts@)[k - self.base@.len()] == parts@[k
                        - self.base@.len()]@);
                }
            }
            assert(segs_view(result@) =~= self@ + segs_view(parts@));
        }
        Ok(result)
    }
}

/// Checks the root a file backend is being connected to: it must be a
/// directory.
pub fn check_root(metadata: &FsMetadata) -> (r: Result<(), StorageError>)
    ensures
        r is Ok <==> metadata.kind == MetadataKind::Directory,
        r matches Err(e) ==> e@.kind == StorageErrorKind::InvalidSettings && e@.message
            == "Root path is not a directory."@,
{
    if let MetadataKind::Directory = metadata.kind {
        Ok(())
    } else {
        Err(error::invalid_settings("Root path is not a directory."))
    }
}

/// The backend implementation for local file storage.
#[derive(Debug, Clone)]
pub struct FileBackend {
    space: FileSpace,
}

impl FileBackend {
    /// A backend rooted at the given native path components; callers check
    /// the root with [`check_root`] before building one.
    pub fn new(space: FileSpace) -> (r: FileBackend)
        ensures
            r.space_view() == space@,
    {
        FileBackend { space }
    }

    /// The root the backend maps everything under.
    pub closed spec fn space_view(&self) -> Seq<Seq<char>> {
        self.space@
    }

    /// The backend's file space.
    pub fn space(&self) -> (r: &FileSpace)
        ensures
            r@ == self.space_view(),
    {
        &self.space
    }
}

/// Turns one directory entry name into the child path it denotes. An entry
/// name that is empty or carries a separator cannot name a child and is
/// reported as unconvertible.
pub fn child_path(parent: &ObjectPath, name: &str) -> (r: Result<ObjectPath, StorageError>)
    requires
        parent@.wf(),
    ensures
        r is Ok <==> name@.len() > 0 && !name@.contains('/'),
        r matches Ok(p) ==> p@ =~= (PathModel {
            absolute: parent@.absolute,
            dir: false,
            segments: parent@.segments.push(name@),
        }) && p@.wf(),
        r matches Err(e) ==> e@.kind == StorageErrorKind::InvalidData && e@.message
            == "Unable to convert OSString."@,
{
    let n = name.unicode_len();
    if n == 0 || str_contains_slash(name) {
        return Err(error::invalid_data("Unable to convert OSString."));
    }
    let mut p = parent.duplicate();
    p.push_part(name);
    Ok(p)
}

/// Whether a string contains a separator.
fn str_contains_slash(s: &str) -> (r: bool)
    ensures
        r == s@.contains('/'),
{
    let n = s.unicode_len();
    let mut i: usize = 0;
    while i < n
        invariant
            i <= n == s@.len(),
            forall|k: int| 0 <= k < i ==> s@[k] != '/',
        decreases n - i,
    {
        if s.get_char(i) == '/' {
            proof {
                assert(s@.contains('/'));
            }
            return true;
        }
        i = i + 1;
    }
    false
}

/// One step of the recursive lister on one discovered entry: entries whose
/// path starts with the requested prefix are emitted, and directories among
/// them are also descended into; anything else is dropped.
pub fn lister_step(prefix: &ObjectPath, path: &ObjectPath, metadata: &Option<FsMetadata>) -> (r: (
    Option<Object>,
    bool,
))
    requires
        prefix@.wf(),
        path@.wf(),
    ensures
        path_starts_with(path@, prefix@) ==> (r.0 matches Some(o) && o@ =~= object_of(
            path@,
            *metadata,
        )) && r.1 == (*metadata matches Some(m) && m.kind == MetadataKind::Directory),
        !path_starts_with(path@, prefix@) ==> r.0 is None && !r.1,
{
    if path.starts_with(prefix) {
        let descend = match metadata {
            Some(m) => matches!(m.kind, MetadataKind::Directory),
            None => false,
        };
        (Some(get_object(path.duplicate(), *metadata)), descend)
    } else {
        (None, false)
    }
}

/// The models of a sequence of objects.
pub open spec fn objs_view(objects: Seq<Object>) -> Seq<ObjectModel> {
    objects.map_values(|o: Object| o@)
}

/// The subsequence of a listing whose paths start with the prefix.
pub open spec fn prefixed_of(objects: Seq<ObjectModel>, prefix: PathModel) -> Seq<ObjectModel> {
    objects.filter(|m: ObjectModel| path_starts_with(m.path, prefix))
}

/// Selects from a listing exactly the objects whose path starts with the
/// prefix, in order; this is the filter the recursive lister applies.
pub fn select_prefixed(objects: &Vec<Object>, prefix: &ObjectPath) -> (r: Vec<Object>)
    requires
        prefix@.wf(),
        forall|i: int| 0 <= i < objects@.len() ==> (#[trigger] objects@[i]@).path.wf(),
    ensures
        objs_view(r@) == prefixed_of(objs_view(objects@), prefix@),
{
    let ghost pred = |m: ObjectModel| path_starts_with(m.path, prefix@);
    let ghost ms = objs_view(objects@);
    let mut r: Vec<Object> = Vec::new();
    proof {
        reveal(Seq::filter);
        assert(ms.take(0) =~= Seq::<ObjectModel>::empty());
        assert(objs_view(r@) =~= ms.take(0).filter(pred));
    }
    let mut i: usize = 0;
    while i < objects.len()
        invariant
            i <= objects.len(),
            prefix@.wf(),
            forall|k: int| 0 <= k < objects@.len() ==> (#[trigger] objects@[k]@).path.wf(),
            pred == (|m: ObjectModel| path_starts_with(m.path, prefix@)),
            ms == objs_view(objects@),
            objs_view(r@) =~= ms.take(i as int).filter(pred),
        decreases objects.len() - i,
    {
        let ghost done = ms.take(i as int);
        proof {
            reveal(Seq::filter);
            assert(ms[i as int] == objects@[i as int]@);
            assert(ms.take(i + 1).drop_last() =~= done);
            assert(ms.take(i + 1).last() == ms[i as int]);
        }
        if objects[i].path().starts_with(prefix) {
            let d = objects[i].duplicate();
            let ghost old_r = r@;
            r.push(d);
            proof {
                assert(objs_view(r@) =~= objs_view(old_r).push(ms[i as int])) by {
                    assert forall|k: int| 0 <= k < r@.len() implies #[trigger] objs_view(r@)[k]
                        == objs_view(old_r).push(ms[i as int])[k] by {
                        assert(objs_view(r@)[k] == r@[k]@);
                        if k < old_r.len() {
                            assert(r@[k] == old_r[k]);
                            assert(objs_view(old_r)[k] == old_r[k]@);
                        }
                    }
                }
                assert(objs_view(r@) =~= ms.take(i + 1).filter(pred));
            }
        } else {
            proof {
                assert(objs_view(r@) =~= ms.take(i + 1).filter(pred));
            }
        }
        i = i + 1;
    }
    proof {
        assert(ms.take(objects@.len() as int) =~= ms);
    }
    r
}

/// The prefix invariant of listing: filtering a listing by a prefix keeps
/// an object exactly as often as it occurs in the listing when its path
/// starts with the prefix, and drops it entirely when it does not — so a
/// duplicate-free listing yields each matching object exactly once and
/// nothing else.
pub proof fn lemma_listing_prefix_invariant(objects: Seq<ObjectModel>, prefix: PathModel)
    ensures
        forall|m: ObjectModel|
            #[trigger] prefixed_of(objects, prefix).to_multiset().count(m) == if path_starts_with(
                m.path,
                prefix,
            ) {
                objects.to_multiset().count(m)
            } else {
                0nat
            },
        forall|m: ObjectModel|
            #[trigger] prefixed_of(objects, prefix).contains(m) <==> objects.contains(m)
                && path_starts_with(m.path, prefix),
    decreases objects.len(),
{
    broadcast use vstd::seq_lib::group_to_multiset_ensures;
    broadcast use vstd::multiset::lemma_insert_increases_count_by_1;
    broadcast use vstd::multiset::axiom_count_le_len;
    broadcast use vstd::multiset::lemma_insert_other_elements_unchanged;

    let pred = |m: ObjectModel| path_starts_with(m.path, prefix);
    reveal(Seq::filter);
    assert(prefixed_of(objects, prefix) == objects.filter(pred));
    if objects.len() == 0 {
        assert(objects.filter(pred) =~= objects);
        assert(objects.to_multiset().len() == 0);
    } else {
        let dl = objects.drop_last();
        let lst = objects.last();
        lemma_listing_prefix_invariant(dl, prefix);
        assert(prefixed_of(dl, prefix) == dl.filter(pred));
        assert(objects =~= dl.push(lst));
        assert(objects.to_multiset() == dl.to_multiset().insert(lst));
        if pred(lst) {
            assert(objects.filter(pred) == dl.filter(pred).push(lst));
            assert(objects.filter(pred).to_multiset() == dl.filter(pred).to_multiset().insert(
                lst,
            ));
        } else {
            assert(objects.filter(pred) == dl.filter(pred));
        }
        assert forall|m: ObjectModel|
            objects.filter(pred).to_multiset().count(m) == (if pred(m) {
                objects.to_multiset().count(m)
            } else {
                0nat
            }) by {
        }
        assert forall|m: ObjectModel| #[trigger] objects.filter(pred).contains(m) implies objects.contains(m)
            && pred(m) by {
            assert(objects.filter(pred).to_multiset().count(m) > 0);
            assert(objects.to_multiset().count(m) > 0);
        }
        assert forall|m: ObjectModel| objects.contains(m) && pred(m) implies #[trigger] objects.filter(
            pred,
        ).contains(m) by {
            assert(objects.to_multiset().count(m) > 0);
            assert(objects.filter(pred).to_multiset().count(m) > 0);
        }
    }
}

/// One removal step of a recursive delete: a path and whether it is
/// removed as a directory.
#[derive(Debug, Clone)]
pub struct RemoveOp {
    pub path: ObjectPath,
    pub directory: bool,
}

/// The value of one removal step.
pub open spec fn op_model(op: RemoveOp) -> (PathModel, bool) {
    (op.path@, op.directory)
}

/// The values of a removal plan.
pub open spec fn ops_models(ops: Seq<RemoveOp>) -> Seq<(PathModel, bool)> {
    ops.map_values(|op: RemoveOp| op_model(op))
}

/// The removal an object listing entry calls for.
pub open spec fn removal_of(m: ObjectModel) -> (PathModel, bool) {
    (m.path, m.object_type == ObjectType::Directory)
}

/// The removals a listing calls for.
pub open spec fn removal_models(objects: Seq<Object>) -> Seq<(PathModel, bool)> {
    objects.map_values(|o: Object| removal_of(o@))
}

/// The non-directory removals of a listing, in listing order.
pub open spec fn nondir_removals(objects: Seq<Object>) -> Seq<(PathModel, bool)> {
    removal_models(objects).filter(|p: (PathModel, bool)| !p.1)
}

/// Orders the removals of a recursive delete: every non-directory entry
/// first, in listing order; then the directories, deepest first; the
/// deleted directory itself last. Every listed entry is removed exactly
/// once and nothing else is touched.
pub fn delete_plan(objects: &Vec<Object>, root: &ObjectPath) -> (r: Vec<RemoveOp>)
    requires
        root@.wf(),
        forall|i: int|
            0 <= i < objects@.len() ==> (#[trigger] objects@[i]@).path.segments.len()
                > root@.segments.len(),
    ensures
        r@.len() == objects@.len() + 1,
        r@[r@.len() - 1].directory && r@[r@.len() - 1].path@ == root@,
        ops_models(r@).to_multiset() == removal_models(objects@).to_multiset().insert(
            (root@, true),
        ),
        ops_models(r@).take(nondir_removals(objects@).len() as int) == nondir_removals(objects@),
        forall|i: int, j: int|
            0 <= i < j < r@.len() && (#[trigger] r@[i]).directory ==> (#[trigger] r@[j]).directory,
        forall|i: int, j: int|
            0 <= i < j < r@.len() && (#[trigger] r@[i]).directory && (#[trigger] r@[j]).directory
                ==> r@[i].path@.segments.len() >= r@[j].path@.segments.len(),
{
    broadcast use vstd::multiset::group_multiset_axioms;
    broadcast use vstd::seq_lib::group_to_multiset_ensures;

    let ghost removals = removal_models(objects@);
    let mut files: Vec<RemoveOp> = Vec::new();
    let mut dirs: Vec<RemoveOp> = Vec::new();
    proof {
        assert(removals.take(0) =~= Seq::<(PathModel, bool)>::empty());
        assert(ops_models(files@) =~= Seq::<(PathModel, bool)>::empty());
        assert(ops_models(dirs@) =~= Seq::<(PathModel, bool)>::empty());
        assert(ops_models(files@).to_multiset().add(ops_models(dirs@).to_multiset())
            =~= removals.take(0).to_multiset());
        reveal(Seq::filter);
        assert(ops_models(files@) =~= removals.take(0).filter(|p: (PathModel, bool)| !p.1));
    }
    let mut i: usize = 0;
    while i < objects.len()
        invariant
            i <= objects.len(),
            root@.wf(),
            files@.len() + dirs@.len() == i,
            removals == removal_models(objects@),
            forall|k: int|
                0 <= k < objects@.len() ==> (#[trigger] objects@[k]@).path.segments.len()
                    > root@.segments.len(),
            ops_models(files@).to_multiset().add(ops_models(dirs@).to_multiset()) == removals.take(
                i as int,
            ).to_multiset(),
            ops_models(files@) =~= removals.take(i as int).filter(
                |p: (PathModel, bool)| !p.1,
            ),
            forall|k: int| 0 <= k < files@.len() ==> !(#[trigger] files@[k]).directory,
            forall|k: int| 0 <= k < dirs@.len() ==> (#[trigger] dirs@[k]).directory,
            forall|k: int, l: int|
                0 <= k < l < dirs@.len() ==> (#[trigger] dirs@[k]).path@.segments.len()
                    >= (#[trigger] dirs@[l]).path@.segments.len(),
            forall|k: int|
                0 <= k < dirs@.len() ==> (#[trigger] dirs@[k]).path@.segments.len()
                    > root@.segments.len(),
        decreases objects.len() - i,
    {
        let o = &objects[i];
        let dir = match o.object_type() {
            ObjectType::Directory => true,
            _ => false,
        };
        let op = RemoveOp { path: o.path().duplicate(), directory: dir };
        let ghost opm = op_model(op);
        proof {
            assert(removals[i as int] == removal_of(objects@[i as int]@));
            assert(opm == removals[i as int]);
            assert(removals.take(i + 1).drop_last() =~= removals.take(i as int));
            assert(removals.take(i + 1) =~= removals.take(i as int).push(removals[i as int]));
            vstd::seq_lib::to_multiset_build(removals.take(i as int), removals[i as int]);
            reveal(Seq::filter);
            assert(removals.take(i + 1).last() == removals[i as int]);
        }
        if dir {
            let depth = op.path.part_count();
            let mut p: usize = 0;
            while p < dirs.len() && dirs[p].path.part_count() >= depth
                invariant
                    p <= dirs.len(),
                    depth == opm.0.segments.len(),
                    forall|k: int|
                        0 <= k < p ==> (#[trigger] dirs@[k]).path@.segments.len() >= depth,
                    forall|k: int, l: int|
                        0 <= k < l < dirs@.len() ==> (#[trigger] dirs@[k]).path@.segments.len()
                            >= (#[trigger] dirs@[l]).path@.segments.len(),
                decreases dirs.len() - p,
            {
                p = p + 1;
            }
            let ghost old_dirs = dirs@;
            let ghost pp = p as int;
            dirs.insert(p, op);
            proof {
                assert(dirs@ == old_dirs.insert(pp, op));
                assert forall|k: int| 0 <= k < dirs@.len() implies (#[trigger] dirs@[k]).directory
                    && dirs@[k].path@.segments.len() > root@.segments.len() by {
                    if k < pp {
                        assert(dirs@[k] == old_dirs[k]);
                    } else if k == pp {
                        assert(dirs@[k] == op);
                    } else {
                        assert(dirs@[k] == old_dirs[k - 1]);
                    }
                }
                assert forall|k: int, l: int| 0 <= k < l < dirs@.len() implies (
                #[trigger] dirs@[k]).path@.segments.len() >= (
                #[trigger] dirs@[l]).path@.segments.len() by {
                    if k < pp && l < pp {
                        assert(dirs@[k] == old_dirs[k] && dirs@[l] == old_dirs[l]);
                    } else if k < pp && l == pp {
                        assert(dirs@[k] == old_dirs[k] && dirs@[l] == op);
                    } else if k < pp && l > pp {
                        assert(dirs@[k] == old_dirs[k] && dirs@[l] == old_dirs[l - 1]);
                    } else if k == pp && l > pp {
                        assert(dirs@[k] == op && dirs@[l] == old_dirs[l - 1]);
                        assert(pp < old_dirs.len() ==> old_dirs[pp].path@.segments.len() < depth);
                        assert(old_dirs[l - 1].path@.segments.len()
                            <= old_dirs[pp].path@.segments.len());
                    } else {
                        assert(dirs@[k] == old_dirs[k - 1] && dirs@[l] == old_dirs[l - 1]);
                    }
                }
                assert(ops_models(dirs@) =~= ops_models(old_dirs).insert(pp, opm)) by {
                    assert forall|k: int| 0 <= k < dirs@.len() implies #[trigger] ops_models(
                        dirs@,
                    )[k] == ops_models(old_dirs).insert(pp, opm)[k] by {
                        assert(ops_models(dirs@)[k] == op_model(dirs@[k]));
                        if k < pp {
                            assert(dirs@[k] == old_dirs[k]);
                            assert(ops_models(old_dirs)[k] == op_model(old_dirs[k]));
                        } else if k == pp {
                            assert(dirs@[k] == op);
                        } else {
                            assert(dirs@[k] == old_dirs[k - 1]);
                            assert(ops_models(old_dirs)[k - 1] == op_model(old_dirs[k - 1]));
                        }
                    }
                }
                vstd::seq_lib::to_multiset_insert(ops_models(old_dirs), pp, opm);
                reveal(Seq::filter);
                assert(removals.take(i + 1).filter(|p: (PathModel, bool)| !p.1)
                    =~= removals.take(i as int).filter(|p: (PathModel, bool)| !p.1));
            }
        } else {
            let ghost old_files = files@;
            files.push(op);
            proof {
                assert(ops_models(files@) =~= ops_models(old_files).push(opm)) by {
                    assert forall|k: int| 0 <= k < files@.len() implies #[trigger] ops_models(
                        files@,
                    )[k] == ops_models(old_files).push(opm)[k] by {
                        assert(ops_models(files@)[k] == op_model(files@[k]));
                        if k < old_files.len() {
                            assert(files@[k] == old_files[k]);
                            assert(ops_models(old_files)[k] == op_model(old_files[k]));
                        } else {
                            assert(files@[k] == op);
                        }
                    }
                }
                vstd::seq_lib::to_multiset_build(ops_models(old_files), opm);
                reveal(Seq::filter);
                assert(removals.take(i + 1).filter(|p: (PathModel, bool)| !p.1)
                    =~= removals.take(i as int).filter(|p: (PathModel, bool)| !p.1).push(opm));
                assert forall|k: int| 0 <= k < files@.len() implies !(
                #[trigger] files@[k]).directory by {
                    if k < old_files.len() {
                        assert(files@[k] == old_files[k]);
                    } else {
                        assert(files@[k] == op);
                    }
                }
            }
        }
        i = i + 1;
    }
    proof {
        assert(removals.take(objects@.len() as int) =~= removals);
    }
    let ghost files_v = files@;
    let ghost dirs_v = dirs@;
    let mut r = files;
    r.append(&mut dirs);
    let root_op = RemoveOp { path: root.duplicate(), directory: true };
    let ghost root_m = op_model(root_op);
    let ghost joined = r@;
    r.push(root_op);
    proof {
        assert(joined == files_v + dirs_v);
        assert(r@ == joined.push(root_op));
        assert(ops_models(joined) =~= ops_models(files_v) + ops_models(dirs_v)) by {
            assert forall|k: int| 0 <= k < joined.len() implies #[trigger] ops_models(joined)[k]
                == (ops_models(files_v) + ops_models(dirs_v))[k] by {
                assert(ops_models(joined)[k] == op_model(joined[k]));
                if k < files_v.len() {
                    assert(joined[k] == files_v[k]);
                    assert(ops_models(files_v)[k] == op_model(files_v[k]));
                } else {
                    assert(joined[k] == dirs_v[k - files_v.len()]);
                    assert(ops_models(dirs_v)[k - files_v.len()] == op_model(
                        dirs_v[k - files_v.len()],
                    ));
                }
            }
        }
        vstd::seq_lib::lemma_multiset_commutative(ops_models(files_v), ops_models(dirs_v));
        assert(ops_models(r@) =~= ops_models(joined).push(root_m)) by {
            assert forall|k: int| 0 <= k < r@.len() implies #[trigger] ops_models(r@)[k]
                == ops_models(joined).push(root_m)[k] by {
                assert(ops_models(r@)[k] == op_model(r@[k]));
                if k < joined.len() {
                    assert(r@[k] == joined[k]);
                    assert(ops_models(joined)[k] == op_model(joined[k]));
                } else {
                    assert(r@[k] == root_op);
                }
            }
        }
        vstd::seq_lib::to_multiset_build(ops_models(joined), root_m);
        assert(removals.take(objects@.len() as int) == removals);
        assert(ops_models(files_v) == nondir_removals(objects@));
        assert(ops_models(r@).take(ops_models(files_v).len() as int) =~= ops_models(files_v)) by {
            assert forall|k: int| 0 <= k < ops_models(files_v).len() implies #[trigger] ops_models(
                r@,
            )[k] == ops_models(files_v)[k] by {
                assert(r@[k] == files_v[k]);
                assert(ops_models(r@)[k] == op_model(r@[k]));
                assert(ops_models(files_v)[k] == op_model(files_v[k]));
            }
        }
        let nf = files_v.len() as int;
        let nd = dirs_v.len() as int;
        assert forall|k: int| 0 <= k < r@.len() implies (((#[trigger] r@[k]).directory <==> k >= nf)
            && (k >= nf && k < nf + nd ==> r@[k].path@.segments.len() > root@.segments.len())
            && (nf <= k < nf + nd ==> r@[k] == dirs_v[k - nf])) by {
            if k < nf {
                assert(r@[k] == files_v[k]);
            } else if k < nf + nd {
                assert(r@[k] == dirs_v[k - nf]);
            } else {
                assert(r@[k] == root_op);
            }
        }
        assert forall|i2: int, j2: int|
            0 <= i2 < j2 < r@.len() && (#[trigger] r@[i2]).directory && (
            #[trigger] r@[j2]).directory implies r@[i2].path@.segments.len()
            >= r@[j2].path@.segments.len() by {
            if i2 >= nf && j2 < nf + nd {
                assert(r@[i2] == dirs_v[i2 - nf] && r@[j2] == dirs_v[j2 - nf]);
            }
        }
        assert(r@[r@.len() - 1] == root_op);
    }
    r
}

/// An ancestor directory never stands before one of its descendants in a
/// removal plan ordered deepest-first: every subdirectory is removed
/// before its parent, and (with the plan's file-first ordering) every file
/// before any directory, so executing the plan leaves nothing behind.
pub proof fn lemma_plan_removes_children_first(r: Seq<RemoveOp>)
    requires
        forall|i: int, j: int|
            0 <= i < j < r.len() && (#[trigger] r[i]).directory && (#[trigger] r[j]).directory
                ==> r[i].path@.segments.len() >= r[j].path@.segments.len(),
    ensures
        forall|i: int, j: int|
            0 <= i < j < r.len() && (#[trigger] r[i]).directory && (#[trigger] r[j]).directory
                ==> !(r[j].path@.segments.len() > r[i].path@.segments.len()
                && r[j].path@.segments.take(r[i].path@.segments.len() as int)
                    == r[i].path@.segments),
{
}

/// Single-level listing is not yet wired up for this backend; the
/// outcome is a typed failure, never a crash.
pub fn list_directory(_backend: &FileBackend, _dir: ObjectPath) -> (r: Result<
    Vec<Object>,
    StorageError,
>)
    ensures
        r matches Err(e) && e@.kind == StorageErrorKind::OtherError && e@.message
            == "list_directory"@ + " is not yet supported by this backend."@,
{
    Err(error::unsupported("list_directory"))
}

/// A removal plan whose steps are exactly the listed removals plus the
/// root — as [`delete_plan`] produces — removes each listed entry exactly
/// once, removes the root, and touches nothing else: afterwards nothing
/// of the listing is left behind, and no entry outside it was deleted.
pub proof fn lemma_plan_touches_only_the_listing(
    plan: Seq<(PathModel, bool)>,
    listing: Seq<(PathModel, bool)>,
    root: (PathModel, bool),
)
    requires
        plan.to_multiset() == listing.to_multiset().insert(root),
    ensures
        forall|i: int|
            0 <= i < plan.len() ==> listing.contains(#[trigger] plan[i]) || plan[i] == root,
        forall|x: (PathModel, bool)|
            listing.contains(x) ==> #[trigger] plan.contains(x),
        plan.contains(root),
{
    broadcast use vstd::seq_lib::group_to_multiset_ensures;
    broadcast use vstd::multiset::group_multiset_axioms;
    broadcast use vstd::multiset::lemma_insert_increases_count_by_1;
    broadcast use vstd::multiset::lemma_insert_other_elements_unchanged;

    assert forall|i: int| 0 <= i < plan.len() implies listing.contains(#[trigger] plan[i])
        || plan[i] == root by {
        assert(plan.to_multiset().count(plan[i]) > 0);
        if plan[i] != root {
            assert(listing.to_multiset().count(plan[i]) > 0);
        }
    }
    assert forall|x: (PathModel, bool)| listing.contains(x) implies #[trigger] plan.contains(
        x,
    ) by {
        assert(listing.to_multiset().count(x) > 0);
        assert(plan.to_multiset().count(x) > 0);
    }
    assert(plan.to_multiset().count(root) > 0);
}

/// Validates the target of a metadata fetch: object paths must name a
/// concrete entry, so a directory-prefix path (the empty path included) is
/// rejected.
pub fn get_object_check(path: &ObjectPath) -> (r: Result<(), StorageError>)
    requires
        path@.wf(),
    ensures
        r is Ok <==> !path@.dir,
        r matches Err(e) ==> e@.kind == StorageErrorKind::InvalidPath && e@.message
            == "Object paths cannot be empty or end with a '/' character."@ && (e@.path
            matches Some(p) && p == path@),
{
    if path.is_dir_prefix() {
        Err(
            error::invalid_path(
                path.duplicate(),
                "Object paths cannot be empty or end with a '/' character.",
            ),
        )
    } else {
        Ok(())
    }
}

/// Decides a metadata fetch's outcome: a snapshot becomes the object; a
/// not-found failure is reported as such; any other failure yields an
/// object of unknown type, since the entry may exist but be unreadable.
pub fn get_object_result(path: ObjectPath, outcome: Result<FsMetadata, OsError>) -> (r: Result<
    Object,
    StorageError,
>)
    ensures
        outcome matches Ok(m) ==> (r matches Ok(o) && o@ =~= object_of(path@, Some(m))),
        (outcome matches Err(e) && e.not_found) ==> (r matches Err(err) && err@.kind
            == StorageErrorKind::NotFound && (err@.path matches Some(p) && p == path@)),
        (outcome matches Err(e) && !e.not_found) ==> (r matches Ok(o) && o@ =~= object_of(
            path@,
            None,
        )),
{
    match outcome {
        Ok(m) => Ok(get_object(path, Some(m))),
        Err(e) => {
            if e.not_found {
                Err(error::not_found(path))
            } else {
                Ok(get_object(path, None))
            }
        },
    }
}

/// Gates a byte-stream request on the target's metadata: only a file can
/// be streamed; anything else is reported as not found.
pub fn stream_check(path: &ObjectPath, metadata: &FsMetadata) -> (r: Result<(), StorageError>)
    requires
        path@.wf(),
    ensures
        r is Ok <==> metadata.kind == MetadataKind::File,
        r matches Err(e) ==> e@.kind == StorageErrorKind::NotFound && (e@.path matches Some(p) && p
            == path@),
{
    if let MetadataKind::File = metadata.kind {
        Ok(())
    } else {
        Err(error::not_found(path.duplicate()))
    }
}

/// What an overwriting write must do to the current occupant of its target
/// before creating the new file.
#[derive(Clone, Copy, Debug, PartialEq, Eq, Structural)]
pub enum OverwriteAction {
    /// The target holds a directory: delete it and all of its contents.
    DeleteContents,
    /// The target holds a file or another entry: remove that entry.
    DeleteFile,
    /// Nothing exists at the target.
    NoExisting,
}

/// Decides, from the target's metadata fetch, what an overwriting write
/// deletes first: a directory goes with its whole contents, any other
/// entry alone, and a missing entry needs no deletion. A metadata failure
/// other than not-found is charged to the target.
pub fn overwrite_plan(path: ObjectPath, outcome: Result<FsMetadata, OsError>) -> (r: Result<
    OverwriteAction,
    TransferError,
>)
    requires
        path@.wf(),
    ensures
        (outcome matches Ok(m) && m.kind == MetadataKind::Directory) ==> (r matches Ok(a) && a
            == OverwriteAction::DeleteContents),
        (outcome matches Ok(m) && m.kind != MetadataKind::Directory) ==> (r matches Ok(a) && a
            == OverwriteAction::DeleteFile),
        (outcome matches Err(e) && e.not_found) ==> (r matches Ok(a) && a
            == OverwriteAction::NoExisting),
        (outcome matches Err(e) && !e.not_found) ==> (r matches Err(
            TransferError::TargetError(err),
        ) && err@.kind == StorageErrorKind::OtherError && err@.message == string_of(path@)),
{
    match outcome {
        Ok(m) => {
            if let MetadataKind::Directory = m.kind {
                Ok(OverwriteAction::DeleteContents)
            } else {
                Ok(OverwriteAction::DeleteFile)
            }
        },
        Err(e) => {
            if e.not_found {
                Ok(OverwriteAction::NoExisting)
            } else {
                Err(TransferError::TargetError(get_storage_error(&e, path)))
            }
        },
    }
}

/// The destination of one write operation, modelled by the bytes written
/// so far: chunks are appended strictly in the order the source stream
/// yields them, never reordered.
#[derive(Debug)]
pub struct FileWriter {
    written: Vec<u8>,
}

impl View for FileWriter {
    type V = Seq<u8>;

    closed spec fn view(&self) -> Seq<u8> {
        self.written@
    }
}

impl FileWriter {
    /// A writer for a freshly created, empty destination.
    pub fn new() -> (r: FileWriter)
        ensures
            r@ == Seq::<u8>::empty(),
    {
        FileWriter { written: Vec::new() }
    }

    /// Appends one chunk from the source stream to the destination.
    pub fn write_chunk(&mut self, chunk: Vec<u8>)
        requires
            old(self)@.len() + chunk@.len() <= usize::MAX,
        ensures
            final(self)@ == old(self)@ + chunk@,
    {
        let mut c = chunk;
        self.written.append(&mut c);
    }

    /// The bytes written so far.
    pub fn contents(&self) -> (r: &Vec<u8>)
        ensures
            r@ == self@,
    {
        &self.written
    }

    /// Consumes the writer, yielding the destination's final contents.
    pub fn into_contents(self) -> (r: Vec<u8>)
        ensures
            r@ == self@,
    {
        self.written
    }
}

} // verus!
