use file_store::error::StorageErrorKind;
use file_store::file::{
    check_root, child_path, delete_plan, get_object, get_object_check, get_object_result,
    get_storage_error, lister_step, overwrite_plan, select_prefixed, stream_check, FileSpace,
    FileWriter, FsMetadata, MetadataKind, OsError, OverwriteAction,
};
use file_store::object::{Object, ObjectType};
use file_store::path::ObjectPath;

fn meta(kind: MetadataKind, len: u64) -> FsMetadata {
    FsMetadata { kind, len }
}

fn os_err(not_found: bool) -> OsError {
    OsError { not_found, message: "io".to_owned() }
}

fn obj(path: &str, kind: MetadataKind, len: u64) -> Object {
    get_object(ObjectPath::new(path).unwrap(), Some(meta(kind, len)))
}

#[test]
fn test_get_object_mapping() {
    let o = obj("a/f", MetadataKind::File, 42);
    assert_eq!(o.object_type(), ObjectType::File);
    assert_eq!(o.size(), 42);
    assert_eq!(o.path().to_string(), "a/f");
    let d = obj("a/d", MetadataKind::Directory, 9);
    assert_eq!(d.object_type(), ObjectType::Directory);
    assert_eq!(d.size(), 0);
    let s = obj("a/s", MetadataKind::Other, 9);
    assert_eq!(s.object_type(), ObjectType::Symlink);
    let u = get_object(ObjectPath::new("a/u").unwrap(), None);
    assert_eq!(u.object_type(), ObjectType::Unknown);
    assert_eq!(u.size(), 0);
}

#[test]
fn test_get_std_path() {
    let space = FileSpace::new(vec!["srv".to_owned(), "data".to_owned()]);
    let p = ObjectPath::new("a/b").unwrap();
    let native = space.get_std_path(&p).unwrap();
    assert_eq!(native, vec!["srv", "data", "a", "b"]);
}

#[test]
fn test_check_root() {
    assert!(check_root(&meta(MetadataKind::Directory, 0)).is_ok());
    let e = check_root(&meta(MetadataKind::File, 0)).unwrap_err();
    assert_eq!(e.kind(), StorageErrorKind::InvalidSettings);
    assert_eq!(e.message(), "Root path is not a directory.");
}

#[test]
fn test_get_object_check_rejects_dir_prefix() {
    let e = get_object_check(&ObjectPath::new("a/b/").unwrap()).unwrap_err();
    assert_eq!(e.kind(), StorageErrorKind::InvalidPath);
    assert_eq!(e.message(), "Object paths cannot be empty or end with a '/' character.");
    let e2 = get_object_check(&ObjectPath::new("").unwrap()).unwrap_err();
    assert_eq!(e2.kind(), StorageErrorKind::InvalidPath);
    assert!(get_object_check(&ObjectPath::new("a/b").unwrap()).is_ok());
}

#[test]
fn test_get_object_result() {
    let p = || ObjectPath::new("a/b").unwrap();
    let ok = get_object_result(p(), Ok(meta(MetadataKind::File, 5))).unwrap();
    assert_eq!(ok.object_type(), ObjectType::File);
    assert_eq!(ok.size(), 5);
    // A missing entry is a not-found failure.
    let e = get_object_result(p(), Err(os_err(true))).unwrap_err();
    assert_eq!(e.kind(), StorageErrorKind::NotFound);
    // Any other metadata failure yields an object of unknown type.
    let u = get_object_result(p(), Err(os_err(false))).unwrap();
    assert_eq!(u.object_type(), ObjectType::Unknown);
}

#[test]
fn test_stream_check() {
    let p = ObjectPath::new("a/b").unwrap();
    assert!(stream_check(&p, &meta(MetadataKind::File, 1)).is_ok());
    let e = stream_check(&p, &meta(MetadataKind::Directory, 0)).unwrap_err();
    assert_eq!(e.kind(), StorageErrorKind::NotFound);
}

#[test]
fn test_get_storage_error() {
    let p = ObjectPath::new("a/b").unwrap();
    let e = get_storage_error(&os_err(true), p);
    assert_eq!(e.kind(), StorageErrorKind::NotFound);
    let p2 = ObjectPath::new("a/b").unwrap();
    let e2 = get_storage_error(&os_err(false), p2);
    assert_eq!(e2.kind(), StorageErrorKind::OtherError);
    assert_eq!(e2.message(), "a/b");
}

#[test]
fn test_child_path() {
    let parent = ObjectPath::new("a/b/").unwrap();
    let c = child_path(&parent, "kid").unwrap();
    assert_eq!(c.to_string(), "a/b/kid");
    let e = child_path(&parent, "").unwrap_err();
    assert_eq!(e.kind(), StorageErrorKind::InvalidData);
    assert_eq!(e.message(), "Unable to convert OSString.");
    assert!(child_path(&parent, "with/slash").is_err());
}

#[test]
fn test_lister_step() {
    let prefix = ObjectPath::new("top/dir/").unwrap();
    let inside = ObjectPath::new("top/dir/sub").unwrap();
    let outside = ObjectPath::new("top/other/x").unwrap();
    let (emit, descend) = lister_step(&prefix, &inside, &Some(meta(MetadataKind::Directory, 0)));
    let o = emit.unwrap();
    assert_eq!(o.object_type(), ObjectType::Directory);
    assert!(descend);
    let (emit2, descend2) = lister_step(&prefix, &inside, &Some(meta(MetadataKind::File, 3)));
    assert_eq!(emit2.unwrap().object_type(), ObjectType::File);
    assert!(!descend2);
    let (emit3, descend3) = lister_step(&prefix, &outside, &Some(meta(MetadataKind::File, 3)));
    assert!(emit3.is_none());
    assert!(!descend3);
}

#[test]
fn test_select_prefixed_keeps_exactly_the_matches() {
    let listing = vec![
        obj("top/dir/a", MetadataKind::File, 1),
        obj("top/dir/sub", MetadataKind::Directory, 0),
        obj("top/dir/sub/b", MetadataKind::File, 2),
        obj("top/other/c", MetadataKind::File, 3),
        obj("top/dir", MetadataKind::Directory, 0),
    ];
    let prefix = ObjectPath::new("top/dir/").unwrap();
    let kept = select_prefixed(&listing, &prefix);
    let names: Vec<String> = kept.iter().map(|o| o.path().to_string()).collect();
    assert_eq!(names, vec!["top/dir/a", "top/dir/sub", "top/dir/sub/b"]);
}

#[test]
fn test_delete_plan_orders_removals() {
    // A nested tree under "top/dir": files must all be removed before any
    // directory, every subdirectory before its parent, the root last.
    let listing = vec![
        obj("top/dir/sub", MetadataKind::Directory, 0),
        obj("top/dir/f1", MetadataKind::File, 1),
        obj("top/dir/sub/deep", MetadataKind::Directory, 0),
        obj("top/dir/sub/deep/f2", MetadataKind::File, 2),
        obj("top/dir/sub/f3", MetadataKind::File, 3),
        obj("top/dir/link", MetadataKind::Other, 0),
    ];
    let root = ObjectPath::new("top/dir").unwrap();
    let plan = delete_plan(&listing, &root);
    assert_eq!(plan.len(), listing.len() + 1);
    let names: Vec<String> = plan.iter().map(|op| op.path.to_string()).collect();
    // Non-directories first, in listing order.
    assert_eq!(names[0], "top/dir/f1");
    assert_eq!(names[1], "top/dir/sub/deep/f2");
    assert_eq!(names[2], "top/dir/sub/f3");
    assert_eq!(names[3], "top/dir/link");
    // Directories deepest-first, the deleted directory itself last.
    assert_eq!(names[4], "top/dir/sub/deep");
    assert_eq!(names[5], "top/dir/sub");
    assert_eq!(names[6], "top/dir");
    // Every file comes before any directory, and no directory before a
    // descendant of it.
    let first_dir = plan.iter().position(|op| op.directory).unwrap();
    assert!(plan[..first_dir].iter().all(|op| !op.directory));
    assert!(plan[first_dir..].iter().all(|op| op.directory));
    for i in first_dir..plan.len() {
        for j in (i + 1)..plan.len() {
            let child = ObjectPath::new(&plan[j].path.to_string()).unwrap();
            // plan[j] must never be strictly beneath plan[i].
            let mut parent = plan[i].path.clone();
            parent.make_dir_prefix();
            let is_descendant =
                child.parts().len() > parent.parts().len() && child.starts_with(&parent);
            assert!(!is_descendant);
        }
    }
    // Nothing is left behind: every listed entry occurs in the plan.
    for o in &listing {
        assert!(plan.iter().any(|op| op.path.to_string() == o.path().to_string()));
    }
}

#[test]
fn test_overwrite_plan() {
    let p = || ObjectPath::new("t").unwrap();
    assert_eq!(
        overwrite_plan(p(), Ok(meta(MetadataKind::Directory, 0))).unwrap(),
        OverwriteAction::DeleteContents
    );
    assert_eq!(
        overwrite_plan(p(), Ok(meta(MetadataKind::File, 3))).unwrap(),
        OverwriteAction::DeleteFile
    );
    assert_eq!(overwrite_plan(p(), Err(os_err(true))).unwrap(), OverwriteAction::NoExisting);
    assert!(overwrite_plan(p(), Err(os_err(false))).is_err());
}

#[test]
fn test_writer_appends_in_order() {
    let mut w = FileWriter::new();
    w.write_chunk(vec![1, 2, 3]);
    w.write_chunk(vec![]);
    w.write_chunk(vec![4, 5]);
    assert_eq!(w.into_contents(), vec![1, 2, 3, 4, 5]);
}

#[test]
fn test_overwrite_replaces_directory_with_single_file() {
    // The overwrite scenario on a simulated store: "t" currently holds a
    // directory with contents; writing to "t" replaces all of it with one
    // file holding exactly the newly written bytes.
    let mut store: Vec<(String, Vec<u8>)> = vec![
        ("t".to_owned(), vec![]),
        ("t/a".to_owned(), vec![9, 9]),
        ("t/sub".to_owned(), vec![]),
        ("t/sub/b".to_owned(), vec![8]),
        ("untouched".to_owned(), vec![7]),
    ];
    let target = ObjectPath::new("t").unwrap();
    let action = overwrite_plan(
        ObjectPath::new("t").unwrap(),
        Ok(meta(MetadataKind::Directory, 0)),
    )
    .unwrap();
    assert_eq!(action, OverwriteAction::DeleteContents);
    // The recursive listing of "t/" and the plan it induces.
    let listing = vec![
        obj("t/a", MetadataKind::File, 2),
        obj("t/sub", MetadataKind::Directory, 0),
        obj("t/sub/b", MetadataKind::File, 1),
    ];
    let plan = delete_plan(&listing, &target);
    for op in &plan {
        let name = op.path.to_string();
        let before = store.len();
        store.retain(|(n, _)| *n != name);
        assert_eq!(store.len() + 1, before, "{name} was present exactly once");
    }
    // Create the new file and drain the source stream into it, in order.
    let mut w = FileWriter::new();
    w.write_chunk(vec![1, 2]);
    w.write_chunk(vec![3]);
    store.push(("t".to_owned(), w.into_contents()));
    // What remains: the untouched entry and the single new file.
    store.sort();
    assert_eq!(store, vec![("t".to_owned(), vec![1, 2, 3]), ("untouched".to_owned(), vec![7])]);
}
