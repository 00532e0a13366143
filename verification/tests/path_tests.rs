use file_store::error::StorageErrorKind;
use file_store::path::ObjectPath;

#[test]
fn test_parse_simple() {
    let p = ObjectPath::new("a/b/c").unwrap();
    assert_eq!(p.parts().len(), 3);
    assert_eq!(p.parts()[0], "a");
    assert_eq!(p.parts()[1], "b");
    assert_eq!(p.parts()[2], "c");
    assert!(!p.is_absolute());
    assert!(!p.is_dir_prefix());
    assert!(!p.is_empty());
}

#[test]
fn test_parse_absolute_dir() {
    let p = ObjectPath::new("/a/b/").unwrap();
    assert!(p.is_absolute());
    assert!(p.is_dir_prefix());
    assert_eq!(p.parts().len(), 2);
}

#[test]
fn test_parse_collapses_separators() {
    let p = ObjectPath::new("a//b/").unwrap();
    assert_eq!(p.parts().len(), 2);
    assert_eq!(p.parts()[0], "a");
    assert_eq!(p.parts()[1], "b");
    assert!(p.is_dir_prefix());
}

#[test]
fn test_parse_empty_is_root() {
    let p = ObjectPath::new("").unwrap();
    assert!(p.is_empty());
    assert!(p.is_dir_prefix());
    assert!(!p.is_absolute());
    assert_eq!(p.to_string(), "");
}

#[test]
fn test_drive_prefix_rejected() {
    let e = ObjectPath::new("C:/foo").unwrap_err();
    assert_eq!(e.kind(), StorageErrorKind::InvalidPath);
    let e2 = ObjectPath::new("\\server\\share").unwrap_err();
    assert_eq!(e2.kind(), StorageErrorKind::InvalidPath);
    // A drive designator not at the front is no drive prefix.
    assert!(ObjectPath::new("/C:/foo").is_ok());
}

#[test]
fn test_string_round_trip() {
    for s in ["", "/", "a", "/a", "a/b/c", "/a/b/c/", "deep/er/est/"] {
        let p = ObjectPath::new(s).unwrap();
        let printed = p.to_string();
        let q = ObjectPath::new(&printed).unwrap();
        assert_eq!(q.parts(), p.parts());
        assert_eq!(q.is_absolute(), p.is_absolute());
        assert_eq!(q.is_dir_prefix(), p.is_dir_prefix());
        assert_eq!(q.to_string(), printed);
    }
    assert_eq!(ObjectPath::new("a//b/").unwrap().to_string(), "a/b/");
}

#[test]
fn test_shift_and_unshift_are_inverses() {
    let mut p = ObjectPath::new("bucket/dir/file").unwrap();
    let first = p.shift_part().unwrap();
    assert_eq!(first, "bucket");
    assert_eq!(p.to_string(), "dir/file");
    p.unshift_part(&first);
    assert_eq!(p.to_string(), "bucket/dir/file");
}

#[test]
fn test_shift_empties_to_root() {
    let mut p = ObjectPath::new("only").unwrap();
    assert_eq!(p.shift_part().unwrap(), "only");
    assert!(p.is_empty());
    assert!(p.is_dir_prefix());
    assert!(p.shift_part().is_none());
}

#[test]
fn test_pop_part() {
    let mut p = ObjectPath::new("a/b/").unwrap();
    p.pop_part();
    assert_eq!(p.to_string(), "a/b");
    p.pop_part();
    assert_eq!(p.to_string(), "a");
    p.pop_part();
    assert!(p.is_empty());
    assert!(p.is_dir_prefix());
    p.pop_part();
    assert!(p.is_empty());
}

#[test]
fn test_push_part() {
    let mut p = ObjectPath::new("a/").unwrap();
    p.push_part("b");
    assert_eq!(p.to_string(), "a/b");
    assert!(!p.is_dir_prefix());
}

#[test]
fn test_join() {
    let a = ObjectPath::new("/x/y").unwrap();
    let b = ObjectPath::new("z/w/").unwrap();
    let j = a.join(&b);
    assert_eq!(j.to_string(), "/x/y/z/w/");
    let root = ObjectPath::new("").unwrap();
    let j2 = root.join(&a);
    assert_eq!(j2.parts(), a.parts());
    assert!(j2.is_absolute());
}

#[test]
fn test_starts_with() {
    let base = ObjectPath::new("a/b/c").unwrap();
    let dir = ObjectPath::new("a/b/").unwrap();
    let file = ObjectPath::new("a/b").unwrap();
    let other = ObjectPath::new("a/x/").unwrap();
    assert!(base.starts_with(&dir));
    assert!(base.starts_with(&file));
    assert!(!base.starts_with(&other));
    // Equal segments: the directory flags must agree.
    assert!(dir.starts_with(&dir));
    assert!(!file.starts_with(&dir));
    // Segment-wise, not character-wise: "a/bc" does not start with "a/b".
    let abc = ObjectPath::new("a/bc").unwrap();
    assert!(!abc.starts_with(&file));
    // Every path starts with the root.
    let root = ObjectPath::new("").unwrap();
    assert!(base.starts_with(&root));
}

#[test]
fn test_is_windows() {
    let p = ObjectPath::new("/C:/foo").unwrap();
    assert!(p.is_windows());
    let q = ObjectPath::new("/plain/foo").unwrap();
    assert!(!q.is_windows());
}
