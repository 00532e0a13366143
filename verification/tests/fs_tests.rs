use file_store::b2::B2Backend;
use file_store::error::StorageErrorKind;
use file_store::file::{FileBackend, FileSpace};
use file_store::fs::{Backend, BackendImplementation, Fs};
use file_store::path::ObjectPath;

fn file_fs() -> Fs {
    let space = FileSpace::new(vec!["tmp".to_owned(), "root".to_owned()]);
    Fs::new(BackendImplementation::File(FileBackend::new(space)))
}

fn b2_fs() -> Fs {
    let backend = B2Backend::builder("id", "key").build();
    Fs::new(BackendImplementation::B2(backend.settings().clone()))
}

#[test]
fn test_backend_type() {
    assert_eq!(file_fs().backend_type(), Backend::File);
    assert_eq!(b2_fs().backend_type(), Backend::B2);
}

#[test]
fn test_relative_path_rejected() {
    let fs = file_fs();
    let e = fs.get_file(ObjectPath::new("a/b").unwrap()).unwrap_err();
    assert_eq!(e.kind(), StorageErrorKind::InvalidPath);
    assert_eq!(e.message(), "Requests must use an absolute path.");
}

#[test]
fn test_list_requires_directory() {
    let fs = file_fs();
    let e = fs.list_files(ObjectPath::new("/a/b").unwrap()).unwrap_err();
    assert_eq!(e.kind(), StorageErrorKind::InvalidPath);
    assert_eq!(e.message(), "This request requires the path to a directory.");
    let ok = fs.list_files(ObjectPath::new("/a/b/").unwrap()).unwrap();
    assert_eq!(ok.to_string(), "/a/b/");
}

#[test]
fn test_file_ops_reject_directory() {
    let fs = file_fs();
    for op in 0..4 {
        let dir = ObjectPath::new("/a/b/").unwrap();
        let r = match op {
            0 => fs.get_file(dir),
            1 => fs.get_file_stream(dir),
            2 => fs.delete_file(dir),
            _ => fs.write_from_stream(dir),
        };
        let e = r.unwrap_err();
        assert_eq!(e.kind(), StorageErrorKind::InvalidPath);
        assert_eq!(e.message(), "This request requires the path to a file.");
    }
    let ok = fs.get_file(ObjectPath::new("/a/b").unwrap()).unwrap();
    assert_eq!(ok.to_string(), "/a/b");
}

#[test]
fn test_windows_prefix_rejected() {
    let fs = file_fs();
    let e = fs.get_file(ObjectPath::new("/C:/x").unwrap()).unwrap_err();
    assert_eq!(e.kind(), StorageErrorKind::InvalidPath);
    assert_eq!(e.message(), "Paths should not include windows prefixes.");
}

#[test]
fn test_b2_builder() {
    let b = B2Backend::builder("the-id", "the-key").host("https://alt.example").build();
    assert_eq!(b.settings().key_id, "the-id");
    assert_eq!(b.settings().key, "the-key");
    assert_eq!(b.settings().host, "https://alt.example");
    assert!(b.settings().prefix.is_empty());
    let pre = ObjectPath::new("bucket/sub").unwrap();
    let c = B2Backend::builder("i", "k").prefix(pre).build();
    assert_eq!(c.settings().prefix.to_string(), "bucket/sub");
    assert_eq!(c.settings().host, "https://api.backblazeb2.com");
}
