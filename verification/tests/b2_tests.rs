use file_store::b2::{
    api_url, basic_auth_secret, filter_buckets, generate_error, make_list_buckets_request,
    make_list_file_names_request, map_transport_error, new_object, parse_failure_error,
    prepare_list, resolve_attempts, ApiCallState, B2Backend, Bucket, ErrorResponse, FileInfo,
    ListFileNamesRequest, ListFileNamesStream, SessionCache, SessionInfo, TransportErrorFlags,
};
use file_store::error::StorageErrorKind;
use file_store::object::ObjectType;
use file_store::path::ObjectPath;

fn session(token: &str) -> SessionInfo {
    SessionInfo {
        account_id: "acct".to_owned(),
        api_url: "https://api999.example".to_owned(),
        authorization_token: token.to_owned(),
    }
}

#[test]
fn test_api_url() {
    assert_eq!(
        api_url("https://api.backblazeb2.com", "b2_list_buckets"),
        "https://api.backblazeb2.com/b2api/v2/b2_list_buckets"
    );
}

#[test]
fn test_basic_auth_secret() {
    // The classic Basic-credentials example; fails if the encoder were to
    // hand its input back unchanged.
    assert_eq!(basic_auth_secret("Aladdin", "open sesame"), "Basic QWxhZGRpbjpvcGVuIHNlc2FtZQ==");
    assert_eq!(basic_auth_secret("user", "pass"), "Basic dXNlcjpwYXNz");
}

#[test]
fn test_classification_table() {
    let p = ObjectPath::new("bucket/x").unwrap();
    let resp = |status: u32, code: &str| ErrorResponse {
        status,
        code: code.to_owned(),
        message: "m".to_owned(),
    };
    let e = generate_error("b2_authorize_account", &p, &resp(401, "bad_auth_token"));
    assert_eq!(e.kind(), StorageErrorKind::AccessDenied);
    let e = generate_error("b2_list_buckets", &p, &resp(401, "bad_auth_token"));
    assert_eq!(e.kind(), StorageErrorKind::AccessExpired);
    assert_eq!(e.message(), "The authentication token is invalid.");
    let e = generate_error("b2_list_buckets", &p, &resp(401, "expired_auth_token"));
    assert_eq!(e.kind(), StorageErrorKind::AccessExpired);
    assert_eq!(e.message(), "The authentication token has expired.");
    let e = generate_error("b2_list_buckets", &p, &resp(400, "invalid_bucket_id"));
    assert_eq!(e.kind(), StorageErrorKind::NotFound);
    let e = generate_error("b2_list_buckets", &p, &resp(400, "bad_request"));
    assert_eq!(e.kind(), StorageErrorKind::InternalError);
    assert_eq!(e.message(), "m");
    let e = generate_error("b2_list_buckets", &p, &resp(503, "bad_request"));
    assert_eq!(e.kind(), StorageErrorKind::ConnectionFailed);
    let e = generate_error("b2_list_buckets", &p, &resp(418, "teapot"));
    assert_eq!(e.kind(), StorageErrorKind::OtherError);
    assert_eq!(e.message(), "Unknown B2 API failure 418: teapot, m");
}

#[test]
fn test_parse_failure_message() {
    let e = parse_failure_error("b2_list_buckets");
    assert_eq!(e.kind(), StorageErrorKind::InvalidData);
    assert_eq!(e.message(), "Unable to parse response from b2_list_buckets.");
}

#[test]
fn test_single_expiry_is_retried_transparently() {
    // One simulated expired-authorization failure, then success: the
    // caller sees the success of the second attempt, no error.
    let outcomes = vec![Some(StorageErrorKind::AccessExpired), None, None];
    let (idx, seen) = resolve_attempts(&outcomes, 3);
    assert_eq!(idx, 1);
    assert_eq!(seen, None);
}

#[test]
fn test_three_expiries_exhaust_budget() {
    let outcomes = vec![
        Some(StorageErrorKind::AccessExpired),
        Some(StorageErrorKind::AccessExpired),
        Some(StorageErrorKind::AccessExpired),
    ];
    let (idx, seen) = resolve_attempts(&outcomes, 3);
    assert_eq!(idx, 2);
    assert_eq!(seen, Some(StorageErrorKind::AccessExpired));
}

#[test]
fn test_other_failures_are_not_retried() {
    let outcomes = vec![Some(StorageErrorKind::NotFound), None, None];
    let (idx, seen) = resolve_attempts(&outcomes, 3);
    assert_eq!(idx, 0);
    assert_eq!(seen, Some(StorageErrorKind::NotFound));
}

#[test]
fn test_on_failure_decisions() {
    let mut st = ApiCallState::with_default_budget();
    assert!(st.on_failure(StorageErrorKind::AccessExpired));
    assert!(st.on_failure(StorageErrorKind::AccessExpired));
    // The third expiry exceeds the budget of three attempts.
    assert!(!st.on_failure(StorageErrorKind::AccessExpired));
    let mut st2 = ApiCallState::with_default_budget();
    assert!(!st2.on_failure(StorageErrorKind::ConnectionFailed));
}

#[test]
fn test_session_reset_is_conditional() {
    let mut cache = SessionCache::new();
    assert!(cache.get().is_none());
    cache.store(session("tok-1"));
    // A different token failed: someone else already refreshed; keep it.
    cache.reset_session("tok-0");
    assert_eq!(cache.get().unwrap().authorization_token, "tok-1");
    // The cached token itself failed: invalidate.
    cache.reset_session("tok-1");
    assert!(cache.get().is_none());
    // Resetting an empty cache stays empty.
    cache.reset_session("tok-1");
    assert!(cache.get().is_none());
}

#[test]
fn test_pagination_walks_pages_in_order() {
    let req = ListFileNamesRequest {
        bucket_id: "b1".to_owned(),
        start_file_name: None,
        max_file_count: None,
        prefix: Some("dir/".to_owned()),
        delimiter: None,
    };
    let mut stream = ListFileNamesStream::new(req);
    let first = stream.next_request().unwrap();
    assert_eq!(first.start_file_name, None);
    assert!(stream.next_ready().is_none());
    let fi = |n: &str| FileInfo { file_name: n.to_owned(), content_length: 1 };
    stream.on_page(vec![fi("dir/a"), fi("dir/b")], Some("dir/b".to_owned()));
    let follow = stream.next_request().unwrap();
    assert_eq!(follow.start_file_name.as_deref(), Some("dir/b"));
    assert_eq!(stream.next_ready().unwrap().file_name, "dir/a");
    stream.on_page(vec![fi("dir/c")], None);
    assert!(stream.next_request().is_none());
    assert_eq!(stream.next_ready().unwrap().file_name, "dir/b");
    assert_eq!(stream.next_ready().unwrap().file_name, "dir/c");
    assert!(stream.next_ready().is_none());
    assert!(stream.done());
}

#[test]
fn test_prepare_list() {
    let empty = ObjectPath::new("").unwrap();
    let prefix = ObjectPath::new("bucket/dir/").unwrap();
    let plan = prepare_list(&empty, &prefix);
    assert_eq!(plan.bucket, "bucket");
    assert_eq!(plan.file_part.to_string(), "dir/");
    assert!(plan.only_matching_bucket);

    // Listing the bare root walks every bucket.
    let root_plan = prepare_list(&empty, &ObjectPath::new("").unwrap());
    assert_eq!(root_plan.bucket, "");
    assert!(root_plan.file_part.is_empty());
    // The empty path counts as a directory prefix, so the bucket listing
    // is still filtered by the (empty) name.
    assert!(root_plan.only_matching_bucket);

    // A backend prefix roots the request under its sub-path.
    let rooted = prepare_list(&ObjectPath::new("bkt/base").unwrap(), &ObjectPath::new("x/").unwrap());
    assert_eq!(rooted.bucket, "bkt");
    assert_eq!(rooted.file_part.to_string(), "base/x/");
}

#[test]
fn test_filter_buckets() {
    let b = |id: &str, name: &str| Bucket { bucket_id: id.to_owned(), bucket_name: name.to_owned() };
    let buckets = vec![b("1", "photos"), b("2", "photos-backup"), b("3", "docs")];
    let kept = filter_buckets(&buckets, "photos");
    assert_eq!(kept.len(), 2);
    assert_eq!(kept[0].bucket_id, "1");
    assert_eq!(kept[1].bucket_id, "2");
    let all = filter_buckets(&buckets, "");
    assert_eq!(all.len(), 3);
}

#[test]
fn test_request_builders() {
    let empty = ObjectPath::new("").unwrap();
    let plan = prepare_list(&empty, &ObjectPath::new("bucket/dir/").unwrap());
    let lb = make_list_buckets_request("acct-1".to_owned(), &plan);
    assert_eq!(lb.account_id, "acct-1");
    assert_eq!(lb.bucket_name.as_deref(), Some("bucket"));
    assert!(lb.bucket_id.is_none());
    let bucket = Bucket { bucket_id: "id9".to_owned(), bucket_name: "bucket".to_owned() };
    let lf = make_list_file_names_request(&bucket, &plan);
    assert_eq!(lf.bucket_id, "id9");
    assert_eq!(lf.prefix.as_deref(), Some("dir/"));
    assert!(lf.start_file_name.is_none());
}

#[test]
fn test_new_object_file_and_directory() {
    let no_prefix = ObjectPath::new("").unwrap();
    let fi = FileInfo { file_name: "dir/data.bin".to_owned(), content_length: 42 };
    let o = new_object("bkt", &fi, &no_prefix).unwrap();
    assert_eq!(o.object_type(), ObjectType::File);
    assert_eq!(o.size(), 42);
    assert_eq!(o.path().to_string(), "bkt/dir/data.bin");

    let di = FileInfo { file_name: "dir/sub/".to_owned(), content_length: 0 };
    let d = new_object("bkt", &di, &no_prefix).unwrap();
    assert_eq!(d.object_type(), ObjectType::Directory);
    assert_eq!(d.path().to_string(), "bkt/dir/sub");
}

#[test]
fn test_new_object_strips_backend_prefix() {
    let prefix = ObjectPath::new("bkt/base").unwrap();
    let fi = FileInfo { file_name: "base/inner/f".to_owned(), content_length: 7 };
    let o = new_object("bkt", &fi, &prefix).unwrap();
    assert_eq!(o.path().to_string(), "inner/f");
}

#[test]
fn test_new_object_rejects_drive_prefix() {
    let no_prefix = ObjectPath::new("").unwrap();
    let fi = FileInfo { file_name: "C:/evil".to_owned(), content_length: 0 };
    let e = new_object("bkt", &fi, &no_prefix).unwrap_err();
    assert_eq!(e.kind(), StorageErrorKind::InvalidPath);
}

#[test]
fn test_transport_error_mapping() {
    let flags = |parse: bool, user: bool, canceled: bool, closed: bool, connect: bool, incomplete: bool| {
        TransportErrorFlags {
            is_parse: parse,
            is_user: user,
            is_canceled: canceled,
            is_closed: closed,
            is_connect: connect,
            is_incomplete_message: incomplete,
        }
    };
    let e = map_transport_error(&flags(true, false, false, false, false, false), "m");
    assert_eq!(e.kind(), StorageErrorKind::InvalidData);
    let e = map_transport_error(&flags(false, false, true, false, false, false), "m");
    assert_eq!(e.kind(), StorageErrorKind::Cancelled);
    let e = map_transport_error(&flags(false, false, false, true, false, false), "m");
    assert_eq!(e.kind(), StorageErrorKind::ConnectionClosed);
    let e = map_transport_error(&flags(false, false, false, false, true, false), "m");
    assert_eq!(e.kind(), StorageErrorKind::ConnectionFailed);
    let e = map_transport_error(&flags(false, false, false, false, false, true), "m");
    assert_eq!(e.kind(), StorageErrorKind::ConnectionClosed);
    let e = map_transport_error(&flags(false, false, false, false, false, false), "m");
    assert_eq!(e.kind(), StorageErrorKind::InvalidData);
    assert_eq!(e.message(), "m");
}

#[test]
fn test_unsupported_operations_fail_typed() {
    let backend = B2Backend::builder("i", "k").build();
    let e = backend.get_object(ObjectPath::new("bucket/x/").unwrap()).unwrap_err();
    assert_eq!(e.kind(), StorageErrorKind::InvalidPath);
    let e2 = backend.get_object(ObjectPath::new("bucket/x").unwrap()).unwrap_err();
    assert_eq!(e2.kind(), StorageErrorKind::OtherError);
    let e3 = backend.list_directory(ObjectPath::new("bucket/").unwrap()).unwrap_err();
    assert_eq!(e3.message(), "list_directory is not yet supported by this backend.");
}
