//! The networked object-store protocol client's decision core.
//!
//! The wire protocol is HTTPS with JSON bodies: an authorization handshake
//! over HTTP Basic credentials yields a session (account id, API base URL,
//! bearer token); API calls are then POSTs against that base URL carrying
//! the bearer token, and failures come back as a structured error body.
//! Everything the client decides — how requests are formed, how an error
//! body is classified, when an expired session is invalidated and a call
//! retried, how listing pages are walked and their entries turned into
//! objects — is here; the transport that carries the requests is layered
//! on top by callers.

use vstd::prelude::*;
use vstd::string::*;

use crate::error::{self, StorageError, StorageErrorKind};
use crate::object::{Object, ObjectInternals, ObjectType};
use crate::path::{has_drive_prefix, parsed_model, seg_wf, string_of, ObjectPath};

verus! {

/// How many attempts one API call gets before an expired authorization is
/// surfaced to the caller.
pub const API_RETRIES: u64 = 3;

/// Whether `p` is a character-for-character prefix of `s`.
pub open spec fn str_prefix(s: Seq<char>, p: Seq<char>) -> bool {
    p.len() <= s.len() && p == s.subrange(0, p.len() as int)
}

/// Character-for-character string equality.
fn str_eq(a: &str, b: &str) -> (r: bool)
    ensures
        r == (a@ == b@),
{
    a.to_owned() == b.to_owned()
}

/// Character-for-character prefix test.
fn str_starts_with(s: &str, p: &str) -> (r: bool)
    ensures
        r == str_prefix(s@, p@),
{
    let n = s.unicode_len();
    let m = p.unicode_len();
    if m > n {
        return false;
    }
    let mut i: usize = 0;
    while i < m
        invariant
            i <= m == p@.len(),
            m <= n == s@.len(),
            forall|k: int| 0 <= k < i ==> s@[k] == p@[k],
        decreases m - i,
    {
        if s.get_char(i) != p.get_char(i) {
            proof {
                assert(s@.subrange(0, p@.len() as int)[i as int] == s@[i as int]);
            }
            return false;
        }
        i = i + 1;
    }
    proof {
        assert(p@ =~= s@.subrange(0, p@.len() as int));
    }
    true
}

/// A cached authorization: account id, API base URL, bearer token.
#[derive(Debug, Clone)]
pub struct SessionInfo {
    pub account_id: String,
    pub api_url: String,
    pub authorization_token: String,
}

impl SessionInfo {
    /// An owned copy with the same value.
    pub fn duplicate(&self) -> (r: SessionInfo)
        ensures
            r == *self,
    {
        SessionInfo {
            account_id: self.account_id.clone(),
            api_url: self.api_url.clone(),
            authorization_token: self.authorization_token.clone(),
        }
    }
}

/// The session cache of one backend handle: at most one valid session at
/// a time. Callers guard it with a lock held only for these reads and
/// replacements, never across a network call.
#[derive(Debug)]
pub struct SessionCache {
    session: Option<SessionInfo>,
}

impl SessionCache {
    /// The cached session, if any.
    pub closed spec fn cached(&self) -> Option<SessionInfo> {
        self.session
    }

    /// An empty cache: the first call must authorize.
    pub fn new() -> (r: SessionCache)
        ensures
            r.cached() is None,
    {
        SessionCache { session: None }
    }

    /// The cached session, copied out; nothing when empty.
    pub fn get(&self) -> (r: Option<SessionInfo>)
        ensures
            r == self.cached(),
    {
        match &self.session {
            Some(s) => Some(s.duplicate()),
            None => None,
        }
    }

    /// Caches a freshly authorized session.
    pub fn store(&mut self, session: SessionInfo)
        ensures
            final(self).cached() == Some(session),
    {
        self.session = Some(session);
    }

    /// Invalidates the cached session only if its token is the one that
    /// just failed; a session another caller refreshed in the meantime is
    /// left in place.
    pub fn reset_session(&mut self, auth_token: &str)
        ensures
            final(self).cached() == (match old(self).cached() {
                Some(s) => if s.authorization_token@ == auth_token@ {
                    None::<SessionInfo>
                } else {
                    old(self).cached()
                },
                None => None::<SessionInfo>,
            }),
    {
        let clear = match &self.session {
            Some(s) => str_eq(s.authorization_token.as_str(), auth_token),
            None => false,
        };
        if clear {
            self.session = None;
        }
    }
}

/// The settings a networked backend is built from.
#[derive(Debug, Clone)]
pub struct B2Settings {
    pub key_id: String,
    pub key: String,
    pub host: String,
    pub prefix: ObjectPath,
}

/// The URL of one API method: the host, the protocol's fixed path and
/// version, and the method name.
pub open spec fn api_url_of(host: Seq<char>, method: Seq<char>) -> Seq<char> {
    host + "/b2api/v2/"@ + method
}

/// Builds the URL of one API method; see [`api_url_of`].
pub fn api_url(host: &str, method: &str) -> (r: String)
    ensures
        r@ == api_url_of(host@, method@),
{
    let mut out = host.to_owned();
    out.append("/b2api/v2/");
    out.append(method);
    out
}

/// The base64 encoding of a credential string, as the outside encoder
/// computes it from the string's bytes; the result depends on the input
/// characters alone.
pub uninterp spec fn base64_of(s: Seq<char>) -> Seq<char>;

/// Relies on base64::encode: standard-alphabet, padded encoding of the
/// input's bytes, a pure function of the input. The length bound keeps the
/// encoder's output-size computation from overflowing.
#[verifier::external_body]
fn base64_encode_str(s: &str) -> (r: String)
    requires
        s@.len() <= usize::MAX / 16,
    ensures
        r@ == base64_of(s@),
{
    base64::encode(s)
}

/// The Basic-authorization header value of the handshake:
/// `Basic base64(key_id:key)`.
pub fn basic_auth_secret(key_id: &str, key: &str) -> (r: String)
    requires
        key_id@.len() + key@.len() + 1 <= usize::MAX / 16,
    ensures
        r@ == "Basic "@ + base64_of(key_id@ + ":"@ + key@),
{
    proof {
        reveal_strlit(":");
    }
    let mut creds = key_id.to_owned();
    creds.append(":");
    creds.append(key);
    proof {
        assert(creds@.len() == key_id@.len() + 1 + key@.len());
    }
    let mut out = String::new();
    out.append("Basic ");
    out.append(base64_encode_str(creds.as_str()).as_str());
    out
}

/// The HTTP verb of a request.
#[derive(Clone, Copy, Debug, PartialEq, Eq, Structural)]
pub enum HttpVerb {
    Get,
    Post,
}

/// One request for the transport to carry: verb, URL and authorization
/// header. A call's JSON body is serialized beside this by the caller.
#[derive(Debug, Clone)]
pub struct ApiRequest {
    pub verb: HttpVerb,
    pub url: String,
    pub authorization: String,
}

/// The authorization handshake request: a GET to the authorize method on
/// the configured host, under the Basic credentials.
pub fn authorize_request(settings: &B2Settings) -> (r: ApiRequest)
    requires
        settings.key_id@.len() + settings.key@.len() + 1 <= usize::MAX / 16,
    ensures
        r.verb == HttpVerb::Get,
        r.url@ == api_url_of(settings.host@, "b2_authorize_account"@),
        r.authorization@ == "Basic "@ + base64_of(settings.key_id@ + ":"@ + settings.key@),
{
    ApiRequest {
        verb: HttpVerb::Get,
        url: api_url(settings.host.as_str(), "b2_authorize_account"),
        authorization: basic_auth_secret(settings.key_id.as_str(), settings.key.as_str()),
    }
}

/// A regular API call: a POST to the method on the session's base URL,
/// under the session's bearer token.
pub fn api_request(session: &SessionInfo, method: &str) -> (r: ApiRequest)
    ensures
        r.verb == HttpVerb::Post,
        r.url@ == api_url_of(session.api_url@, method@),
        r.authorization@ == session.authorization_token@,
{
    ApiRequest {
        verb: HttpVerb::Post,
        url: api_url(session.api_url.as_str(), method),
        authorization: session.authorization_token.clone(),
    }
}

/// The decimal digit character of one value under ten.
pub open spec fn digit_char(d: nat) -> char {
    (48 + d) as char
}

/// The decimal form of a number.
pub open spec fn dec_of(n: nat) -> Seq<char>
    decreases n,
{
    if n < 10 {
        seq![digit_char(n)]
    } else {
        dec_of(n / 10).push(digit_char(n % 10))
    }
}

/// One decimal digit as a string.
fn digit_str(d: u32) -> (r: String)
    requires
        d < 10,
    ensures
        r@ =~= seq![digit_char(d as nat)],
{
    proof {
        reveal_strlit("0");
        reveal_strlit("1");
        reveal_strlit("2");
        reveal_strlit("3");
        reveal_strlit("4");
        reveal_strlit("5");
        reveal_strlit("6");
        reveal_strlit("7");
        reveal_strlit("8");
        reveal_strlit("9");
    }
    let s: &str = match d {
        0 => "0",
        1 => "1",
        2 => "2",
        3 => "3",
        4 => "4",
        5 => "5",
        6 => "6",
        7 => "7",
        8 => "8",
        _ => "9",
    };
    s.to_owned()
}

/// A number in decimal.
fn u32_to_dec(n: u32) -> (r: String)
    ensures
        r@ == dec_of(n as nat),
    decreases n,
{
    if n < 10 {
        digit_str(n)
    } else {
        proof {
            assert(n / 10 < n) by (nonlinear_arith)
                requires
                    n >= 10,
            ;
        }
        let mut s = u32_to_dec(n / 10);
        let d = digit_str(n % 10);
        s.append(d.as_str());
        proof {
            assert(dec_of((n / 10) as nat).push(digit_char((n % 10) as nat)) =~= dec_of(
                (n / 10) as nat,
            ) + seq![digit_char((n % 10) as nat)]);
        }
        s
    }
}

/// The structured error body an unsuccessful API response carries.
#[derive(Debug, Clone)]
pub struct ErrorResponse {
    pub status: u32,
    pub code: String,
    pub message: String,
}

/// The error kind an API failure is classified into, by the method under
/// way, the HTTP status, and the error code: a bad token during the
/// authorization handshake means the credentials themselves were refused,
/// while during a regular call it means the session expired; an unknown
/// bucket id is a missing object; everything unrecognized is passed
/// through as an other-error.
pub open spec fn classified_kind(method: Seq<char>, status: u32, code: Seq<char>)
    -> StorageErrorKind {
    if method == "b2_authorize_account"@ && status == 401 && code == "bad_auth_token"@ {
        StorageErrorKind::AccessDenied
    } else if status == 400 && code == "bad_request"@ {
        StorageErrorKind::InternalError
    } else if status == 400 && code == "invalid_bucket_id"@ {
        StorageErrorKind::NotFound
    } else if status == 400 && code == "out_of_range"@ {
        StorageErrorKind::InternalError
    } else if status == 401 && code == "unauthorized"@ {
        StorageErrorKind::AccessDenied
    } else if status == 401 && code == "bad_auth_token"@ {
        StorageErrorKind::AccessExpired
    } else if status == 401 && code == "expired_auth_token"@ {
        StorageErrorKind::AccessExpired
    } else if status == 401 && code == "unsupported"@ {
        StorageErrorKind::InternalError
    } else if status == 503 && code == "bad_request"@ {
        StorageErrorKind::ConnectionFailed
    } else {
        StorageErrorKind::OtherError
    }
}

/// Classifies a parsed API error body; see [`classified_kind`]. The
/// message is the service's own where the failure is passed through, a
/// fixed explanation where the kind carries one, and the path stands in
/// the error where a missing object is reported.
pub fn generate_error(method: &str, path: &ObjectPath, response: &ErrorResponse) -> (r:
    StorageError)
    requires
        path@.wf(),
    ensures
        r@.kind == classified_kind(method@, response.status, response.code@),
        r@.kind == StorageErrorKind::AccessDenied ==> r@.message
            == "The application key id or key were not recognized."@,
        r@.kind == StorageErrorKind::InternalError ==> r@.message == response.message@,
        r@.kind == StorageErrorKind::ConnectionFailed ==> r@.message == response.message@,
        r@.kind == StorageErrorKind::NotFound ==> (r@.path matches Some(p) && p == path@),
        (r@.kind == StorageErrorKind::AccessExpired && response.code@ == "bad_auth_token"@)
            ==> r@.message == "The authentication token is invalid."@,
        (r@.kind == StorageErrorKind::AccessExpired && response.code@ == "expired_auth_token"@)
            ==> r@.message == "The authentication token has expired."@,
        r@.kind == StorageErrorKind::OtherError ==> r@.message == "Unknown B2 API failure "@
            + dec_of(response.status as nat) + ": "@ + response.code@ + ", "@ + response.message@,
{
    proof {
        reveal_strlit("bad_auth_token");
        reveal_strlit("expired_auth_token");
    }
    let code = response.code.as_str();
    let status = response.status;
    if str_eq(method, "b2_authorize_account") && status == 401 && str_eq(code, "bad_auth_token") {
        error::access_denied("The application key id or key were not recognized.")
    } else if status == 400 && str_eq(code, "bad_request") {
        error::internal_error(response.message.as_str())
    } else if status == 400 && str_eq(code, "invalid_bucket_id") {
        error::not_found(path.duplicate())
    } else if status == 400 && str_eq(code, "out_of_range") {
        error::internal_error(response.message.as_str())
    } else if status == 401 && str_eq(code, "unauthorized") {
        error::access_denied("The application key id or key were not recognized.")
    } else if status == 401 && str_eq(code, "bad_auth_token") {
        proof {
            assert("bad_auth_token"@.len() == 14);
            assert("expired_auth_token"@.len() == 18);
            assert(response.code@ != "expired_auth_token"@);
        }
        error::access_expired("The authentication token is invalid.")
    } else if status == 401 && str_eq(code, "expired_auth_token") {
        error::access_expired("The authentication token has expired.")
    } else if status == 401 && str_eq(code, "unsupported") {
        error::internal_error(response.message.as_str())
    } else if status == 503 && str_eq(code, "bad_request") {
        error::connection_failed(response.message.as_str())
    } else {
        let mut msg = String::new();
        msg.append("Unknown B2 API failure ");
        let st = u32_to_dec(status);
        msg.append(st.as_str());
        msg.append(": ");
        msg.append(code);
        msg.append(", ");
        msg.append(response.message.as_str());
        error::other_error(msg.as_str())
    }
}

/// A response to a failed parse of an API response body.
pub fn parse_failure_error(method: &str) -> (r: StorageError)
    ensures
        r@.kind == StorageErrorKind::InvalidData,
        r@.message == "Unable to parse response from "@ + method@ + "."@,
{
    let mut msg = String::new();
    msg.append("Unable to parse response from ");
    msg.append(method);
    msg.append(".");
    error::invalid_data(msg.as_str())
}

/// A response to a failed parse of an API error body.
pub fn error_parse_failure(method: &str) -> (r: StorageError)
    ensures
        r@.kind == StorageErrorKind::InvalidData,
        r@.message == "Unable to parse error response from "@ + method@ + "."@,
{
    let mut msg = String::new();
    msg.append("Unable to parse error response from ");
    msg.append(method);
    msg.append(".");
    error::invalid_data(msg.as_str())
}

/// The retry state of one API call: how many attempts have failed with an
/// expired authorization, against the fixed attempt budget.
#[derive(Debug, Clone, Copy)]
pub struct ApiCallState {
    tries: u64,
    budget: u64,
}

impl ApiCallState {
    /// Attempts already spent on expired authorizations.
    pub closed spec fn tries(&self) -> nat {
        self.tries as nat
    }

    /// The total attempt budget.
    pub closed spec fn budget(&self) -> nat {
        self.budget as nat
    }

    /// Well-formedness: another attempt is still possible.
    pub open spec fn wf(&self) -> bool {
        self.tries() < self.budget()
    }

    /// A fresh call with the given attempt budget.
    pub fn new(budget: u64) -> (r: ApiCallState)
        requires
            budget > 0,
        ensures
            r.wf(),
            r.tries() == 0,
            r.budget() == budget,
    {
        ApiCallState { tries: 0, budget }
    }

    /// A fresh call with the default budget.
    pub fn with_default_budget() -> (r: ApiCallState)
        ensures
            r.wf(),
            r.tries() == 0,
            r.budget() == API_RETRIES,
    {
        ApiCallState { tries: 0, budget: API_RETRIES }
    }

    /// Decides what a failed attempt means: an expired authorization is
    /// retried while the budget lasts (after the caller invalidates the
    /// session that failed, see [`SessionCache::reset_session`]); any
    /// other failure, or an expiry past the budget, is surfaced.
    pub fn on_failure(&mut self, error_kind: StorageErrorKind) -> (retry: bool)
        requires
            old(self).wf(),
        ensures
            retry == (error_kind == StorageErrorKind::AccessExpired && old(self).tries() + 1 < old(
                self,
            ).budget()),
            final(self).budget() == old(self).budget(),
            error_kind == StorageErrorKind::AccessExpired ==> final(self).tries() == old(
                self,
            ).tries() + 1,
            error_kind != StorageErrorKind::AccessExpired ==> final(self).tries() == old(
                self,
            ).tries(),
            retry ==> final(self).wf(),
    {
        if let StorageErrorKind::AccessExpired = error_kind {
            self.tries = self.tries + 1;
            self.tries < self.budget
        } else {
            false
        }
    }
}

/// Which attempt's outcome a call with the given budget surfaces, over a
/// simulated sequence of attempt outcomes (`None` a success, `Some` a
/// failure of that kind): the first attempt that does not fail with an
/// expired authorization, or the last budgeted attempt.
pub open spec fn surfaced(outcomes: Seq<Option<StorageErrorKind>>, budget: nat) -> int
    decreases budget,
{
    if outcomes.len() == 0 {
        0
    } else if outcomes[0] != Some(StorageErrorKind::AccessExpired) {
        0
    } else if budget <= 1 {
        0
    } else {
        1 + surfaced(outcomes.drop_first(), (budget - 1) as nat)
    }
}

/// Runs the retry policy over a simulated sequence of attempt outcomes,
/// yielding the index of the surfaced attempt and its outcome.
pub fn resolve_attempts(outcomes: &Vec<Option<StorageErrorKind>>, budget: u64) -> (r: (
    usize,
    Option<StorageErrorKind>,
))
    requires
        budget >= 1,
        outcomes@.len() >= budget,
    ensures
        r.0 == surfaced(outcomes@, budget as nat),
        r.1 == outcomes@[r.0 as int],
{
    let mut state = ApiCallState::new(budget);
    let n = outcomes.len();
    let mut i: usize = 0;
    proof {
        assert(outcomes@.skip(0) =~= outcomes@);
    }
    loop
        invariant
            state.wf(),
            state.budget() == budget,
            state.tries() == i,
            n == outcomes@.len(),
            i < budget <= outcomes@.len(),
            surfaced(outcomes@, budget as nat) == i + surfaced(
                outcomes@.skip(i as int),
                (budget - i) as nat,
            ),
        decreases budget - i,
    {
        let ghost rest = outcomes@.skip(i as int);
        proof {
            assert(rest[0] == outcomes@[i as int]);
            assert(rest.drop_first() =~= outcomes@.skip(i as int + 1));
        }
        match &outcomes[i] {
            None => {
                return (i, None);
            },
            Some(k) => {
                let kind = *k;
                if !state.on_failure(kind) {
                    return (i, Some(kind));
                }
                i = i + 1;
            },
        }
    }
}

/// One transparently retried expiry: when the first attempt fails with an
/// expired authorization and the second succeeds, the call surfaces the
/// second attempt's success and the caller sees no error.
pub proof fn lemma_retry_masks_single_expiry(outcomes: Seq<Option<StorageErrorKind>>)
    requires
        outcomes.len() >= 2,
        outcomes[0] == Some(StorageErrorKind::AccessExpired),
        outcomes[1] is None,
    ensures
        surfaced(outcomes, API_RETRIES as nat) == 1,
        outcomes[surfaced(outcomes, API_RETRIES as nat)] is None,
{
    assert(outcomes.drop_first()[0] == outcomes[1]);
    assert(surfaced(outcomes.drop_first(), 2) == 0);
}

/// An exhausted budget: when every budgeted attempt fails with an expired
/// authorization, the call surfaces that expired-authorization failure.
pub proof fn lemma_expiry_exhausts_budget(outcomes: Seq<Option<StorageErrorKind>>)
    requires
        outcomes.len() >= 3,
        outcomes[0] == Some(StorageErrorKind::AccessExpired),
        outcomes[1] == Some(StorageErrorKind::AccessExpired),
        outcomes[2] == Some(StorageErrorKind::AccessExpired),
    ensures
        surfaced(outcomes, API_RETRIES as nat) == 2,
        outcomes[surfaced(outcomes, API_RETRIES as nat)] == Some(StorageErrorKind::AccessExpired),
{
    let d1 = outcomes.drop_first();
    let d2 = d1.drop_first();
    assert(d1[0] == outcomes[1]);
    assert(d2[0] == d1[1] && d1[1] == outcomes[2]);
    assert(surfaced(d2, 1) == 0);
    assert(surfaced(d1, 2) == 1);
}

/// One file entry as a listing call reports it.
#[derive(Debug, Clone)]
pub struct FileInfo {
    pub file_name: String,
    pub content_length: u64,
}

/// One bucket as the bucket-listing call reports it.
#[derive(Debug, Clone)]
pub struct Bucket {
    pub bucket_id: String,
    pub bucket_name: String,
}

impl Bucket {
    /// An owned copy with the same value.
    pub fn duplicate(&self) -> (r: Bucket)
        ensures
            r == *self,
    {
        Bucket { bucket_id: self.bucket_id.clone(), bucket_name: self.bucket_name.clone() }
    }
}

/// The request body of the bucket-listing call.
#[derive(Debug, Clone)]
pub struct ListBucketsRequest {
    pub account_id: String,
    pub bucket_id: Option<String>,
    pub bucket_name: Option<String>,
}

/// The request body of the file-name-listing call; `start_file_name` is
/// the pagination cursor.
#[derive(Debug, Clone)]
pub struct ListFileNamesRequest {
    pub bucket_id: String,
    pub start_file_name: Option<String>,
    pub max_file_count: Option<u32>,
    pub prefix: Option<String>,
    pub delimiter: Option<String>,
}

/// How a listing maps onto the protocol: the first path segment names the
/// bucket; the rest is the file-name prefix within it. Listing a path
/// below or at a single bucket restricts the bucket listing to that name;
/// listing the bare root walks every bucket.
#[derive(Debug)]
pub struct ListPlan {
    pub bucket: String,
    pub file_part: ObjectPath,
    pub only_matching_bucket: bool,
}

/// Splits a listing request into its bucket name and in-bucket file part;
/// see [`ListPlan`].
pub fn prepare_list(backend_prefix: &ObjectPath, prefix: &ObjectPath) -> (r: ListPlan)
    requires
        backend_prefix@.wf(),
        prefix@.wf(),
    ensures
        ({
            let segs = backend_prefix@.segments + prefix@.segments;
            let dir = prefix@.dir;
            &&& r.file_part@.wf()
            &&& segs.len() > 0 ==> r.bucket@ == segs[0] && r.file_part@.segments
                == segs.drop_first()
            &&& segs.len() == 0 ==> r.bucket@ == Seq::<char>::empty() && r.file_part@.segments
                == Seq::<Seq<char>>::empty()
            &&& r.only_matching_bucket == (segs.len() > 1 || dir)
        }),
{
    let mut file_part = backend_prefix.join(prefix);
    let is_dir = file_part.is_dir_prefix();
    let bucket = match file_part.shift_part() {
        Some(s) => s,
        None => String::new(),
    };
    let only_matching_bucket = !file_part.is_empty() || is_dir;
    ListPlan { bucket, file_part, only_matching_bucket }
}

/// The name-and-id pairs of a bucket listing.
pub open spec fn bucket_pairs(buckets: Seq<Bucket>) -> Seq<(Seq<char>, Seq<char>)> {
    buckets.map_values(|b: Bucket| (b.bucket_name@, b.bucket_id@))
}

/// Keeps the buckets whose name starts with the requested bucket name, in
/// order: the buckets a listing walks.
pub fn filter_buckets(buckets: &Vec<Bucket>, name_prefix: &str) -> (r: Vec<Bucket>)
    ensures
        bucket_pairs(r@) == bucket_pairs(buckets@).filter(
            |p: (Seq<char>, Seq<char>)| str_prefix(p.0, name_prefix@),
        ),
{
    let ghost pred = |p: (Seq<char>, Seq<char>)| str_prefix(p.0, name_prefix@);
    let ghost ms = bucket_pairs(buckets@);
    let mut r: Vec<Bucket> = Vec::new();
    proof {
        reveal(Seq::filter);
        assert(ms.take(0) =~= Seq::<(Seq<char>, Seq<char>)>::empty());
        assert(bucket_pairs(r@) =~= ms.take(0).filter(pred));
    }
    let mut i: usize = 0;
    while i < buckets.len()
        invariant
            i <= buckets.len(),
            pred == (|p: (Seq<char>, Seq<char>)| str_prefix(p.0, name_prefix@)),
            ms == bucket_pairs(buckets@),
            bucket_pairs(r@) =~= ms.take(i as int).filter(pred),
        decreases buckets.len() - i,
    {
        let ghost done = ms.take(i as int);
        proof {
            reveal(Seq::filter);
            assert(ms[i as int] == (buckets@[i as int].bucket_name@, buckets@[i as int].bucket_id@));
            assert(ms.take(i + 1).drop_last() =~= done);
            assert(ms.take(i + 1).last() == ms[i as int]);
        }
        if str_starts_with(buckets[i].bucket_name.as_str(), name_prefix) {
            let d = buckets[i].duplicate();
            let ghost old_r = r@;
            r.push(d);
            proof {
                assert(bucket_pairs(r@) =~= bucket_pairs(old_r).push(ms[i as int])) by {
                    assert forall|k: int| 0 <= k < r@.len() implies #[trigger] bucket_pairs(r@)[k]
                        == bucket_pairs(old_r).push(ms[i as int])[k] by {
                        assert(bucket_pairs(r@)[k] == (r@[k].bucket_name@, r@[k].bucket_id@));
                        if k < old_r.len() {
                            assert(r@[k] == old_r[k]);
                            assert(bucket_pairs(old_r)[k] == (
                                old_r[k].bucket_name@,
                                old_r[k].bucket_id@,
                            ));
                        }
                    }
                }
                assert(bucket_pairs(r@) =~= ms.take(i + 1).filter(pred));
            }
        } else {
            proof {
                assert(bucket_pairs(r@) =~= ms.take(i + 1).filter(pred));
            }
        }
        i = i + 1;
    }
    proof {
        assert(ms.take(buckets@.len() as int) =~= ms);
    }
    r
}

/// The bucket-listing request a listing issues: all of the account's
/// buckets, or just the one named bucket where the listing is confined to
/// it.
pub fn make_list_buckets_request(account_id: String, plan: &ListPlan) -> (r: ListBucketsRequest)
    ensures
        r.account_id == account_id,
        r.bucket_id is None,
        plan.only_matching_bucket ==> (r.bucket_name matches Some(n) && n == plan.bucket),
        !plan.only_matching_bucket ==> r.bucket_name is None,
{
    let bucket_name = if plan.only_matching_bucket {
        Some(plan.bucket.clone())
    } else {
        None
    };
    ListBucketsRequest { account_id, bucket_id: None, bucket_name }
}

/// The first file-name-listing request for one bucket: no cursor yet, the
/// in-bucket file part as the name prefix.
pub fn make_list_file_names_request(bucket: &Bucket, plan: &ListPlan) -> (r: ListFileNamesRequest)
    requires
        plan.file_part@.wf(),
    ensures
        r.bucket_id == bucket.bucket_id,
        r.start_file_name is None,
        r.max_file_count is None,
        r.delimiter is None,
        r.prefix matches Some(p) && p@ == string_of(plan.file_part@),
{
    ListFileNamesRequest {
        bucket_id: bucket.bucket_id.clone(),
        start_file_name: None,
        max_file_count: None,
        prefix: Some(plan.file_part.to_string()),
        delimiter: None,
    }
}

/// The pagination state of one file-name listing: the request to repeat
/// (with a moving cursor), the entries received and not yet handed out,
/// and whether another page is still owed.
#[derive(Debug)]
pub struct ListFileNamesStream {
    options: ListFileNamesRequest,
    results: Vec<FileInfo>,
    in_flight: bool,
}

impl ListFileNamesStream {
    /// The entries received and not yet handed out, in arrival order.
    pub closed spec fn pending(&self) -> Seq<FileInfo> {
        self.results@
    }

    /// Whether another page is still owed by the service.
    pub closed spec fn awaiting(&self) -> bool {
        self.in_flight
    }

    /// The request the next page is fetched with.
    pub closed spec fn options_spec(&self) -> ListFileNamesRequest {
        self.options
    }

    /// A stream about to fetch its first page with the given request.
    pub fn new(options: ListFileNamesRequest) -> (r: ListFileNamesStream)
        ensures
            r.pending() == Seq::<FileInfo>::empty(),
            r.awaiting(),
            r.options_spec() == options,
    {
        ListFileNamesStream { options, results: Vec::new(), in_flight: true }
    }

    /// The request to send for the next page, while one is owed.
    pub fn next_request(&self) -> (r: Option<&ListFileNamesRequest>)
        ensures
            self.awaiting() ==> (r matches Some(q) && *q == self.options_spec()),
            !self.awaiting() ==> r is None,
    {
        if self.in_flight {
            Some(&self.options)
        } else {
            None
        }
    }

    /// Feeds one received page in: its entries queue up behind the ones
    /// already held, in order, and the returned cursor decides whether
    /// another page is fetched (from that cursor on) or the listing is
    /// complete.
    pub fn on_page(&mut self, files: Vec<FileInfo>, next_file_name: Option<String>)
        requires
            old(self).awaiting(),
        ensures
            final(self).pending() == old(self).pending() + files@,
            next_file_name matches Some(n) ==> final(self).awaiting()
                && final(self).options_spec() == (ListFileNamesRequest {
                start_file_name: Some(n),
                ..old(self).options_spec()
            }),
            next_file_name is None ==> !final(self).awaiting() && final(self).options_spec()
                == old(self).options_spec(),
    {
        let mut f = files;
        self.results.append(&mut f);
        match next_file_name {
            Some(n) => {
                self.options.start_file_name = Some(n);
            },
            None => {
                self.in_flight = false;
            },
        }
    }

    /// Hands out the next received entry, oldest first; nothing while the
    /// queue is drained.
    pub fn next_ready(&mut self) -> (r: Option<FileInfo>)
        ensures
            final(self).awaiting() == old(self).awaiting(),
            final(self).options_spec() == old(self).options_spec(),
            old(self).pending().len() == 0 ==> r is None && final(self).pending() == old(
                self,
            ).pending(),
            old(self).pending().len() > 0 ==> (r matches Some(f) && f == old(self).pending()[0])
                && final(self).pending() == old(self).pending().drop_first(),
    {
        if self.results.len() == 0 {
            None
        } else {
            let f = self.results.remove(0);
            proof {
                assert(self.results@ =~= old(self).results@.drop_first());
            }
            Some(f)
        }
    }

    /// Whether the listing is exhausted: no page owed, nothing queued.
    pub fn done(&self) -> (r: bool)
        ensures
            r == (!self.awaiting() && self.pending().len() == 0),
    {
        !self.in_flight && self.results.len() == 0
    }
}

/// Turns one listed file entry into an object: the file name parses to a
/// path, the bucket name is prepended, a trailing-separator name makes a
/// directory entry, and the backend's own path prefix is peeled off the
/// front. A file name with a platform drive prefix is rejected.
pub fn new_object(bucket: &str, info: &FileInfo, prefix: &ObjectPath) -> (r: Result<
    Object,
    StorageError,
>)
    requires
        seg_wf(bucket@),
        prefix@.wf(),
    ensures
        r is Err <==> has_drive_prefix(info.file_name@),
        r matches Err(e) ==> e@.kind == StorageErrorKind::InvalidPath,
        r matches Ok(o) ==> ({
            let parsed = parsed_model(info.file_name@);
            let full = seq![bucket@] + parsed.segments;
            let keep: int = if prefix@.segments.len() <= full.len() {
                prefix@.segments.len() as int
            } else {
                full.len() as int
            };
            &&& o@.internals == ObjectInternals::B2
            &&& o@.size == info.content_length
            &&& o@.object_type == (if parsed.dir {
                ObjectType::Directory
            } else {
                ObjectType::File
            })
            &&& o@.path.segments == full.skip(keep)
            &&& o@.path.absolute == parsed.absolute
            &&& o@.path.dir == (o@.path.segments.len() == 0)
            &&& o@.path.wf()
        }),
{
    let mut path = match ObjectPath::new(info.file_name.as_str()) {
        Ok(p) => p,
        Err(e) => {
            return Err(e);
        },
    };
    path.unshift_part(bucket);
    let ghost parsed = parsed_model(info.file_name@);
    let ghost full = seq![bucket@] + parsed.segments;
    proof {
        assert(path@.segments =~= full);
    }
    let o_type = if path.is_dir_prefix() {
        path.pop_part();
        ObjectType::Directory
    } else {
        ObjectType::File
    };
    proof {
        assert(path@.segments =~= full.skip(0));
        assert(!path@.dir);
        assert(path@.segments.len() > 0);
    }
    let count = prefix.part_count();
    let mut i: usize = 0;
    while i < count
        invariant
            i <= count == prefix@.segments.len(),
            path@.wf(),
            path@.absolute == parsed.absolute,
            path@.segments =~= full.skip(
                if i <= full.len() {
                    i as int
                } else {
                    full.len() as int
                },
            ),
            path@.dir == (path@.segments.len() == 0),
        decreases count - i,
    {
        let ghost before = path@.segments;
        let _ = path.shift_part();
        proof {
            if before.len() > 0 {
                assert(before.drop_first() =~= full.skip(
                    if i + 1 <= full.len() {
                        i + 1
                    } else {
                        full.len() as int
                    },
                ));
            } else {
                assert(full.skip(full.len() as int) =~= Seq::<Seq<char>>::empty());
            }
        }
        i = i + 1;
    }
    Ok(Object::new(ObjectInternals::B2, o_type, path, info.content_length))
}

/// What the library reads from a transport failure: the transport's own
/// classification flags and its message.
#[derive(Debug, Clone)]
pub struct TransportErrorFlags {
    pub is_parse: bool,
    pub is_user: bool,
    pub is_canceled: bool,
    pub is_closed: bool,
    pub is_connect: bool,
    pub is_incomplete_message: bool,
}

/// Translates a transport failure at the boundary: a cancelled request,
/// a closed or refused connection, and an incomplete message each map to
/// their kind; parse and user errors, and anything else, mean the data
/// exchanged could not be understood.
pub fn map_transport_error(flags: &TransportErrorFlags, message: &str) -> (r: StorageError)
    ensures
        r@.message == message@,
        r@.kind == (if flags.is_parse || flags.is_user {
            StorageErrorKind::InvalidData
        } else if flags.is_canceled {
            StorageErrorKind::Cancelled
        } else if flags.is_closed {
            StorageErrorKind::ConnectionClosed
        } else if flags.is_connect {
            StorageErrorKind::ConnectionFailed
        } else if flags.is_incomplete_message {
            StorageErrorKind::ConnectionClosed
        } else {
            StorageErrorKind::InvalidData
        }),
{
    if flags.is_parse || flags.is_user {
        error::invalid_data(message)
    } else if flags.is_canceled {
        error::cancelled(message)
    } else if flags.is_closed {
        error::connection_closed(message)
    } else if flags.is_connect {
        error::connection_failed(message)
    } else if flags.is_incomplete_message {
        error::connection_closed(message)
    } else {
        error::invalid_data(message)
    }
}

/// The networked backend: the settings its requests are built from. Its
/// live connection state (transport client and session cache) is owned by
/// the caller that drives it.
#[derive(Debug, Clone)]
pub struct B2Backend {
    settings: B2Settings,
}

/// Builds a [`B2Backend`] with custom settings.
#[derive(Debug, Clone)]
pub struct B2BackendBuilder {
    settings: B2Settings,
}

impl B2Backend {
    /// The settings the backend was built with.
    pub closed spec fn settings_spec(&self) -> B2Settings {
        self.settings
    }

    /// Starts a builder from the key id and key alone: the public API
    /// host, no path prefix.
    pub fn builder(key_id: &str, key: &str) -> (r: B2BackendBuilder)
        ensures
            r.settings_spec().key_id@ == key_id@,
            r.settings_spec().key@ == key@,
            r.settings_spec().host@ == "https://api.backblazeb2.com"@,
            r.settings_spec().prefix@.segments.len() == 0,
            r.settings_spec().prefix@.wf(),
    {
        B2BackendBuilder {
            settings: B2Settings {
                key_id: key_id.to_owned(),
                key: key.to_owned(),
                host: "https://api.backblazeb2.com".to_owned(),
                prefix: ObjectPath::empty(),
            },
        }
    }

    /// The settings, for callers that drive the backend.
    pub fn settings(&self) -> (r: &B2Settings)
        ensures
            *r == self.settings_spec(),
    {
        &self.settings
    }

    /// Validates the target of a metadata request: object paths must name
    /// a concrete entry. The fetch itself is not yet wired up, so a valid
    /// target is answered with a typed not-yet-supported failure.
    pub fn get_object(&self, path: ObjectPath) -> (r: Result<Object, StorageError>)
        requires
            path@.wf(),
        ensures
            path@.dir ==> ({
                &&& r matches Err(e)
                &&& e@.kind == StorageErrorKind::InvalidPath
                &&& e@.message == "Object paths cannot be empty or end with a '/' character."@
                &&& e@.path matches Some(p) && p == path@
            }),
            !path@.dir ==> (r matches Err(e) && e@.kind == StorageErrorKind::OtherError),
    {
        if path.is_dir_prefix() {
            return Err(
                error::invalid_path(
                    path,
                    "Object paths cannot be empty or end with a '/' character.",
                ),
            );
        }
        Err(error::unsupported("get_object"))
    }

    /// Single-level listing is not yet wired up for this backend; the
    /// outcome is a typed failure, never a crash.
    pub fn list_directory(&self, _dir: ObjectPath) -> (r: Result<Vec<Object>, StorageError>)
        ensures
            r matches Err(e) && e@.kind == StorageErrorKind::OtherError && e@.message
                == "list_directory"@ + " is not yet supported by this backend."@,
    {
        Err(error::unsupported("list_directory"))
    }
}

impl B2BackendBuilder {
    /// The settings gathered so far.
    pub closed spec fn settings_spec(&self) -> B2Settings {
        self.settings
    }

    /// Replaces the API host; used for testing against another endpoint.
    pub fn host(self, host: &str) -> (r: B2BackendBuilder)
        ensures
            r.settings_spec().host@ == host@,
            r.settings_spec().key_id == self.settings_spec().key_id,
            r.settings_spec().key == self.settings_spec().key,
            r.settings_spec().prefix == self.settings_spec().prefix,
    {
        let mut s = self;
        s.settings.host = host.to_owned();
        s
    }

    /// Sets a path prefix that roots every request under a sub-path.
    pub fn prefix(self, prefix: ObjectPath) -> (r: B2BackendBuilder)
        ensures
            r.settings_spec().prefix == prefix,
            r.settings_spec().key_id == self.settings_spec().key_id,
            r.settings_spec().key == self.settings_spec().key,
            r.settings_spec().host == self.settings_spec().host,
    {
        let mut s = self;
        s.settings.prefix = prefix;
        s
    }

    /// The backend these settings describe; connecting it (building a
    /// transport and authorizing a first session) is the caller's part.
    pub fn build(self) -> (r: B2Backend)
        ensures
            r.settings_spec() == self.settings_spec(),
    {
        B2Backend { settings: self.settings }
    }
}

} // verus!
