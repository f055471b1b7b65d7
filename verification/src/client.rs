//! The decisions of the Internet Archive client: which request each
//! operation sends, and what each response means.
//!
//! Sending requests and reading responses is left to the caller; every
//! function here works on plain values.

use vstd::prelude::*;

use crate::endpoint::{segments_url, Endpoint};
use crate::error::{is_ascii_ws, InternetArchiveError};
use crate::ids::ItemIdentifier;
use crate::diff::{json_metadata_diff, metadata_diff};
use crate::metadata::{pairs_view, patch_view, update_merge, ItemMetadata, PatchOperation};
use crate::model::{named_identifier, Item, MetadataWriteResponse};
use crate::search::{ordered_entries_of, search_pairs, SearchQuery};
use crate::text::{append_str, str_eq};
use crate::upload::{delete_headers, delete_headers_spec, DeleteOptions};
use crate::urls::{join_url, url_join, url_parse, url_with_query_pairs, UrlParseError};

verus! {

/// Abstract form of [`Auth`].
pub struct AuthView {
    pub access_key: Seq<char>,
    pub secret_key: Seq<char>,
}

/// LOW-auth credentials for Internet Archive programmatic access.
#[derive(Clone)]
pub struct Auth {
    access_key: String,
    secret_key: String,
}

impl View for Auth {
    type V = AuthView;

    closed spec fn view(&self) -> AuthView {
        AuthView { access_key: self.access_key@, secret_key: self.secret_key@ }
    }
}

/// The value of the `authorization` header: `LOW {access}:{secret}`.
pub open spec fn low_authorization(a: AuthView) -> Seq<char> {
    "LOW "@ + a.access_key + ":"@ + a.secret_key
}

/// The view of optional credentials.
pub open spec fn auth_view(auth: Option<&Auth>) -> Option<AuthView> {
    match auth {
        Some(a) => Some(a@),
        None => None,
    }
}

/// The headers that credentials add to a request.
pub open spec fn auth_headers(auth: Option<AuthView>) -> Seq<(Seq<char>, Seq<char>)> {
    match auth {
        Some(a) => seq![("authorization"@, low_authorization(a))],
        None => Seq::empty(),
    }
}

impl Auth {
    /// Standard environment variable for the S3 access key.
    pub const ACCESS_KEY_ENV_VAR: &'static str = "INTERNET_ARCHIVE_ACCESS_KEY";

    /// Standard environment variable for the S3 secret key.
    pub const SECRET_KEY_ENV_VAR: &'static str = "INTERNET_ARCHIVE_SECRET_KEY";

    /// Creates a new auth pair.
    pub fn new(access_key: String, secret_key: String) -> (r: Self)
        ensures
            r@.access_key == access_key@,
            r@.secret_key == secret_key@,
    {
        Auth { access_key, secret_key }
    }

    /// Builds credentials from the outcome of looking up two environment
    /// variables: the value, or why the lookup failed. The access key is
    /// read first; the first failed lookup is reported with its name.
    pub fn from_env_values(
        access_name: &str,
        access: Result<String, String>,
        secret_name: &str,
        secret: Result<String, String>,
    ) -> (r: Result<Self, InternetArchiveError>)
        ensures
            match (access, secret) {
                (Err(m), _) => r matches Err(InternetArchiveError::EnvVar { name, message })
                    && name@ == access_name@ && message@ == m@,
                (Ok(_), Err(m)) => r matches Err(InternetArchiveError::EnvVar { name, message })
                    && name@ == secret_name@ && message@ == m@,
                (Ok(a), Ok(s)) => r matches Ok(auth) && auth@.access_key == a@
                    && auth@.secret_key == s@,
            },
    {
        let access_key = match access {
            Ok(v) => v,
            Err(message) => {
                return Err(
                    InternetArchiveError::EnvVar { name: access_name.to_owned(), message },
                );
            },
        };
        let secret_key = match secret {
            Ok(v) => v,
            Err(message) => {
                return Err(
                    InternetArchiveError::EnvVar { name: secret_name.to_owned(), message },
                );
            },
        };
        Ok(Auth::new(access_key, secret_key))
    }

    /// The value of the `authorization` header for these credentials.
    pub fn authorization_header(&self) -> (r: String)
        ensures
            r@ == low_authorization(self@),
    {
        let mut s = "LOW ".to_owned();
        append_str(&mut s, self.access_key.as_str());
        append_str(&mut s, ":");
        append_str(&mut s, self.secret_key.as_str());
        s
    }
}

/// The HTTP methods the client sends.
#[derive(Clone, Copy, Debug, PartialEq, Eq, Structural)]
pub enum HttpMethod {
    Get,
    Post,
    Put,
    Delete,
}

/// A request to send: method, URL and headers in the order they are set.
#[derive(Clone, Debug, PartialEq, Eq)]
pub struct HttpRequest {
    pub method: HttpMethod,
    pub url: String,
    pub headers: Vec<(String, String)>,
}

/// Appends the headers of optional credentials.
fn push_auth(headers: &mut Vec<(String, String)>, auth: Option<&Auth>)
    ensures
        pairs_view(final(headers)@) == pairs_view(old(headers)@) + auth_headers(auth_view(auth)),
{
    let ghost before = headers@;
    match auth {
        Some(a) => {
            headers.push(("authorization".to_owned(), a.authorization_header()));
            assert(pairs_view(headers@) =~= pairs_view(before) + auth_headers(auth_view(auth)));
        },
        None => {
            assert(pairs_view(headers@) =~= pairs_view(before) + auth_headers(auth_view(auth)));
        },
    }
}

/// A request to the archive host: the credentials' header when there are any.
pub fn archive_request(auth: Option<&Auth>, method: HttpMethod, url: String) -> (r: HttpRequest)
    ensures
        r.method == method,
        r.url@ == url@,
        pairs_view(r.headers@) == auth_headers(auth_view(auth)),
{
    let mut headers: Vec<(String, String)> = Vec::new();
    push_auth(&mut headers, auth);
    assert(pairs_view(Seq::<(String, String)>::empty()) =~= Seq::empty());
    HttpRequest { method, url, headers }
}

/// A request to the S3 host: `headers`, then the credentials' header;
/// refused without credentials.
pub fn s3_request(
    auth: Option<&Auth>,
    method: HttpMethod,
    url: String,
    headers: Vec<(String, String)>,
) -> (r: Result<HttpRequest, InternetArchiveError>)
    ensures
        match auth {
            None => r matches Err(InternetArchiveError::MissingAuth),
            Some(a) => r matches Ok(req) && req.method == method && req.url@ == url@ && pairs_view(
                req.headers@,
            ) == pairs_view(headers@) + auth_headers(Some(a@)),
        },
{
    match auth {
        None => Err(InternetArchiveError::MissingAuth),
        Some(_) => {
            let mut headers = headers;
            push_auth(&mut headers, auth);
            Ok(HttpRequest { method, url, headers })
        },
    }
}

/// Appends one header pair.
fn push_pair(headers: &mut Vec<(String, String)>, name: &str, value: &str)
    ensures
        pairs_view(final(headers)@) == pairs_view(old(headers)@).push((name@, value@)),
{
    let ghost before = headers@;
    headers.push((name.to_owned(), value.to_owned()));
    assert(pairs_view(headers@) =~= pairs_view(before).push((name@, value@)));
}

/// The request that reads an item's metadata record: a GET of
/// `metadata/{identifier}` accepting JSON.
pub fn get_item_request(endpoint: &Endpoint, auth: Option<&Auth>, identifier: &ItemIdentifier) -> (r:
    Result<HttpRequest, InternetArchiveError>)
    ensures
        match r {
            Ok(req) => {
                &&& url_parse(endpoint.spec_archive_base()) is Ok
                &&& req.method == HttpMethod::Get
                &&& req.url@ == segments_url(
                    endpoint.spec_archive_base(),
                    seq!["metadata"@, identifier@],
                )
                &&& pairs_view(req.headers@) == auth_headers(auth_view(auth)).push(
                    ("accept"@, "application/json"@),
                )
            },
            Err(e) => url_parse(endpoint.spec_archive_base()) is Err && e
                == InternetArchiveError::Url(url_parse(endpoint.spec_archive_base())->Err_0),
        },
{
    let url = match endpoint.metadata_url(identifier.as_str()) {
        Ok(u) => u,
        Err(e) => {
            return Err(InternetArchiveError::Url(e));
        },
    };
    let mut req = archive_request(auth, HttpMethod::Get, url);
    push_pair(&mut req.headers, "accept", "application/json");
    Ok(req)
}

/// The request that runs a search: a GET of the search endpoint with the
/// query's parameters, accepting JSON.
pub fn search_request(endpoint: &Endpoint, auth: Option<&Auth>, query: &SearchQuery) -> (r:
    Result<HttpRequest, InternetArchiveError>)
    ensures
        match r {
            Ok(req) => {
                &&& url_parse(endpoint.spec_archive_base()) is Ok
                &&& req.method == HttpMethod::Get
                &&& exists|base: Seq<char>, e: Seq<(Seq<char>, Seq<char>)>|
                    {
                        &&& url_join(endpoint.spec_archive_base(), "advancedsearch.php"@) == Ok::<
                            Seq<char>,
                            UrlParseError,
                        >(base)
                        &&& url_parse(base) is Ok
                        &&& ordered_entries_of(e, query@.extra_params)
                        &&& req.url@ == url_with_query_pairs(base, search_pairs(query@, e))
                    }
                &&& pairs_view(req.headers@) == auth_headers(auth_view(auth)).push(
                    ("accept"@, "application/json"@),
                )
            },
            Err(e) => e matches InternetArchiveError::Url(x) && {
                ||| url_parse(endpoint.spec_archive_base()) == Err::<Seq<char>, UrlParseError>(x)
                ||| url_parse(endpoint.spec_archive_base()) is Ok && url_join(
                    endpoint.spec_archive_base(),
                    "advancedsearch.php"@,
                ) == Err::<Seq<char>, UrlParseError>(x)
                ||| exists|base: Seq<char>|
                    url_join(endpoint.spec_archive_base(), "advancedsearch.php"@) == Ok::<
                        Seq<char>,
                        UrlParseError,
                    >(base) && url_parse(base) == Err::<Seq<char>, UrlParseError>(x)
            },
        },
{
    let base = match endpoint.search_url() {
        Ok(u) => u,
        Err(e) => {
            return Err(InternetArchiveError::Url(e));
        },
    };
    let url = match query.into_url(base.as_str()) {
        Ok(u) => u,
        Err(e) => {
            return Err(InternetArchiveError::Url(e));
        },
    };
    let mut req = archive_request(auth, HttpMethod::Get, url);
    push_pair(&mut req.headers, "accept", "application/json");
    Ok(req)
}

/// The request that checks the S3 upload queue for an item: a GET of the
/// S3 limit-check URL for the credentials' access key; refused without
/// credentials.
pub fn upload_limit_request(
    endpoint: &Endpoint,
    auth: Option<&Auth>,
    identifier: &ItemIdentifier,
) -> (r: Result<HttpRequest, InternetArchiveError>)
    ensures
        match auth {
            None => r matches Err(InternetArchiveError::MissingAuth),
            Some(a) => match r {
                Ok(req) => {
                    &&& url_parse(endpoint.spec_s3_base()) is Ok
                    &&& req.method == HttpMethod::Get
                    &&& req.url@ == url_with_query_pairs(
                        endpoint.spec_s3_base(),
                        seq![
                            ("check_limit"@, "1"@),
                            ("accesskey"@, a@.access_key),
                            ("bucket"@, identifier@),
                        ],
                    )
                    &&& pairs_view(req.headers@) == auth_headers(Some(a@))
                },
                Err(e) => url_parse(endpoint.spec_s3_base()) is Err && e
                    == InternetArchiveError::Url(url_parse(endpoint.spec_s3_base())->Err_0),
            },
        },
{
    let a = match auth {
        Some(a) => a,
        None => {
            return Err(InternetArchiveError::MissingAuth);
        },
    };
    let url = match endpoint.s3_limit_check_url(a.access_key.as_str(), identifier.as_str()) {
        Ok(u) => u,
        Err(e) => {
            return Err(InternetArchiveError::Url(e));
        },
    };
    let r = s3_request(auth, HttpMethod::Get, url, Vec::new());
    assert(pairs_view(Seq::<(String, String)>::empty()) =~= Seq::empty());
    r
}

/// The request that writes metadata through MDAPI: a form POST to
/// `metadata/{identifier}`; refused without credentials.
pub fn metadata_write_request(
    endpoint: &Endpoint,
    auth: Option<&Auth>,
    identifier: &ItemIdentifier,
) -> (r: Result<HttpRequest, InternetArchiveError>)
    ensures
        match auth {
            None => r matches Err(InternetArchiveError::MissingAuth),
            Some(a) => match r {
                Ok(req) => {
                    &&& url_parse(endpoint.spec_archive_base()) is Ok
                    &&& req.method == HttpMethod::Post
                    &&& req.url@ == segments_url(
                        endpoint.spec_archive_base(),
                        seq!["metadata"@, identifier@],
                    )
                    &&& pairs_view(req.headers@) == auth_headers(Some(a@)).push(
                        ("content-type"@, "application/x-www-form-urlencoded"@),
                    )
                },
                Err(e) => url_parse(endpoint.spec_archive_base()) is Err && e
                    == InternetArchiveError::Url(url_parse(endpoint.spec_archive_base())->Err_0),
            },
        },
{
    if auth.is_none() {
        return Err(InternetArchiveError::MissingAuth);
    }
    let url = match endpoint.metadata_url(identifier.as_str()) {
        Ok(u) => u,
        Err(e) => {
            return Err(InternetArchiveError::Url(e));
        },
    };
    let mut req = archive_request(auth, HttpMethod::Post, url);
    push_pair(&mut req.headers, "content-type", "application/x-www-form-urlencoded");
    Ok(req)
}

/// The request that stores one file: a PUT of `{identifier}/{filename}`
/// below the S3 root with `headers`; the URL is built before the
/// credentials are asked for.
pub fn put_object_request(
    endpoint: &Endpoint,
    auth: Option<&Auth>,
    identifier: &ItemIdentifier,
    filename: &str,
    headers: Vec<(String, String)>,
) -> (r: Result<HttpRequest, InternetArchiveError>)
    ensures
        url_parse(endpoint.spec_s3_base()) is Err ==> r == Err::<HttpRequest, InternetArchiveError>(
            InternetArchiveError::Url(url_parse(endpoint.spec_s3_base())->Err_0),
        ),
        url_parse(endpoint.spec_s3_base()) is Ok ==> match auth {
            None => r matches Err(InternetArchiveError::MissingAuth),
            Some(a) => r matches Ok(req) && req.method == HttpMethod::Put && req.url@
                == segments_url(endpoint.spec_s3_base(), seq![identifier@, filename@])
                && pairs_view(req.headers@) == pairs_view(headers@) + auth_headers(Some(a@)),
        },
{
    let url = match endpoint.s3_object_url(identifier.as_str(), filename) {
        Ok(u) => u,
        Err(e) => {
            return Err(InternetArchiveError::Url(e));
        },
    };
    s3_request(auth, HttpMethod::Put, url, headers)
}

/// The request that deletes one file: a DELETE of `{identifier}/{filename}`
/// below the S3 root with the delete option headers.
pub fn delete_file_request(
    endpoint: &Endpoint,
    auth: Option<&Auth>,
    identifier: &ItemIdentifier,
    filename: &str,
    options: &DeleteOptions,
) -> (r: Result<HttpRequest, InternetArchiveError>)
    ensures
        url_parse(endpoint.spec_s3_base()) is Err ==> r == Err::<HttpRequest, InternetArchiveError>(
            InternetArchiveError::Url(url_parse(endpoint.spec_s3_base())->Err_0),
        ),
        url_parse(endpoint.spec_s3_base()) is Ok ==> match auth {
            None => r matches Err(InternetArchiveError::MissingAuth),
            Some(a) => r matches Ok(req) && req.method == HttpMethod::Delete && req.url@
                == segments_url(endpoint.spec_s3_base(), seq![identifier@, filename@])
                && pairs_view(req.headers@) == delete_headers_spec(*options) + auth_headers(
                Some(a@),
            ),
        },
{
    let headers = delete_headers(options);
    let url = match endpoint.s3_object_url(identifier.as_str(), filename) {
        Ok(u) => u,
        Err(e) => {
            return Err(InternetArchiveError::Url(e));
        },
    };
    s3_request(auth, HttpMethod::Delete, url, headers)
}

/// Whether a metadata read answered with no item: a body of ASCII
/// whitespace only, or the empty JSON array `[]`.
pub open spec fn empty_item_body(body: Seq<u8>) -> bool {
    (forall|i: int| 0 <= i < body.len() ==> is_ascii_ws(#[trigger] body[i])) || body == seq![
        91u8,
        93u8,
    ]
}

/// Exec form of [`empty_item_body`].
pub fn item_body_is_empty(body: &[u8]) -> (r: bool)
    ensures
        r == empty_item_body(body@),
{
    let n = body.len();
    if n == 2 && body[0] == 91 && body[1] == 93 {
        assert(body@ =~= seq![91u8, 93u8]);
        return true;
    }
    assert(body@ != seq![91u8, 93u8]) by {
        if body@ == seq![91u8, 93u8] {
            assert(body@[0] == 91u8 && body@[1] == 93u8);
        }
    }
    let mut i: usize = 0;
    while i < n
        invariant
            n == body@.len(),
            i <= n,
            body@ != seq![91u8, 93u8],
            forall|j: int| 0 <= j < i ==> is_ascii_ws(#[trigger] body@[j]),
        decreases n - i,
    {
        let b = body[i];
        if !(b == 32 || b == 9 || b == 10 || b == 12 || b == 13) {
            assert(!is_ascii_ws(body@[i as int]));
            return false;
        }
        i = i + 1;
    }
    true
}

/// Decides what a successful metadata read means. `parsed` is the body
/// decoded as an item record, or the message of the JSON error. An empty
/// body, or a record that names another identifier (or none), means the
/// item does not exist.
pub fn check_fetched_item(identifier: &ItemIdentifier, body: &[u8], parsed: Result<Item, String>) -> (r:
    Result<Item, InternetArchiveError>)
    ensures
        empty_item_body(body@) ==> (r matches Err(InternetArchiveError::ItemNotFound { identifier: i })
            && i@ == identifier@),
        !empty_item_body(body@) ==> match parsed {
            Err(m) => r matches Err(InternetArchiveError::Json(j)) && j@ == m@,
            Ok(item) => if named_identifier(item.metadata@) == Some(identifier@) {
                r == Ok::<Item, InternetArchiveError>(item)
            } else {
                r matches Err(InternetArchiveError::ItemNotFound { identifier: i }) && i@
                    == identifier@
            },
        },
{
    if item_body_is_empty(body) {
        return Err(InternetArchiveError::ItemNotFound { identifier: identifier.to_string() });
    }
    match parsed {
        Err(m) => Err(InternetArchiveError::Json(m)),
        Ok(item) => {
            let same = match item.identifier() {
                Some(id) => str_eq(id.as_str(), identifier.as_str()),
                None => false,
            };
            if same {
                Ok(item)
            } else {
                Err(InternetArchiveError::ItemNotFound { identifier: identifier.to_string() })
            }
        },
    }
}

/// The redirect statuses an S3 request follows: 301, 302, 303, 307, 308.
pub open spec fn redirect_status(status: u16) -> bool {
    status == 301 || status == 302 || status == 303 || status == 307 || status == 308
}

/// Whether a status is a redirect the S3 client follows.
pub fn is_redirect(status: u16) -> (r: bool)
    ensures
        r == redirect_status(status),
{
    status == 301 || status == 302 || status == 303 || status == 307 || status == 308
}

/// The `Location` header of a response.
#[derive(Clone, Debug, PartialEq, Eq)]
pub enum RedirectLocation {
    /// No `Location` header.
    Missing,
    /// A `Location` header that is not valid UTF-8.
    NotUtf8,
    /// The header's text.
    Text(String),
}

/// What an S3 request loop does after a response.
#[derive(Debug)]
pub enum S3Step {
    /// The response succeeded.
    Done,
    /// The response failed; its body is decoded into an HTTP error.
    Reject,
    /// Send the request again to `url`, with `remaining` redirects left.
    Follow { url: String, remaining: u8 },
    /// Stop with this error.
    Fail(InternetArchiveError),
}

/// Decides what follows a response with `status` to a request sent to
/// `current_url` with `remaining` redirects left. A redirect is followed
/// to its location resolved against the current URL, at most `remaining`
/// more times; a redirect without a location, past the limit, or with a
/// location that is not text or does not resolve, fails.
pub fn next_s3_step(status: u16, location: RedirectLocation, remaining: u8, current_url: &str) -> (r:
    S3Step)
    ensures
        !redirect_status(status) ==> (if 200 <= status <= 299 {
            r is Done
        } else {
            r is Reject
        }),
        redirect_status(status) && location is Missing ==> (r matches S3Step::Fail(
            InternetArchiveError::InvalidState(m),
        ) && m@ == "redirect response missing location header"@),
        redirect_status(status) && !(location is Missing) && remaining == 0 ==> (r matches S3Step::Fail(
            InternetArchiveError::InvalidState(m),
        ) && m@ == "too many redirects during S3 request"@),
        redirect_status(status) && location is NotUtf8 && remaining > 0 ==> (r matches S3Step::Fail(
            InternetArchiveError::InvalidState(m),
        ) && m@ == "redirect location is not valid UTF-8"@),
        redirect_status(status) && remaining > 0 ==> (location matches RedirectLocation::Text(loc)
            ==> ({
            ||| r matches S3Step::Follow { url, remaining: k } && k == remaining - 1 && url_parse(
                current_url@,
            ) is Ok && url_join(current_url@, loc@) == Ok::<Seq<char>, UrlParseError>(url@)
            ||| r matches S3Step::Fail(InternetArchiveError::Url(e)) && (url_parse(current_url@)
                == Err::<Seq<char>, UrlParseError>(e) || (url_parse(current_url@) is Ok && url_join(
                current_url@,
                loc@,
            ) == Err::<Seq<char>, UrlParseError>(e)))
        })),
{
    if !is_redirect(status) {
        if 200 <= status && status <= 299 {
            return S3Step::Done;
        } else {
            return S3Step::Reject;
        }
    }
    if matches!(location, RedirectLocation::Missing) {
        return S3Step::Fail(
            InternetArchiveError::InvalidState("redirect response missing location header".to_owned()),
        );
    }
    if remaining == 0 {
        return S3Step::Fail(
            InternetArchiveError::InvalidState("too many redirects during S3 request".to_owned()),
        );
    }
    match location {
        RedirectLocation::Text(loc) => match join_url(current_url, loc.as_str()) {
            Ok(url) => S3Step::Follow { url, remaining: remaining - 1 },
            Err(e) => S3Step::Fail(InternetArchiveError::Url(e)),
        },
        _ => S3Step::Fail(
            InternetArchiveError::InvalidState("redirect location is not valid UTF-8".to_owned()),
        ),
    }
}

/// What a metadata update does once the patch from the current document to
/// the desired one is known.
#[derive(Debug)]
pub enum MetadataUpdate {
    /// Nothing changes: this response is returned without a request.
    Unchanged(MetadataWriteResponse),
    /// This patch is sent.
    Apply(Vec<PatchOperation>),
}

/// The response of an update that changes nothing: success, no task.
pub open spec fn is_synthetic_success(r: MetadataWriteResponse) -> bool {
    r.success && r.task_id is None && r.log is None && r.error is None
}

/// Decides a metadata update from its patch. An empty patch needs no
/// request and no credentials; a non-empty one needs credentials.
pub fn metadata_update_decision(patch: Vec<PatchOperation>, auth: Option<&Auth>) -> (r: Result<
    MetadataUpdate,
    InternetArchiveError,
>)
    ensures
        patch@.len() == 0 ==> (r matches Ok(MetadataUpdate::Unchanged(resp))
            && is_synthetic_success(resp)),
        patch@.len() > 0 && auth is None ==> r matches Err(InternetArchiveError::MissingAuth),
        patch@.len() > 0 && auth is Some ==> (r matches Ok(MetadataUpdate::Apply(p)) && p@
            == patch@),
{
    if patch.len() == 0 {
        return Ok(
            MetadataUpdate::Unchanged(
                MetadataWriteResponse { success: true, task_id: None, log: None, error: None },
            ),
        );
    }
    if auth.is_none() {
        return Err(InternetArchiveError::MissingAuth);
    }
    Ok(MetadataUpdate::Apply(patch))
}

/// Plans an update of an item's metadata document: the requested keys are
/// merged into the current document (a stored list that already holds every
/// requested text is kept), and the patch from the current document to the
/// merged one is computed. An empty patch needs no request and no
/// credentials; a non-empty one is sent when there are credentials.
pub fn plan_metadata_update(
    current: &ItemMetadata,
    requested: &ItemMetadata,
    auth: Option<&Auth>,
) -> (r: Result<MetadataUpdate, InternetArchiveError>)
    ensures
        ({
            let p = json_metadata_diff(current@, update_merge(current@, requested@));
            &&& p.len() == 0 ==> (r matches Ok(MetadataUpdate::Unchanged(resp))
                && is_synthetic_success(resp))
            &&& p.len() > 0 && auth is None ==> (r matches Err(InternetArchiveError::MissingAuth))
            &&& p.len() > 0 && auth is Some ==> (r matches Ok(MetadataUpdate::Apply(q))
                && patch_view(q@) == p)
        }),
        update_merge(current@, requested@) == current@ ==> (r matches Ok(
            MetadataUpdate::Unchanged(resp),
        ) && is_synthetic_success(resp)),
{
    let mut merged = current.clone();
    merged.merge_for_update(requested);
    let patch = metadata_diff(current, &merged);
    proof {
        assert(patch@.len() == patch_view(patch@).len());
    }
    metadata_update_decision(patch, auth)
}

} // verus!
