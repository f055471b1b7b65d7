//! Upload and delete options, upload specifications, and the S3 headers of
//! uploads and deletes.

use vstd::prelude::*;

use crate::error::{opt_view, or_else, InternetArchiveError};
use crate::metadata::{pairs_view, HeaderEncoding};
use crate::text::{decimal, lemma_concat_contains, u64_to_decimal};

verus! {

/// Replacement policy for uploads targeting an existing file name.
#[derive(Clone, Copy, Debug, PartialEq, Eq, Structural)]
pub enum FileConflictPolicy {
    /// Return an error if the file already exists.
    Error,
    /// Skip uploads for files that already exist.
    Skip,
    /// Overwrite the existing file in place.
    Overwrite,
    /// Overwrite the existing file while preserving its old version.
    OverwriteKeepingHistory,
}

/// Per-upload options for IA S3 requests.
#[derive(Clone, Copy, Debug, PartialEq, Eq, Structural)]
pub struct UploadOptions {
    /// Skip the derive queue for this upload.
    pub skip_derive: bool,
    /// Keep the old file version if the key already exists.
    pub keep_old_version: bool,
    /// Request interactive priority in the ingest queue.
    pub interactive_priority: bool,
    /// Optional size hint for the full bucket.
    pub size_hint: Option<u64>,
}

impl Default for UploadOptions {
    /// Every option off and no size hint.
    fn default() -> (r: Self)
        ensures
            !r.skip_derive,
            !r.keep_old_version,
            !r.interactive_priority,
            r.size_hint is None,
    {
        UploadOptions {
            skip_derive: false,
            keep_old_version: false,
            interactive_priority: false,
            size_hint: None,
        }
    }
}

/// Options for S3 deletes.
#[derive(Clone, Copy, Debug, PartialEq, Eq, Structural)]
pub struct DeleteOptions {
    /// Delete related derivative files.
    pub cascade_delete: bool,
    /// Keep the old file version in history.
    pub keep_old_version: bool,
}

impl Default for DeleteOptions {
    /// Neither option set.
    fn default() -> (r: Self)
        ensures
            !r.cascade_delete,
            !r.keep_old_version,
    {
        DeleteOptions { cascade_delete: false, keep_old_version: false }
    }
}

/// Upload source kind.
#[derive(Clone, Debug, PartialEq, Eq)]
pub enum UploadSource {
    /// Upload from a local file path.
    Path(String),
    /// Upload from in-memory bytes.
    Bytes(Vec<u8>),
}

/// Why an upload specification could not be built.
#[derive(Clone, Copy, Debug, PartialEq, Eq, Structural)]
pub enum UploadSpecError {
    /// The local path has no final file name.
    PathHasNoFilename,
    /// The archive file name is empty.
    EmptyArchiveFilename,
}

/// One file upload specification.
#[derive(Clone, Debug, PartialEq, Eq)]
pub struct UploadSpec {
    /// Final file name inside the item.
    pub filename: String,
    /// Source content.
    pub source: UploadSource,
    /// MIME type used for the request.
    pub content_type: String,
}

/// The final component of a path, as `Path::file_name` finds it.
pub uninterp spec fn path_file_name(path: Seq<char>) -> Option<Seq<char>>;

/// `std::path::Path::file_name` on a UTF-8 path, as text. Claims the file
/// name named by [`path_file_name`] for the path.
#[verifier::external_body]
fn file_name_of(path: &str) -> (r: Option<String>)
    ensures
        opt_view(r) == path_file_name(path@),
{
    std::path::Path::new(path).file_name().and_then(|v| v.to_str()).map(str::to_owned)
}

/// The first MIME type that `mime_guess::from_path` finds for a path, as text.
pub uninterp spec fn mime_guess_first(path: Seq<char>) -> Option<Seq<char>>;

/// `mime_guess::from_path(path).first()`, as the text of the MIME type.
/// Claims the guess named by [`mime_guess_first`] for the path.
#[verifier::external_body]
fn guess_mime(path: &str) -> (r: Option<String>)
    ensures
        opt_view(r) == mime_guess_first(path@),
{
    mime_guess::from_path(path).first().map(|m| m.to_string())
}

/// The final file name of a local path; an error when it has none.
pub fn path_filename(path: &str) -> (r: Result<String, UploadSpecError>)
    ensures
        match r {
            Ok(f) => path_file_name(path@) == Some(f@),
            Err(e) => path_file_name(path@) is None && e == UploadSpecError::PathHasNoFilename,
        },
{
    match file_name_of(path) {
        Some(f) => Ok(f),
        None => Err(UploadSpecError::PathHasNoFilename),
    }
}

/// An archive file name, which may not be empty.
pub fn validate_archive_filename(filename: &str) -> (r: Result<String, UploadSpecError>)
    ensures
        match r {
            Ok(f) => filename@.len() > 0 && f@ == filename@,
            Err(e) => filename@.len() == 0 && e == UploadSpecError::EmptyArchiveFilename,
        },
{
    if filename.is_empty() {
        return Err(UploadSpecError::EmptyArchiveFilename);
    }
    Ok(filename.to_owned())
}

/// The content type for an upload: guessed from the archive file name
/// first, then from the local path, then the fallback, then
/// `application/octet-stream`.
pub open spec fn content_type_for(
    path: Seq<char>,
    archive_filename: Option<Seq<char>>,
    fallback: Option<Seq<char>>,
) -> Seq<char> {
    let from_name = match archive_filename {
        Some(f) => mime_guess_first(f),
        None => None,
    };
    match or_else(or_else(from_name, mime_guess_first(path)), fallback) {
        Some(t) => t,
        None => "application/octet-stream"@,
    }
}

/// The content type for an upload.
fn guess_content_type(path: &str, archive_filename: Option<&str>, fallback: Option<String>) -> (r:
    String)
    ensures
        r@ == content_type_for(
            path@,
            match archive_filename {
                Some(f) => Some(f@),
                None => None,
            },
            opt_view(fallback),
        ),
{
    let from_name = match archive_filename {
        Some(f) => guess_mime(f),
        None => None,
    };
    if let Some(t) = from_name {
        return t;
    }
    if let Some(t) = guess_mime(path) {
        return t;
    }
    match fallback {
        Some(t) => t,
        None => "application/octet-stream".to_owned(),
    }
}

/// Abstract form of an [`UploadSpec`]: file name, source and content type.
pub open spec fn source_path(s: UploadSource) -> Option<Seq<char>> {
    match s {
        UploadSource::Path(p) => Some(p@),
        UploadSource::Bytes(_) => None,
    }
}

impl UploadSpec {
    /// Builds an upload spec from a local path, using the file name from the path.
    pub fn from_path(path: &str) -> (r: Result<Self, UploadSpecError>)
        ensures
            match r {
                Ok(spec) => path_file_name(path@) is Some && spec.filename@ == path_file_name(
                    path@,
                )->0 && source_path(spec.source) == Some(path@) && spec.content_type@
                    == content_type_for(path@, None, None),
                Err(e) => path_file_name(path@) is None && e == UploadSpecError::PathHasNoFilename,
            },
    {
        let filename = path_filename(path)?;
        Ok(
            UploadSpec {
                filename,
                source: UploadSource::Path(path.to_owned()),
                content_type: guess_content_type(path, None, None),
            },
        )
    }

    /// Builds an upload spec from a local path and an explicit archive file name.
    ///
    /// The content type is guessed from the archive file name first and falls
    /// back to the local path when the new name has no recognizable extension.
    pub fn from_path_as(path: &str, filename: &str) -> (r: Result<Self, UploadSpecError>)
        ensures
            match r {
                Ok(spec) => filename@.len() > 0 && spec.filename@ == filename@ && source_path(
                    spec.source,
                ) == Some(path@) && spec.content_type@ == content_type_for(
                    path@,
                    Some(filename@),
                    None,
                ),
                Err(e) => filename@.len() == 0 && e == UploadSpecError::EmptyArchiveFilename,
            },
    {
        let filename = validate_archive_filename(filename)?;
        Ok(
            UploadSpec {
                content_type: guess_content_type(path, Some(filename.as_str()), None),
                filename,
                source: UploadSource::Path(path.to_owned()),
            },
        )
    }

    /// Builds upload specs from `(archive_filename, local_path)` manifest
    /// pairs, in order; the first empty archive file name is an error.
    pub fn from_manifest(entries: &Vec<(&str, &str)>) -> (r: Result<Vec<Self>, UploadSpecError>)
        ensures
            match r {
                Ok(specs) => specs@.len() == entries@.len() && forall|i: int|
                    0 <= i < specs@.len() ==> {
                        &&& (#[trigger] specs@[i]).filename@ == entries@[i].0@
                        &&& entries@[i].0@.len() > 0
                        &&& source_path(specs@[i].source) == Some(entries@[i].1@)
                        &&& specs@[i].content_type@ == content_type_for(
                            entries@[i].1@,
                            Some(entries@[i].0@),
                            None,
                        )
                    },
                Err(e) => e == UploadSpecError::EmptyArchiveFilename && exists|i: int|
                    0 <= i < entries@.len() && (#[trigger] entries@[i]).0@.len() == 0,
            },
    {
        let mut specs: Vec<UploadSpec> = Vec::new();
        let n = entries.len();
        let mut i: usize = 0;
        while i < n
            invariant
                n == entries@.len(),
                i <= n,
                specs@.len() == i,
                forall|k: int|
                    0 <= k < i ==> {
                        &&& (#[trigger] specs@[k]).filename@ == entries@[k].0@
                        &&& entries@[k].0@.len() > 0
                        &&& source_path(specs@[k].source) == Some(entries@[k].1@)
                        &&& specs@[k].content_type@ == content_type_for(
                            entries@[k].1@,
                            Some(entries@[k].0@),
                            None,
                        )
                    },
            decreases n - i,
        {
            let (filename, path) = entries[i];
            match Self::from_path_as(path, filename) {
                Ok(spec) => specs.push(spec),
                Err(e) => {
                    assert(entries@[i as int].0@.len() == 0);
                    return Err(e);
                },
            }
            i = i + 1;
        }
        Ok(specs)
    }

    /// Builds an upload spec from a custom file name and bytes; the content
    /// type is guessed from the file name.
    pub fn from_bytes(filename: &str, bytes: Vec<u8>) -> (r: Self)
        ensures
            r.filename@ == filename@,
            r.source == UploadSource::Bytes(bytes),
            r.content_type@ == content_type_for(filename@, Some(filename@), None),
    {
        UploadSpec {
            content_type: guess_content_type(filename, Some(filename), None),
            filename: filename.to_owned(),
            source: UploadSource::Bytes(bytes),
        }
    }

    /// Overrides the archive file name.
    ///
    /// The content type is guessed again from the new file name and falls
    /// back to the previous content type when nothing is recognized.
    pub fn with_filename(self, filename: &str) -> (r: Self)
        ensures
            r.filename@ == filename@,
            r.source == self.source,
            r.content_type@ == (match mime_guess_first(filename@) {
                Some(t) => t,
                None => self.content_type@,
            }),
    {
        let UploadSpec { filename: _, source, content_type } = self;
        let content_type = match guess_mime(filename) {
            Some(t) => t,
            None => content_type,
        };
        UploadSpec { filename: filename.to_owned(), source, content_type }
    }

    /// Overrides the upload content type.
    pub fn with_content_type(self, content_type: &str) -> (r: Self)
        ensures
            r.filename == self.filename,
            r.source == self.source,
            r.content_type@ == content_type@,
    {
        let UploadSpec { filename, source, content_type: _ } = self;
        UploadSpec { filename, source, content_type: content_type.to_owned() }
    }
}

/// A byte that an HTTP header value may hold: visible ASCII, space, tab,
/// or any byte of 128 and above.
pub open spec fn header_value_byte(b: u8) -> bool {
    (b >= 32 && b != 127) || b == 9
}

/// Whether text can be an HTTP header value.
pub open spec fn header_value_ok(s: Seq<char>) -> bool {
    let bytes = vstd::utf8::encode_utf8(s);
    forall|i: int| 0 <= i < bytes.len() ==> header_value_byte(#[trigger] bytes[i])
}

/// A byte that an HTTP header name may hold: an ASCII letter or digit, or
/// one of ``! # $ % & ' * + - . ^ _ ` | ~``.
pub open spec fn header_name_byte(b: u8) -> bool {
    ||| 48 <= b <= 57
    ||| 65 <= b <= 90
    ||| 97 <= b <= 122
    ||| b == 33 || b == 35 || b == 36 || b == 37 || b == 38 || b == 39 || b == 42 || b == 43
    ||| b == 45 || b == 46 || b == 94 || b == 95 || b == 96 || b == 124 || b == 126
}

/// Whether text can be an HTTP header name: 1 to 65535 bytes, each a
/// token byte.
pub open spec fn header_name_ok(name: Seq<char>) -> bool {
    let bytes = vstd::utf8::encode_utf8(name);
    &&& 1 <= bytes.len() <= 65535
    &&& forall|i: int| 0 <= i < bytes.len() ==> header_name_byte(#[trigger] bytes[i])
}

/// `HeaderValue::from_str(s).is_ok()`: true exactly when every byte of the
/// UTF-8 text is a space, a tab, visible ASCII, or 128 and above.
#[verifier::external_body]
fn header_value_valid(s: &str) -> (r: bool)
    ensures
        r == header_value_ok(s@),
{
    reqwest::header::HeaderValue::from_str(s).is_ok()
}

/// `HeaderName::from_bytes(s.as_bytes()).is_ok()`: true exactly when the
/// UTF-8 text has 1 to 65535 bytes, each an ASCII letter or digit or one of
/// the token punctuation bytes.
#[verifier::external_body]
fn header_name_valid(s: &str) -> (r: bool)
    ensures
        r == header_name_ok(s@),
{
    reqwest::header::HeaderName::from_bytes(s.as_bytes()).is_ok()
}

/// The headers of an upload before any metadata headers, in order.
pub open spec fn upload_option_headers(
    content_type: Seq<char>,
    options: UploadOptions,
    auto_make_bucket: bool,
) -> Seq<(Seq<char>, Seq<char>)> {
    seq![("content-type"@, content_type)] + (if auto_make_bucket {
        seq![("x-archive-auto-make-bucket"@, "1"@), ("x-amz-auto-make-bucket"@, "1"@)]
    } else {
        Seq::empty()
    }) + (if options.skip_derive {
        seq![("x-archive-queue-derive"@, "0"@)]
    } else {
        Seq::empty()
    }) + (if options.keep_old_version {
        seq![("x-archive-keep-old-version"@, "1"@)]
    } else {
        Seq::empty()
    }) + (if options.interactive_priority {
        seq![("x-archive-interactive-priority"@, "1"@)]
    } else {
        Seq::empty()
    }) + match options.size_hint {
        Some(n) => seq![("x-archive-size-hint"@, decimal(n as nat))],
        None => Seq::empty(),
    }
}

/// A one-element sequence holds only its element.
proof fn lemma_contains_one<A>(a: A, x: A)
    ensures
        seq![a].contains(x) <==> x == a,
{
    if x == a {
        assert(seq![a][0] == x);
    }
}

/// A two-element sequence holds only its two elements.
proof fn lemma_contains_two<A>(a: A, b: A, x: A)
    ensures
        seq![a, b].contains(x) <==> (x == a || x == b),
{
    if x == a {
        assert(seq![a, b][0] == x);
    }
    if x == b {
        assert(seq![a, b][1] == x);
    }
}

/// What the option headers of an upload hold, pair by pair.
proof fn lemma_option_headers_hold(
    content_type: Seq<char>,
    options: UploadOptions,
    auto_make_bucket: bool,
    x: (Seq<char>, Seq<char>),
)
    ensures
        upload_option_headers(content_type, options, auto_make_bucket).contains(x) <==> {
            ||| x == ("content-type"@, content_type)
            ||| auto_make_bucket && x == ("x-archive-auto-make-bucket"@, "1"@)
            ||| auto_make_bucket && x == ("x-amz-auto-make-bucket"@, "1"@)
            ||| options.skip_derive && x == ("x-archive-queue-derive"@, "0"@)
            ||| options.keep_old_version && x == ("x-archive-keep-old-version"@, "1"@)
            ||| options.interactive_priority && x == ("x-archive-interactive-priority"@, "1"@)
            ||| options.size_hint matches Some(n) && x == ("x-archive-size-hint"@, decimal(
                n as nat,
            ))
        },
{
    let p0 = seq![("content-type"@, content_type)];
    let p1 = if auto_make_bucket {
        seq![("x-archive-auto-make-bucket"@, "1"@), ("x-amz-auto-make-bucket"@, "1"@)]
    } else {
        Seq::empty()
    };
    let p2 = if options.skip_derive {
        seq![("x-archive-queue-derive"@, "0"@)]
    } else {
        Seq::empty()
    };
    let p3 = if options.keep_old_version {
        seq![("x-archive-keep-old-version"@, "1"@)]
    } else {
        Seq::empty()
    };
    let p4 = if options.interactive_priority {
        seq![("x-archive-interactive-priority"@, "1"@)]
    } else {
        Seq::empty()
    };
    let p5 = match options.size_hint {
        Some(n) => seq![("x-archive-size-hint"@, decimal(n as nat))],
        None => Seq::empty(),
    };
    assert(upload_option_headers(content_type, options, auto_make_bucket) == p0 + p1 + p2 + p3 + p4
        + p5);
    lemma_concat_contains(p0 + p1 + p2 + p3 + p4, p5, x);
    lemma_concat_contains(p0 + p1 + p2 + p3, p4, x);
    lemma_concat_contains(p0 + p1 + p2, p3, x);
    lemma_concat_contains(p0 + p1, p2, x);
    lemma_concat_contains(p0, p1, x);
    lemma_contains_one(("content-type"@, content_type), x);
    lemma_contains_two(("x-archive-auto-make-bucket"@, "1"@), ("x-amz-auto-make-bucket"@, "1"@), x);
    lemma_contains_one(("x-archive-queue-derive"@, "0"@), x);
    lemma_contains_one(("x-archive-keep-old-version"@, "1"@), x);
    lemma_contains_one(("x-archive-interactive-priority"@, "1"@), x);
    if let Some(n) = options.size_hint {
        lemma_contains_one(("x-archive-size-hint"@, decimal(n as nat)), x);
    }
}

/// The names of the headers that upload options set.
pub open spec fn is_option_header_name(name: Seq<char>) -> bool {
    ||| name == "content-type"@
    ||| name == "x-archive-auto-make-bucket"@
    ||| name == "x-amz-auto-make-bucket"@
    ||| name == "x-archive-queue-derive"@
    ||| name == "x-archive-keep-old-version"@
    ||| name == "x-archive-interactive-priority"@
    ||| name == "x-archive-size-hint"@
}

/// Each upload option sends its own header, whatever the other options
/// are: the bucket-creation headers exactly when the item is created, the
/// derive header exactly when derivation is skipped, the keep-old-version
/// header exactly when the old version is kept, the priority header exactly
/// when the task is interactive, and the size hint exactly with its value.
/// The content type is always sent. (Metadata headers are assumed not to
/// reuse these names.)
pub proof fn lemma_upload_headers_follow_each_option(
    content_type: Seq<char>,
    options: UploadOptions,
    metadata: Seq<(Seq<char>, Seq<char>)>,
    auto_make_bucket: bool,
)
    requires
        forall|i: int| 0 <= i < metadata.len() ==> !is_option_header_name(#[trigger] metadata[i].0),
    ensures
        upload_headers_spec(content_type, options, metadata, auto_make_bucket) matches Ok(h) ==> {
            &&& h.contains(("content-type"@, content_type))
            &&& h.contains(("x-archive-auto-make-bucket"@, "1"@)) <==> auto_make_bucket
            &&& h.contains(("x-amz-auto-make-bucket"@, "1"@)) <==> auto_make_bucket
            &&& h.contains(("x-archive-queue-derive"@, "0"@)) <==> options.skip_derive
            &&& h.contains(("x-archive-keep-old-version"@, "1"@)) <==> options.keep_old_version
            &&& h.contains(("x-archive-interactive-priority"@, "1"@))
                <==> options.interactive_priority
            &&& forall|v: Seq<char>|
                #[trigger] h.contains(("x-archive-size-hint"@, v)) <==> (options.size_hint matches Some(
                    n,
                ) && v == decimal(n as nat))
        },
{
    reveal_strlit("content-type");
    reveal_strlit("x-archive-auto-make-bucket");
    reveal_strlit("x-amz-auto-make-bucket");
    reveal_strlit("x-archive-queue-derive");
    reveal_strlit("x-archive-keep-old-version");
    reveal_strlit("x-archive-interactive-priority");
    reveal_strlit("x-archive-size-hint");
    let ct = "content-type"@;
    let ab = "x-archive-auto-make-bucket"@;
    let zb = "x-amz-auto-make-bucket"@;
    let qd = "x-archive-queue-derive"@;
    let ko = "x-archive-keep-old-version"@;
    let ip = "x-archive-interactive-priority"@;
    let sh = "x-archive-size-hint"@;
    assert(ct.len() == 12 && ab.len() == 26 && zb.len() == 22 && qd.len() == 22 && ko.len() == 26
        && ip.len() == 30 && sh.len() == 19);
    assert(ab[10] != ko[10]);
    assert(zb[3] != qd[3]);
    assert(ct != ab && ct != zb && ct != qd && ct != ko && ct != ip && ct != sh);
    assert(ab != zb && ab != qd && ab != ko && ab != ip && ab != sh);
    assert(zb != qd && zb != ko && zb != ip && zb != sh);
    assert(qd != ko && qd != ip && qd != sh);
    assert(ko != ip && ko != sh);
    assert(ip != sh);
    if let Ok(h) = upload_headers_spec(content_type, options, metadata, auto_make_bucket) {
        let opts = upload_option_headers(content_type, options, auto_make_bucket);
        assert(h == opts + metadata);
        assert forall|x: (Seq<char>, Seq<char>)| is_option_header_name(x.0) implies (h.contains(x)
            <==> opts.contains(x)) by {
            lemma_concat_contains(opts, metadata, x);
            if metadata.contains(x) {
                let i = choose|i: int| 0 <= i < metadata.len() && metadata[i] == x;
                assert(!is_option_header_name(metadata[i].0));
            }
        }
        lemma_option_headers_hold(content_type, options, auto_make_bucket, ("content-type"@, content_type));
        lemma_option_headers_hold(content_type, options, auto_make_bucket, (ab, "1"@));
        lemma_option_headers_hold(content_type, options, auto_make_bucket, (zb, "1"@));
        lemma_option_headers_hold(content_type, options, auto_make_bucket, (qd, "0"@));
        lemma_option_headers_hold(content_type, options, auto_make_bucket, (ko, "1"@));
        lemma_option_headers_hold(content_type, options, auto_make_bucket, (ip, "1"@));
        assert forall|v: Seq<char>|
            #[trigger] h.contains((sh, v)) <==> (options.size_hint matches Some(n) && v == decimal(
                n as nat,
            )) by {
            lemma_option_headers_hold(content_type, options, auto_make_bucket, (sh, v));
        }
    }
}

/// The first rejected metadata header, as the message of the error it causes.
pub open spec fn first_bad_metadata_header(h: Seq<(Seq<char>, Seq<char>)>) -> Option<Seq<char>>
    decreases h.len(),
{
    if h.len() == 0 {
        None
    } else if !header_name_ok(h[0].0) {
        Some("invalid metadata header name"@)
    } else if !header_value_ok(h[0].1) {
        Some("invalid metadata header value"@)
    } else {
        first_bad_metadata_header(h.drop_first())
    }
}

/// The headers of an upload, in the order they are set, or the message of
/// the invalid-state error when one cannot be sent.
pub open spec fn upload_headers_spec(
    content_type: Seq<char>,
    options: UploadOptions,
    metadata: Seq<(Seq<char>, Seq<char>)>,
    auto_make_bucket: bool,
) -> Result<Seq<(Seq<char>, Seq<char>)>, Seq<char>> {
    if !header_value_ok(content_type) {
        Err("invalid content type"@)
    } else if options.size_hint is Some && !header_value_ok(
        decimal(options.size_hint->0 as nat),
    ) {
        Err("invalid size hint"@)
    } else if first_bad_metadata_header(metadata) is Some {
        Err(first_bad_metadata_header(metadata)->0)
    } else {
        Ok(upload_option_headers(content_type, options, auto_make_bucket) + metadata)
    }
}

/// Pushes one header pair.
fn push_header(headers: &mut Vec<(String, String)>, name: &str, value: &str)
    ensures
        pairs_view(final(headers)@) == pairs_view(old(headers)@).push((name@, value@)),
{
    let ghost before = headers@;
    headers.push((name.to_owned(), value.to_owned()));
    assert(pairs_view(headers@) =~= pairs_view(before).push((name@, value@)));
}

/// The headers of an upload (content type, options, then metadata
/// headers), in the order they are set; an invalid-state error when the
/// content type, the size hint, or a metadata header cannot be sent.
pub fn upload_headers(
    content_type: &str,
    options: &UploadOptions,
    metadata: Option<&HeaderEncoding>,
    auto_make_bucket: bool,
) -> (r: Result<Vec<(String, String)>, InternetArchiveError>)
    ensures
        ({
            let meta = match metadata {
                Some(m) => pairs_view(m.headers@),
                None => Seq::empty(),
            };
            match upload_headers_spec(content_type@, *options, meta, auto_make_bucket) {
                Ok(h) => r matches Ok(v) && pairs_view(v@) == h,
                Err(msg) => r matches Err(InternetArchiveError::InvalidState(m)) && m@ == msg,
            }
        }),
{
    let ghost meta = match metadata {
        Some(m) => pairs_view(m.headers@),
        None => Seq::<(Seq<char>, Seq<char>)>::empty(),
    };
    if !header_value_valid(content_type) {
        return Err(InternetArchiveError::InvalidState("invalid content type".to_owned()));
    }
    let mut headers: Vec<(String, String)> = Vec::new();
    push_header(&mut headers, "content-type", content_type);
    if auto_make_bucket {
        push_header(&mut headers, "x-archive-auto-make-bucket", "1");
        push_header(&mut headers, "x-amz-auto-make-bucket", "1");
    }
    if options.skip_derive {
        push_header(&mut headers, "x-archive-queue-derive", "0");
    }
    if options.keep_old_version {
        push_header(&mut headers, "x-archive-keep-old-version", "1");
    }
    if options.interactive_priority {
        push_header(&mut headers, "x-archive-interactive-priority", "1");
    }
    if let Some(size_hint) = options.size_hint {
        let text = u64_to_decimal(size_hint);
        if !header_value_valid(text.as_str()) {
            return Err(InternetArchiveError::InvalidState("invalid size hint".to_owned()));
        }
        push_header(&mut headers, "x-archive-size-hint", text.as_str());
    }
    assert(pairs_view(headers@) =~= upload_option_headers(
        content_type@,
        *options,
        auto_make_bucket,
    ));
    let ghost base = pairs_view(headers@);
    if let Some(encoding) = metadata {
        let list = &encoding.headers;
        let n = list.len();
        let mut i: usize = 0;
        assert(meta.skip(0) =~= meta);
        while i < n
            invariant
                n == list@.len(),
                meta == pairs_view(list@),
                i <= n,
                pairs_view(headers@) =~= base + meta.take(i as int),
                first_bad_metadata_header(meta) == first_bad_metadata_header(meta.skip(i as int)),
                header_value_ok(content_type@),
                metadata == Some(encoding),
                meta == pairs_view(encoding.headers@),
                options.size_hint is Some ==> header_value_ok(decimal(options.size_hint->0 as nat)),
            decreases n - i,
        {
            let (name, value) = &list[i];
            assert(meta.skip(i as int)[0] == (name@, value@));
            assert(meta.skip(i as int).len() > 0);
            if !header_name_valid(name.as_str()) {
                assert(first_bad_metadata_header(meta) == Some("invalid metadata header name"@));
                return Err(
                    InternetArchiveError::InvalidState("invalid metadata header name".to_owned()),
                );
            }
            if !header_value_valid(value.as_str()) {
                assert(first_bad_metadata_header(meta) == Some("invalid metadata header value"@));
                return Err(
                    InternetArchiveError::InvalidState("invalid metadata header value".to_owned()),
                );
            }
            push_header(&mut headers, name.as_str(), value.as_str());
            assert(meta.skip(i as int).drop_first() =~= meta.skip(i + 1));
            assert(meta.take(i + 1) =~= meta.take(i as int).push((name@, value@)));
            i = i + 1;
        }
        assert(meta.take(n as int) =~= meta);
    } else {
        assert(meta.take(0) =~= meta);
    }
    Ok(headers)
}

/// The headers of a delete, in the order they are set.
pub open spec fn delete_headers_spec(options: DeleteOptions) -> Seq<(Seq<char>, Seq<char>)> {
    (if options.cascade_delete {
        seq![("x-archive-cascade-delete"@, "1"@)]
    } else {
        Seq::empty()
    }) + (if options.keep_old_version {
        seq![("x-archive-keep-old-version"@, "1"@)]
    } else {
        Seq::empty()
    })
}

/// Each delete option sends its own header, whatever the other option is:
/// the cascade header exactly when cascading, the keep-old-version header
/// exactly when the old version is kept, and nothing else.
pub proof fn lemma_delete_headers_follow_each_option(options: DeleteOptions)
    ensures
        delete_headers_spec(options).contains(("x-archive-cascade-delete"@, "1"@))
            <==> options.cascade_delete,
        delete_headers_spec(options).contains(("x-archive-keep-old-version"@, "1"@))
            <==> options.keep_old_version,
        delete_headers_spec(options).len() == (if options.cascade_delete { 1int } else { 0int })
            + (if options.keep_old_version { 1int } else { 0int }),
{
    reveal_strlit("x-archive-cascade-delete");
    reveal_strlit("x-archive-keep-old-version");
    let cascade = ("x-archive-cascade-delete"@, "1"@);
    let keep = ("x-archive-keep-old-version"@, "1"@);
    assert(cascade.0.len() != keep.0.len());
    let a = if options.cascade_delete {
        seq![cascade]
    } else {
        Seq::empty()
    };
    let b = if options.keep_old_version {
        seq![keep]
    } else {
        Seq::empty()
    };
    assert(delete_headers_spec(options) == a + b);
    lemma_concat_contains(a, b, cascade);
    lemma_concat_contains(a, b, keep);
    if options.cascade_delete {
        assert(a[0] == cascade);
        assert(!a.contains(keep));
    }
    if options.keep_old_version {
        assert(b[0] == keep);
        assert(!b.contains(cascade));
    }
}

/// The headers of a delete: cascade and keep-old-version flags when set.
pub fn delete_headers(options: &DeleteOptions) -> (r: Vec<(String, String)>)
    ensures
        pairs_view(r@) == delete_headers_spec(*options),
{
    let mut headers: Vec<(String, String)> = Vec::new();
    if options.cascade_delete {
        push_header(&mut headers, "x-archive-cascade-delete", "1");
    }
    if options.keep_old_version {
        push_header(&mut headers, "x-archive-keep-old-version", "1");
    }
    assert(pairs_view(headers@) =~= delete_headers_spec(*options));
    headers
}

} // verus!
