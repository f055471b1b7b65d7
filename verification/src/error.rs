//! Error types and response decoding.

use vstd::prelude::*;

use crate::ids::{identifier_error_text, IdentifierError};
use crate::json::{value_text, JsonValueView};
use crate::metadata::ItemMetadata;
use crate::text::{
    append_str, chars_of, debug_str, debug_str_text, split_chars, split_on, string_from_chars,
    trim, trim_chars,
};
use crate::urls::UrlParseError;

verus! {

/// A transport failure reported by the HTTP client, with the traits the
/// retry policy reads.
#[derive(Clone, Debug, PartialEq, Eq)]
pub struct TransportFailure {
    /// Human-readable description.
    pub message: String,
    /// The request timed out.
    pub timeout: bool,
    /// Connecting failed.
    pub connect: bool,
    /// Reading or writing the body failed.
    pub body: bool,
}

/// Errors produced by the Internet Archive client.
#[derive(Clone, Debug, PartialEq, Eq)]
pub enum InternetArchiveError {
    /// The service returned a non-success HTTP response.
    Http {
        /// HTTP status code.
        status: u16,
        /// Machine-friendly code when available.
        code: Option<String>,
        /// Human-readable summary when available.
        message: Option<String>,
        /// Trimmed raw response body.
        raw_body: Option<String>,
    },
    /// Metadata write returned `success: false`.
    MetadataWriteFailed {
        /// Error message returned by MDAPI.
        message: String,
        /// Trimmed raw response body.
        raw_body: Option<String>,
    },
    /// A public item could not be found.
    ItemNotFound {
        /// Requested item identifier.
        identifier: String,
    },
    /// The client was used for an authenticated operation without credentials.
    MissingAuth,
    /// An upload policy rejected an existing file.
    UploadConflict {
        /// Conflicting file name.
        filename: String,
    },
    /// A requested file was not present on an item.
    MissingFile {
        /// Missing file name.
        filename: String,
    },
    /// A workflow invariant was violated.
    InvalidState(String),
    /// Polling timed out before the requested state was visible.
    Timeout(String),
    /// Request transport failed.
    Transport(TransportFailure),
    /// JSON encoding or decoding failed.
    Json(String),
    /// XML decoding failed.
    Xml(String),
    /// Local I/O failed.
    Io(String),
    /// URL construction failed.
    Url(UrlParseError),
    /// Environment lookup failed.
    EnvVar {
        /// Environment variable name.
        name: String,
        /// Why the lookup failed.
        message: String,
    },
    /// Item identifier validation failed.
    Identifier(IdentifierError),
}

/// The view of an optional string.
pub open spec fn opt_view(o: Option<String>) -> Option<Seq<char>> {
    match o {
        Some(s) => Some(s@),
        None => None,
    }
}

/// The first option that holds a value.
pub open spec fn or_else<T>(a: Option<T>, b: Option<T>) -> Option<T> {
    if a is Some {
        a
    } else {
        b
    }
}

/// The MDAPI error envelope: `success`, `error`, `message`, `code`.
#[derive(Clone, Debug, PartialEq, Eq)]
pub struct MdapiEnvelope {
    /// Whether the request succeeded.
    pub success: Option<bool>,
    /// Error text.
    pub error: Option<String>,
    /// Message text.
    pub message: Option<String>,
    /// Machine-friendly code.
    pub code: Option<String>,
}

/// Abstract form of [`MdapiEnvelope`].
pub struct MdapiEnvelopeView {
    pub success: Option<bool>,
    pub error: Option<Seq<char>>,
    pub message: Option<Seq<char>>,
    pub code: Option<Seq<char>>,
}

impl View for MdapiEnvelope {
    type V = MdapiEnvelopeView;

    open spec fn view(&self) -> MdapiEnvelopeView {
        MdapiEnvelopeView {
            success: self.success,
            error: opt_view(self.error),
            message: opt_view(self.message),
            code: opt_view(self.code),
        }
    }
}

/// The S3 XML error document: `Code` and `Message`.
#[derive(Clone, Debug, PartialEq, Eq)]
pub struct XmlErrorFields {
    /// Error code.
    pub code: Option<String>,
    /// Error message.
    pub message: Option<String>,
}

/// A response body parsed as JSON: an object with its fields, or some other value.
#[derive(Debug)]
pub enum JsonBody {
    /// A JSON object.
    Object(ItemMetadata),
    /// A JSON value that is not an object.
    Other,
}

/// The fields of a JSON body, when it is an object.
pub open spec fn json_body_fields(b: JsonBody) -> Option<Map<Seq<char>, JsonValueView>> {
    match b {
        JsonBody::Object(m) => Some(m@),
        JsonBody::Other => None,
    }
}

/// A string field of a JSON object.
pub open spec fn text_field(fields: Option<Map<Seq<char>, JsonValueView>>, key: Seq<char>) -> Option<
    Seq<char>,
> {
    match fields {
        Some(m) => if m.contains_key(key) {
            value_text(m[key])
        } else {
            None
        },
        None => None,
    }
}

/// Whether `s` starts with `p`.
pub open spec fn starts_with(s: Seq<char>, p: Seq<char>) -> bool {
    p.len() <= s.len() && s.take(p.len() as int) == p
}

/// Whether `s` ends with `p`.
pub open spec fn ends_with(s: Seq<char>, p: Seq<char>) -> bool {
    p.len() <= s.len() && s.skip(s.len() - p.len()) == p
}

/// ASCII whitespace byte.
pub open spec fn is_ascii_ws(b: u8) -> bool {
    b == 32 || b == 9 || b == 10 || b == 12 || b == 13
}

/// The first byte that is not ASCII whitespace.
pub open spec fn first_non_ws_byte(body: Seq<u8>) -> Option<u8>
    decreases body.len(),
{
    if body.len() == 0 {
        None
    } else if !is_ascii_ws(body[0]) {
        Some(body[0])
    } else {
        first_non_ws_byte(body.drop_first())
    }
}

/// Whether a response looks like JSON: a JSON content type, or a body whose
/// first non-whitespace byte opens an object or an array.
pub open spec fn json_like(content_type: Option<Seq<char>>, body: Seq<u8>) -> bool {
    ||| content_type matches Some(ct) && (starts_with(ct, "application/json"@) || ends_with(
        ct,
        "+json"@,
    ))
    ||| first_non_ws_byte(body) matches Some(b) && (b == 123 || b == 91)
}

/// Whether a response looks like XML: an XML content type, or a body whose
/// first non-whitespace byte is `<`.
pub open spec fn xml_like(content_type: Option<Seq<char>>, body: Seq<u8>) -> bool {
    ||| content_type matches Some(ct) && (starts_with(ct, "application/xml"@) || starts_with(
        ct,
        "text/xml"@,
    ))
    ||| first_non_ws_byte(body) matches Some(b) && b == 60
}

/// The text that `String::from_utf8_lossy` makes of some bytes.
pub uninterp spec fn utf8_lossy(bytes: Seq<u8>) -> Seq<char>;

/// `String::from_utf8_lossy`: the bytes decoded as UTF-8, with invalid
/// sequences replaced by U+FFFD. Claims the text named by [`utf8_lossy`],
/// and that valid UTF-8 decodes unchanged.
#[verifier::external_body]
fn utf8_lossy_text(bytes: &[u8]) -> (r: String)
    ensures
        r@ == utf8_lossy(bytes@),
        vstd::utf8::valid_utf8(bytes@) ==> r@ == vstd::utf8::decode_utf8(bytes@),
{
    String::from_utf8_lossy(bytes).into_owned()
}

/// The first line that is not blank, trimmed.
pub open spec fn first_nonblank(lines: Seq<Seq<char>>) -> Option<Seq<char>>
    decreases lines.len(),
{
    if lines.len() == 0 {
        None
    } else if trim(lines[0]).len() > 0 {
        Some(trim(lines[0]))
    } else {
        first_nonblank(lines.drop_first())
    }
}

/// At most the first `n` characters.
pub open spec fn truncate(s: Seq<char>, n: nat) -> Seq<char> {
    if s.len() <= n {
        s
    } else {
        s.take(n as int)
    }
}

/// The first non-blank line of a body, trimmed and cut to 512 characters.
pub open spec fn trimmed_body_spec(body: Seq<u8>) -> Option<Seq<char>> {
    match first_nonblank(split_on(utf8_lossy(body), '\n')) {
        Some(line) => Some(truncate(line, 512)),
        None => None,
    }
}

/// The code, message and trimmed body that an HTTP error carries.
pub struct HttpErrorView {
    pub code: Option<Seq<char>>,
    pub message: Option<Seq<char>>,
    pub raw_body: Option<Seq<char>>,
}

/// How an HTTP error response is decoded. For a JSON-looking response the
/// MDAPI envelope is read first and any JSON object next; for an
/// XML-looking response the S3 error document; otherwise, or when none of
/// them parses, only the trimmed body is kept.
pub open spec fn decoded_http_error(
    content_type: Option<Seq<char>>,
    body: Seq<u8>,
    envelope: Option<MdapiEnvelopeView>,
    json: Option<Option<Map<Seq<char>, JsonValueView>>>,
    xml: Option<(Option<Seq<char>>, Option<Seq<char>>)>,
) -> HttpErrorView {
    let raw = trimmed_body_spec(body);
    if json_like(content_type, body) && envelope is Some {
        let m = envelope->0;
        HttpErrorView {
            code: m.code,
            message: or_else(or_else(m.error, m.message), raw),
            raw_body: raw,
        }
    } else if json_like(content_type, body) && json is Some {
        let f = json->0;
        HttpErrorView {
            code: text_field(f, "code"@),
            message: or_else(
                or_else(or_else(text_field(f, "error"@), text_field(f, "message"@)), text_field(f, "title"@)),
                raw,
            ),
            raw_body: raw,
        }
    } else if xml_like(content_type, body) && xml is Some {
        let (xml_code, xml_message) = xml->0;
        HttpErrorView { code: xml_code, message: or_else(xml_message, raw), raw_body: raw }
    } else {
        HttpErrorView { code: None, message: raw, raw_body: raw }
    }
}

/// Whether `s` starts with `p`.
fn has_prefix(s: &str, p: &str) -> (r: bool)
    ensures
        r == starts_with(s@, p@),
{
    let sv = chars_of(s);
    let pv = chars_of(p);
    if pv.len() > sv.len() {
        return false;
    }
    let n = pv.len();
    let mut i: usize = 0;
    while i < n
        invariant
            n == pv@.len() <= sv@.len(),
            sv@ == s@,
            pv@ == p@,
            i <= n,
            forall|j: int| 0 <= j < i ==> sv@[j] == pv@[j],
        decreases n - i,
    {
        if sv[i] != pv[i] {
            assert(sv@.take(n as int)[i as int] != pv@[i as int]);
            return false;
        }
        i = i + 1;
    }
    assert(sv@.take(n as int) =~= pv@);
    true
}

/// Whether `s` ends with `p`.
fn has_suffix(s: &str, p: &str) -> (r: bool)
    ensures
        r == ends_with(s@, p@),
{
    let sv = chars_of(s);
    let pv = chars_of(p);
    if pv.len() > sv.len() {
        return false;
    }
    let n = pv.len();
    let off = sv.len() - n;
    let mut i: usize = 0;
    while i < n
        invariant
            n == pv@.len(),
            off + n == sv.len(),
            sv@ == s@,
            pv@ == p@,
            i <= n,
            forall|j: int| 0 <= j < i ==> sv@[off + j] == pv@[j],
        decreases n - i,
    {
        if sv[off + i] != pv[i] {
            assert(sv@.skip(off as int)[i as int] != pv@[i as int]);
            return false;
        }
        i = i + 1;
    }
    assert(sv@.skip(off as int) =~= pv@);
    true
}

/// The first byte that is not ASCII whitespace.
fn find_non_ws_byte(body: &[u8]) -> (r: Option<u8>)
    ensures
        r == first_non_ws_byte(body@),
{
    let n = body.len();
    let mut i: usize = 0;
    assert(body@.skip(0) =~= body@);
    while i < n
        invariant
            n == body@.len(),
            i <= n,
            first_non_ws_byte(body@) == first_non_ws_byte(body@.skip(i as int)),
        decreases n - i,
    {
        let b = body[i];
        if !(b == 32 || b == 9 || b == 10 || b == 12 || b == 13) {
            return Some(b);
        }
        assert(body@.skip(i as int).drop_first() =~= body@.skip(i + 1));
        i = i + 1;
    }
    None
}

/// Whether a response looks like JSON.
pub fn looks_like_json(content_type: Option<&str>, body: &[u8]) -> (r: bool)
    ensures
        r == json_like(
            match content_type {
                Some(c) => Some(c@),
                None => None,
            },
            body@,
        ),
{
    if let Some(value) = content_type {
        if has_prefix(value, "application/json") || has_suffix(value, "+json") {
            return true;
        }
    }
    match find_non_ws_byte(body) {
        Some(b) => b == 123 || b == 91,
        None => false,
    }
}

/// Whether a response looks like XML.
pub fn looks_like_xml(content_type: Option<&str>, body: &[u8]) -> (r: bool)
    ensures
        r == xml_like(
            match content_type {
                Some(c) => Some(c@),
                None => None,
            },
            body@,
        ),
{
    if let Some(value) = content_type {
        if has_prefix(value, "application/xml") || has_prefix(value, "text/xml") {
            return true;
        }
    }
    match find_non_ws_byte(body) {
        Some(b) => b == 60,
        None => false,
    }
}

/// The first non-blank line of a body, trimmed and cut to 512 characters.
pub fn trimmed_body(body: &[u8]) -> (r: Option<String>)
    ensures
        opt_view(r) == trimmed_body_spec(body@),
{
    let text = utf8_lossy_text(body);
    let chars = chars_of(text.as_str());
    let lines = split_chars(&chars, '\n');
    let ghost views = split_on(chars@, '\n');
    let n = lines.len();
    let mut i: usize = 0;
    assert(views.skip(0) =~= views);
    while i < n
        invariant
            n == lines@.len() == views.len(),
            views == split_on(utf8_lossy(body@), '\n'),
            forall|k: int| 0 <= k < n ==> #[trigger] lines@[k]@ == views[k],
            i <= n,
            first_nonblank(views) == first_nonblank(views.skip(i as int)),
        decreases n - i,
    {
        let line = trim_chars(&lines[i]);
        assert(views.skip(i as int)[0] == views[i as int]);
        if line.len() > 0 {
            let mut out: Vec<char> = Vec::new();
            let m = if line.len() <= 512 {
                line.len()
            } else {
                512
            };
            let mut j: usize = 0;
            while j < m
                invariant
                    m <= line@.len(),
                    j <= m,
                    out@ == line@.take(j as int),
                decreases m - j,
            {
                out.push(line[j]);
                assert(line@.take(j + 1) =~= line@.take(j as int).push(line@[j as int]));
                j = j + 1;
            }
            assert(line@.take(m as int) =~= truncate(line@, 512));
            assert(line@ == trim(views[i as int]));
            assert(first_nonblank(views.skip(i as int)) == Some(trim(views[i as int])));
            return Some(string_from_chars(&out));
        }
        assert(views.skip(i as int).drop_first() =~= views.skip(i + 1));
        i = i + 1;
    }
    None
}

/// The text of a string field, when the JSON body is an object.
fn body_text_field(json: &JsonBody, key: &str) -> (r: Option<String>)
    ensures
        opt_view(r) == text_field(json_body_fields(*json), key@),
{
    match json {
        JsonBody::Object(m) => match m.get_text(key) {
            Some(t) => Some(t.to_owned()),
            None => None,
        },
        JsonBody::Other => None,
    }
}

/// The first option that holds a value.
fn first_of(a: Option<String>, b: Option<String>) -> (r: Option<String>)
    ensures
        opt_view(r) == or_else(opt_view(a), opt_view(b)),
{
    match a {
        Some(x) => Some(x),
        None => b,
    }
}

/// Decodes a non-success HTTP response into an error.
///
/// `envelope` is the body decoded as the MDAPI error envelope, `json` the
/// body decoded as any JSON value, and `xml` the body decoded as the S3
/// XML error document; each is `None` when that decoding fails.
pub fn decode_http_error(
    status: u16,
    content_type: Option<&str>,
    body: &[u8],
    envelope: Option<MdapiEnvelope>,
    json: Option<JsonBody>,
    xml: Option<XmlErrorFields>,
) -> (r: InternetArchiveError)
    ensures
        r matches InternetArchiveError::Http { status: s, code, message, raw_body } && s == status
            && ({
            let d = decoded_http_error(
                match content_type {
                    Some(c) => Some(c@),
                    None => None,
                },
                body@,
                match envelope {
                    Some(e) => Some(e@),
                    None => None,
                },
                match json {
                    Some(j) => Some(json_body_fields(j)),
                    None => None,
                },
                match xml {
                    Some(x) => Some((opt_view(x.code), opt_view(x.message))),
                    None => None,
                },
            );
            opt_view(code) == d.code && opt_view(message) == d.message && opt_view(raw_body)
                == d.raw_body
        }),
{
    let raw_body = trimmed_body(body);
    if looks_like_json(content_type, body) {
        if let Some(parsed) = envelope {
            let message = first_of(first_of(parsed.error, parsed.message), raw_body.clone());
            return InternetArchiveError::Http { status, code: parsed.code, message, raw_body };
        }
        if let Some(parsed) = json {
            let code = body_text_field(&parsed, "code");
            let message = first_of(
                first_of(
                    first_of(body_text_field(&parsed, "error"), body_text_field(&parsed, "message")),
                    body_text_field(&parsed, "title"),
                ),
                raw_body.clone(),
            );
            return InternetArchiveError::Http { status, code, message, raw_body };
        }
    }
    if looks_like_xml(content_type, body) {
        if let Some(parsed) = xml {
            let message = first_of(parsed.message, raw_body.clone());
            return InternetArchiveError::Http { status, code: parsed.code, message, raw_body };
        }
    }
    InternetArchiveError::Http { status, code: None, message: raw_body.clone(), raw_body }
}

/// Checks a metadata-write response body.
///
/// `envelope` is the body decoded as the MDAPI envelope, or the message of
/// the JSON error when it does not decode. The write succeeded when
/// `success` is `true`; otherwise the failure carries the `error` or
/// `message` text, or a default message.
pub fn decode_metadata_write_failure(body: &[u8], envelope: Result<MdapiEnvelope, String>) -> (r:
    Result<(), InternetArchiveError>)
    ensures
        match envelope {
            Err(msg) => r matches Err(InternetArchiveError::Json(m)) && m@ == msg@,
            Ok(e) => if e.success == Some(true) {
                r is Ok
            } else {
                r matches Err(InternetArchiveError::MetadataWriteFailed { message, raw_body })
                    && opt_view(raw_body) == trimmed_body_spec(body@) && message@ == (match or_else(
                    opt_view(e.error),
                    opt_view(e.message),
                ) {
                    Some(m) => m,
                    None => "unknown metadata write error"@,
                })
            },
        },
{
    match envelope {
        Err(msg) => Err(InternetArchiveError::Json(msg)),
        Ok(parsed) => {
            if parsed.success == Some(true) {
                Ok(())
            } else {
                let message = match first_of(parsed.error, parsed.message) {
                    Some(m) => m,
                    None => "unknown metadata write error".to_owned(),
                };
                Err(
                    InternetArchiveError::MetadataWriteFailed {
                        message,
                        raw_body: trimmed_body(body),
                    },
                )
            }
        },
    }
}

/// The text that `http::StatusCode`'s `Display` writes for a status: the
/// number and its reason phrase.
pub uninterp spec fn status_text(status: u16) -> Seq<char>;

/// `StatusCode::from_u16(status)` written with `Display`; a number that is
/// no status code is written as the number. Claims the text named by
/// [`status_text`] for the status.
#[verifier::external_body]
fn status_text_of(status: u16) -> (r: String)
    ensures
        r@ == status_text(status),
{
    match reqwest::StatusCode::from_u16(status) {
        Ok(code) => code.to_string(),
        Err(_) => status.to_string(),
    }
}

/// The message of a URL parse error, as the `url` crate's `Display` reads.
pub open spec fn url_error_text(e: UrlParseError) -> Seq<char> {
    match e {
        UrlParseError::EmptyHost => "empty host"@,
        UrlParseError::IdnaError => "invalid international domain name"@,
        UrlParseError::InvalidPort => "invalid port number"@,
        UrlParseError::InvalidIpv4Address => "invalid IPv4 address"@,
        UrlParseError::InvalidIpv6Address => "invalid IPv6 address"@,
        UrlParseError::InvalidDomainCharacter => "invalid domain character"@,
        UrlParseError::RelativeUrlWithoutBase => "relative URL without a base"@,
        UrlParseError::RelativeUrlWithCannotBeABaseBase => "relative URL with a cannot-be-a-base base"@,
        UrlParseError::SetHostOnCannotBeABaseUrl => "a cannot-be-a-base URL doesn\u{2019}t have a host to set"@,
        UrlParseError::Overflow => "URLs more than 4 GB are not supported"@,
        UrlParseError::Other => "invalid URL"@,
    }
}

/// How `Debug` writes an optional string: `None`, or `Some(` and the quoted
/// string and `)`.
pub open spec fn debug_opt_str(o: Option<Seq<char>>) -> Seq<char> {
    match o {
        None => "None"@,
        Some(s) => "Some("@ + debug_str(s) + ")"@,
    }
}

/// The message of an error, as its `Display` reads.
pub open spec fn error_text(e: InternetArchiveError) -> Seq<char> {
    match e {
        InternetArchiveError::Http { status, message, .. } => "Internet Archive returned HTTP "@
            + status_text(status) + ": "@ + debug_opt_str(opt_view(message)),
        InternetArchiveError::MetadataWriteFailed { message, .. } => "metadata write failed: "@
            + message@,
        InternetArchiveError::ItemNotFound { identifier } => "item not found: "@ + identifier@,
        InternetArchiveError::MissingAuth => "this operation requires Internet Archive credentials"@,
        InternetArchiveError::UploadConflict { filename } =>
            "item already contains file and selected policy forbids overwrite: "@ + filename@,
        InternetArchiveError::MissingFile { filename } => "item is missing file: "@ + filename@,
        InternetArchiveError::InvalidState(m) => "invalid Internet Archive state: "@ + m@,
        InternetArchiveError::Timeout(label) => "timed out waiting for Internet Archive "@
            + label@,
        InternetArchiveError::Transport(t) => t.message@,
        InternetArchiveError::Json(m) => m@,
        InternetArchiveError::Xml(m) => m@,
        InternetArchiveError::Io(m) => m@,
        InternetArchiveError::Url(u) => url_error_text(u),
        InternetArchiveError::EnvVar { name, message } => "failed to read environment variable "@
            + name@ + ": "@ + message@,
        InternetArchiveError::Identifier(i) => identifier_error_text(i@),
    }
}

/// `prefix` followed by `tail`.
fn prefixed(prefix: &str, tail: &str) -> (r: String)
    ensures
        r@ == prefix@ + tail@,
{
    let mut s = prefix.to_owned();
    append_str(&mut s, tail);
    s
}

/// The message of a URL parse error.
fn url_error_message(e: UrlParseError) -> (r: String)
    ensures
        r@ == url_error_text(e),
{
    match e {
        UrlParseError::EmptyHost => "empty host".to_owned(),
        UrlParseError::IdnaError => "invalid international domain name".to_owned(),
        UrlParseError::InvalidPort => "invalid port number".to_owned(),
        UrlParseError::InvalidIpv4Address => "invalid IPv4 address".to_owned(),
        UrlParseError::InvalidIpv6Address => "invalid IPv6 address".to_owned(),
        UrlParseError::InvalidDomainCharacter => "invalid domain character".to_owned(),
        UrlParseError::RelativeUrlWithoutBase => "relative URL without a base".to_owned(),
        UrlParseError::RelativeUrlWithCannotBeABaseBase => "relative URL with a cannot-be-a-base base".to_owned(),
        UrlParseError::SetHostOnCannotBeABaseUrl => "a cannot-be-a-base URL doesn\u{2019}t have a host to set".to_owned(),
        UrlParseError::Overflow => "URLs more than 4 GB are not supported".to_owned(),
        UrlParseError::Other => "invalid URL".to_owned(),
    }
}

impl InternetArchiveError {
    /// The message of this error, as its `Display` reads.
    pub fn message(&self) -> (r: String)
        ensures
            r@ == error_text(*self),
    {
        match self {
            InternetArchiveError::Http { status, message, .. } => {
                let mut s = prefixed("Internet Archive returned HTTP ", status_text_of(*status).as_str());
                append_str(&mut s, ": ");
                match message {
                    None => append_str(&mut s, "None"),
                    Some(m) => {
                        let quoted = prefixed("Some(", debug_str_text(m.as_str()).as_str());
                        let quoted = prefixed(quoted.as_str(), ")");
                        append_str(&mut s, quoted.as_str());
                    },
                }
                s
            },
            InternetArchiveError::MetadataWriteFailed { message, .. } => prefixed(
                "metadata write failed: ",
                message.as_str(),
            ),
            InternetArchiveError::ItemNotFound { identifier } => prefixed(
                "item not found: ",
                identifier.as_str(),
            ),
            InternetArchiveError::MissingAuth => "this operation requires Internet Archive credentials".to_owned(),
            InternetArchiveError::UploadConflict { filename } => prefixed(
                "item already contains file and selected policy forbids overwrite: ",
                filename.as_str(),
            ),
            InternetArchiveError::MissingFile { filename } => prefixed(
                "item is missing file: ",
                filename.as_str(),
            ),
            InternetArchiveError::InvalidState(m) => prefixed(
                "invalid Internet Archive state: ",
                m.as_str(),
            ),
            InternetArchiveError::Timeout(label) => prefixed(
                "timed out waiting for Internet Archive ",
                label.as_str(),
            ),
            InternetArchiveError::Transport(t) => t.message.clone(),
            InternetArchiveError::Json(m) => m.clone(),
            InternetArchiveError::Xml(m) => m.clone(),
            InternetArchiveError::Io(m) => m.clone(),
            InternetArchiveError::Url(u) => url_error_message(*u),
            InternetArchiveError::EnvVar { name, message } => {
                let mut s = prefixed("failed to read environment variable ", name.as_str());
                append_str(&mut s, ": ");
                append_str(&mut s, message.as_str());
                s
            },
            InternetArchiveError::Identifier(i) => i.message(),
        }
    }
}

} // verus!
