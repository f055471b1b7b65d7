//! Endpoint configuration for archive.org and custom test deployments.

use vstd::prelude::*;

use crate::text::{chars_of, string_from_chars};
use crate::urls::{
    extend_url_query, join_url, parse_url, path_of_url, set_url_path, url_join, url_parse,
    url_path, url_with_path, url_with_query_pairs, UrlParseError,
};

verus! {

/// Whether a path ends with `/`.
pub open spec fn ends_with_slash(p: Seq<char>) -> bool {
    p.len() > 0 && p.last() == '/'
}

/// A root path ends with `/`; one that does not gets one appended.
pub open spec fn normalized_root_path(p: Seq<char>) -> Seq<char> {
    if ends_with_slash(p) {
        p
    } else {
        p.push('/')
    }
}

/// A path without its trailing slashes.
pub open spec fn trim_trailing_slashes(p: Seq<char>) -> Seq<char>
    decreases p.len(),
{
    if ends_with_slash(p) {
        trim_trailing_slashes(p.drop_last())
    } else {
        p
    }
}

/// Each segment preceded by `/`, one after the other.
pub open spec fn slash_segments(segments: Seq<Seq<char>>) -> Seq<char>
    decreases segments.len(),
{
    if segments.len() == 0 {
        Seq::empty()
    } else {
        slash_segments(segments.drop_last()) + seq!['/'] + segments.last()
    }
}

/// The path of a base URL with segments joined below it.
pub open spec fn joined_path(base_path: Seq<char>, segments: Seq<Seq<char>>) -> Seq<char> {
    trim_trailing_slashes(base_path) + slash_segments(segments)
}

/// The URL below `base` named by `segments`.
pub open spec fn segments_url(base: Seq<char>, segments: Seq<Seq<char>>) -> Seq<char> {
    url_with_path(base, joined_path(url_path(base), segments))
}

/// The serialization of a root URL with its path normalized.
pub open spec fn normalized_root(s: Seq<char>) -> Seq<char> {
    if ends_with_slash(url_path(s)) {
        s
    } else {
        url_with_path(s, url_path(s).push('/'))
    }
}

/// A normalized root path ends with `/`, and normalizing it again changes nothing.
pub proof fn lemma_normalized_root_path(p: Seq<char>)
    ensures
        ends_with_slash(normalized_root_path(p)),
        normalized_root_path(normalized_root_path(p)) == normalized_root_path(p),
{
}

/// A joined path never keeps the slashes that ended the base path: it is
/// the base without them, then `/` and each segment.
pub proof fn lemma_joined_path_single(base_path: Seq<char>, segment: Seq<char>)
    ensures
        joined_path(base_path, seq![segment]) == trim_trailing_slashes(base_path) + seq!['/']
            + segment,
{
    let s = seq![segment];
    assert(s.drop_last() =~= Seq::<Seq<char>>::empty());
    assert(slash_segments(Seq::<Seq<char>>::empty()) == Seq::<char>::empty());
    assert(s.last() == segment);
    assert(slash_segments(s) == slash_segments(s.drop_last()) + seq!['/'] + s.last());
    assert(slash_segments(s) =~= seq!['/'] + segment);
}

/// Endpoint roots used by the client, as URL serializations.
#[derive(Clone, Debug, PartialEq, Eq)]
pub struct Endpoint {
    archive_base: String,
    s3_base: String,
}

/// Parses a root URL and makes its path end with `/`.
fn normalize_root(input: &str) -> (r: Result<String, UrlParseError>)
    ensures
        match r {
            Ok(root) => url_parse(input@) is Ok && url_parse(url_parse(input@)->Ok_0) is Ok
                && root@ == normalized_root(url_parse(input@)->Ok_0) && url_parse(root@) is Ok,
            Err(e) => url_parse(input@) == Err::<Seq<char>, UrlParseError>(e) || (url_parse(
                input@,
            ) is Ok && url_parse(url_parse(input@)->Ok_0) == Err::<Seq<char>, UrlParseError>(e))
                || (url_parse(input@) is Ok && url_parse(url_parse(input@)->Ok_0) is Ok
                && url_parse(normalized_root(url_parse(input@)->Ok_0)) == Err::<
                Seq<char>,
                UrlParseError,
            >(e)),
        },
{
    let url = parse_url(input)?;
    let path = path_of_url(url.as_str())?;
    let chars = chars_of(path.as_str());
    let n = chars.len();
    if n > 0 && chars[n - 1] == '/' {
        Ok(url)
    } else {
        let mut with_slash = chars;
        with_slash.push('/');
        let new_path = string_from_chars(&with_slash);
        let root = set_url_path(url.as_str(), new_path.as_str())?;
        path_of_url(root.as_str())?;
        Ok(root)
    }
}

/// The path of `base` without trailing slashes, followed by `/segment` for each segment.
fn join_path(base_path: &str, segments: &Vec<&str>) -> (r: String)
    ensures
        r@ == joined_path(base_path@, segments@.map_values(|s: &str| s@)),
{
    let chars = chars_of(base_path);
    let mut end = chars.len();
    let ghost p = chars@;
    assert(p.take(end as int) =~= p);
    while end > 0 && chars[end - 1] == '/'
        invariant
            p == chars@,
            end <= chars@.len(),
            trim_trailing_slashes(p) == trim_trailing_slashes(p.take(end as int)),
        decreases end,
    {
        assert(p.take(end as int).drop_last() =~= p.take(end - 1));
        end = end - 1;
    }
    let mut out: Vec<char> = Vec::new();
    let mut i: usize = 0;
    while i < end
        invariant
            p == chars@,
            end <= chars@.len(),
            i <= end,
            out@ == p.take(i as int),
        decreases end - i,
    {
        out.push(chars[i]);
        assert(p.take(i + 1) =~= p.take(i as int).push(p[i as int]));
        i = i + 1;
    }
    assert(out@ == trim_trailing_slashes(p));
    let ghost views = segments@.map_values(|s: &str| s@);
    let ghost head = out@;
    let n = segments.len();
    let mut k: usize = 0;
    assert(views.take(0) =~= Seq::<Seq<char>>::empty());
    while k < n
        invariant
            n == segments@.len() == views.len(),
            views == segments@.map_values(|s: &str| s@),
            k <= n,
            out@ == head + slash_segments(views.take(k as int)),
        decreases n - k,
    {
        let seg = chars_of(segments[k]);
        let ghost before = out@;
        out.push('/');
        let m = seg.len();
        let mut j: usize = 0;
        while j < m
            invariant
                m == seg@.len(),
                j <= m,
                out@ == before.push('/') + seg@.take(j as int),
            decreases m - j,
        {
            out.push(seg[j]);
            assert(seg@.take(j + 1) =~= seg@.take(j as int).push(seg@[j as int]));
            assert(out@ =~= before.push('/') + seg@.take(j + 1));
            j = j + 1;
        }
        assert(seg@.take(m as int) =~= seg@);
        assert(views.take(k + 1).drop_last() =~= views.take(k as int));
        assert(views.take(k + 1).last() == seg@);
        assert(out@ =~= head + slash_segments(views.take(k + 1)));
        k = k + 1;
    }
    assert(views.take(n as int) =~= views);
    string_from_chars(&out)
}

/// The URL below `base` named by the segments.
fn join_segments(base: &str, segments: &Vec<&str>) -> (r: Result<String, UrlParseError>)
    ensures
        match r {
            Ok(u) => url_parse(base@) is Ok && u@ == segments_url(
                base@,
                segments@.map_values(|s: &str| s@),
            ),
            Err(e) => url_parse(base@) == Err::<Seq<char>, UrlParseError>(e),
        },
{
    let path = path_of_url(base)?;
    let new_path = join_path(path.as_str(), segments);
    set_url_path(base, new_path.as_str())
}

/// Views of string slices.
pub open spec fn strs_view(v: Seq<&str>) -> Seq<Seq<char>> {
    v.map_values(|s: &str| s@)
}

impl Endpoint {
    /// The archive root, as a URL serialization.
    pub closed spec fn spec_archive_base(&self) -> Seq<char> {
        self.archive_base@
    }

    /// The S3 root, as a URL serialization.
    pub closed spec fn spec_s3_base(&self) -> Seq<char> {
        self.s3_base@
    }

    /// Creates a custom endpoint from archive and S3 roots.
    ///
    /// The archive root is used for metadata, search, details, and downloads.
    /// The S3 root is used for authenticated upload and delete operations.
    /// Each root is parsed and its path made to end with `/`; both stored
    /// roots parse again, so the segment and query builders succeed on the
    /// endpoint this returns.
    pub fn custom(archive_base: &str, s3_base: &str) -> (r: Result<Self, UrlParseError>)
        ensures
            match r {
                Ok(e) => {
                    &&& url_parse(archive_base@) is Ok
                    &&& url_parse(s3_base@) is Ok
                    &&& e.spec_archive_base() == normalized_root(url_parse(archive_base@)->Ok_0)
                    &&& e.spec_s3_base() == normalized_root(url_parse(s3_base@)->Ok_0)
                    &&& url_parse(e.spec_archive_base()) is Ok
                    &&& url_parse(e.spec_s3_base()) is Ok
                },
                Err(_) => url_parse(archive_base@) is Err || url_parse(s3_base@) is Err || url_parse(
                    url_parse(archive_base@)->Ok_0,
                ) is Err || url_parse(url_parse(s3_base@)->Ok_0) is Err || url_parse(
                    normalized_root(url_parse(archive_base@)->Ok_0),
                ) is Err || url_parse(normalized_root(url_parse(s3_base@)->Ok_0)) is Err,
            },
    {
        let archive = normalize_root(archive_base)?;
        let s3 = normalize_root(s3_base)?;
        Ok(Endpoint { archive_base: archive, s3_base: s3 })
    }

    /// The roots of archive.org: `https://archive.org/` and `https://s3.us.archive.org/`.
    pub fn archive_org() -> (r: Self)
        ensures
            r.spec_archive_base() == "https://archive.org/"@,
            r.spec_s3_base() == "https://s3.us.archive.org/"@,
    {
        Endpoint {
            archive_base: "https://archive.org/".to_owned(),
            s3_base: "https://s3.us.archive.org/".to_owned(),
        }
    }

    /// Returns the archive root URL.
    pub fn archive_base(&self) -> (r: &str)
        ensures
            r@ == self.spec_archive_base(),
    {
        self.archive_base.as_str()
    }

    /// Returns the S3 root URL.
    pub fn s3_base(&self) -> (r: &str)
        ensures
            r@ == self.spec_s3_base(),
    {
        self.s3_base.as_str()
    }

    /// Returns the metadata endpoint for a given item: `metadata/{identifier}`
    /// below the archive root.
    pub fn metadata_url(&self, identifier: &str) -> (r: Result<String, UrlParseError>)
        ensures
            match r {
                Ok(u) => url_parse(self.spec_archive_base()) is Ok && u@ == segments_url(
                    self.spec_archive_base(),
                    seq!["metadata"@, identifier@],
                ),
                Err(e) => url_parse(self.spec_archive_base()) == Err::<Seq<char>, UrlParseError>(e),
            },
    {
        let mut segments: Vec<&str> = Vec::new();
        segments.push("metadata");
        segments.push(identifier);
        assert(strs_view(segments@) =~= seq!["metadata"@, identifier@]);
        join_segments(self.archive_base.as_str(), &segments)
    }

    /// Returns the advanced search endpoint URL: `advancedsearch.php`
    /// resolved against the archive root.
    pub fn search_url(&self) -> (r: Result<String, UrlParseError>)
        ensures
            match r {
                Ok(u) => url_parse(self.spec_archive_base()) is Ok && url_join(
                    self.spec_archive_base(),
                    "advancedsearch.php"@,
                ) == Ok::<Seq<char>, UrlParseError>(u@),
                Err(e) => url_parse(self.spec_archive_base()) == Err::<Seq<char>, UrlParseError>(e)
                    || (url_parse(self.spec_archive_base()) is Ok && url_join(
                    self.spec_archive_base(),
                    "advancedsearch.php"@,
                ) == Err::<Seq<char>, UrlParseError>(e)),
            },
    {
        join_url(self.archive_base.as_str(), "advancedsearch.php")
    }

    /// Returns the details page URL for an item: `details/{identifier}`.
    pub fn details_url(&self, identifier: &str) -> (r: Result<String, UrlParseError>)
        ensures
            match r {
                Ok(u) => url_parse(self.spec_archive_base()) is Ok && u@ == segments_url(
                    self.spec_archive_base(),
                    seq!["details"@, identifier@],
                ),
                Err(e) => url_parse(self.spec_archive_base()) == Err::<Seq<char>, UrlParseError>(e),
            },
    {
        let mut segments: Vec<&str> = Vec::new();
        segments.push("details");
        segments.push(identifier);
        assert(strs_view(segments@) =~= seq!["details"@, identifier@]);
        join_segments(self.archive_base.as_str(), &segments)
    }

    /// Returns the download URL for a file: `download/{identifier}/{filename}`.
    pub fn download_url(&self, identifier: &str, filename: &str) -> (r: Result<
        String,
        UrlParseError,
    >)
        ensures
            match r {
                Ok(u) => url_parse(self.spec_archive_base()) is Ok && u@ == segments_url(
                    self.spec_archive_base(),
                    seq!["download"@, identifier@, filename@],
                ),
                Err(e) => url_parse(self.spec_archive_base()) == Err::<Seq<char>, UrlParseError>(e),
            },
    {
        let mut segments: Vec<&str> = Vec::new();
        segments.push("download");
        segments.push(identifier);
        segments.push(filename);
        assert(strs_view(segments@) =~= seq!["download"@, identifier@, filename@]);
        join_segments(self.archive_base.as_str(), &segments)
    }

    /// Returns the S3 item URL for bucket-level operations: `{identifier}` below the S3 root.
    pub fn s3_item_url(&self, identifier: &str) -> (r: Result<String, UrlParseError>)
        ensures
            match r {
                Ok(u) => url_parse(self.spec_s3_base()) is Ok && u@ == segments_url(
                    self.spec_s3_base(),
                    seq![identifier@],
                ),
                Err(e) => url_parse(self.spec_s3_base()) == Err::<Seq<char>, UrlParseError>(e),
            },
    {
        let mut segments: Vec<&str> = Vec::new();
        segments.push(identifier);
        assert(strs_view(segments@) =~= seq![identifier@]);
        join_segments(self.s3_base.as_str(), &segments)
    }

    /// Returns the S3 object URL for upload or delete operations:
    /// `{identifier}/{filename}` below the S3 root.
    pub fn s3_object_url(&self, identifier: &str, filename: &str) -> (r: Result<
        String,
        UrlParseError,
    >)
        ensures
            match r {
                Ok(u) => url_parse(self.spec_s3_base()) is Ok && u@ == segments_url(
                    self.spec_s3_base(),
                    seq![identifier@, filename@],
                ),
                Err(e) => url_parse(self.spec_s3_base()) == Err::<Seq<char>, UrlParseError>(e),
            },
    {
        let mut segments: Vec<&str> = Vec::new();
        segments.push(identifier);
        segments.push(filename);
        assert(strs_view(segments@) =~= seq![identifier@, filename@]);
        join_segments(self.s3_base.as_str(), &segments)
    }

    /// Returns the S3 limit-check URL for an item identifier and access key:
    /// the S3 root with `check_limit=1`, `accesskey` and `bucket` appended to its query.
    pub fn s3_limit_check_url(&self, access_key: &str, identifier: &str) -> (r: Result<
        String,
        UrlParseError,
    >)
        ensures
            match r {
                Ok(u) => url_parse(self.spec_s3_base()) is Ok && u@ == url_with_query_pairs(
                    self.spec_s3_base(),
                    seq![("check_limit"@, "1"@), ("accesskey"@, access_key@), ("bucket"@, identifier@)],
                ),
                Err(e) => url_parse(self.spec_s3_base()) == Err::<Seq<char>, UrlParseError>(e),
            },
    {
        let mut pairs: Vec<(String, String)> = Vec::new();
        pairs.push(("check_limit".to_owned(), "1".to_owned()));
        pairs.push(("accesskey".to_owned(), access_key.to_owned()));
        pairs.push(("bucket".to_owned(), identifier.to_owned()));
        assert(pairs@.map_values(|p: (String, String)| (p.0@, p.1@)) =~= seq![("check_limit"@, "1"@), ("accesskey"@, access_key@), ("bucket"@, identifier@)]);
        extend_url_query(self.s3_base.as_str(), &pairs)
    }
}

impl Default for Endpoint {
    /// The roots of archive.org.
    fn default() -> (r: Self)
        ensures
            r.spec_archive_base() == "https://archive.org/"@,
            r.spec_s3_base() == "https://s3.us.archive.org/"@,
    {
        Endpoint::archive_org()
    }
}

} // verus!
