//! URL operations through the `url` crate, over the text of URLs.
//!
//! A URL travels through the library as its serialization. Each operation
//! parses that text, performs one step of the `url` crate, and serializes
//! the result again. What the `url` crate computes follows the WHATWG URL
//! standard, which takes pages to state; its results are therefore named.

use vstd::prelude::*;

verus! {

/// Why a URL could not be parsed (`url::ParseError`).
#[derive(Clone, Copy, Debug, PartialEq, Eq, Structural)]
pub enum UrlParseError {
    EmptyHost,
    IdnaError,
    InvalidPort,
    InvalidIpv4Address,
    InvalidIpv6Address,
    InvalidDomainCharacter,
    RelativeUrlWithoutBase,
    RelativeUrlWithCannotBeABaseBase,
    SetHostOnCannotBeABaseUrl,
    Overflow,
    /// A kind that this library does not know by name.
    Other,
}

/// The serialization of the URL that `url::Url::parse` makes of `input`,
/// or why it fails.
pub uninterp spec fn url_parse(input: Seq<char>) -> Result<Seq<char>, UrlParseError>;

/// The path of the URL parsed from `url` (`url::Url::path`).
pub uninterp spec fn url_path(url: Seq<char>) -> Seq<char>;

/// The serialization of the URL parsed from `url` after `set_path(path)`.
pub uninterp spec fn url_with_path(url: Seq<char>, path: Seq<char>) -> Seq<char>;

/// The serialization of `input` resolved against the URL parsed from
/// `url` (`url::Url::join`), or why it fails.
pub uninterp spec fn url_join(url: Seq<char>, input: Seq<char>) -> Result<
    Seq<char>,
    UrlParseError,
>;

/// The serialization of the URL parsed from `url` after appending the
/// form-encoded `pairs` to its query, in order (`query_pairs_mut().extend_pairs`).
pub uninterp spec fn url_with_query_pairs(url: Seq<char>, pairs: Seq<(Seq<char>, Seq<char>)>) -> Seq<
    char,
>;

/// Parses a URL with `url::Url::parse` and returns its serialization.
/// Claims that the outcome is the one named by [`url_parse`] for the input.
#[verifier::external_body]
pub(crate) fn parse_url(input: &str) -> (r: Result<String, UrlParseError>)
    ensures
        match r {
            Ok(s) => url_parse(input@) == Ok::<Seq<char>, UrlParseError>(s@),
            Err(e) => url_parse(input@) == Err::<Seq<char>, UrlParseError>(e),
        },
{
    match url::Url::parse(input) {
        Ok(u) => Ok(u.as_str().to_owned()),
        Err(e) => Err(convert_parse_error(e)),
    }
}

/// The `url` crate's parse error, carried opaquely into the conversion below.
#[verifier::external_type_specification]
#[verifier::external_body]
pub struct ExUrlParseError(url::ParseError);

/// Converts `url::ParseError` variant by variant.
#[verifier::external_body]
fn convert_parse_error(e: url::ParseError) -> (r: UrlParseError) {
    match e {
        url::ParseError::EmptyHost => UrlParseError::EmptyHost,
        url::ParseError::IdnaError => UrlParseError::IdnaError,
        url::ParseError::InvalidPort => UrlParseError::InvalidPort,
        url::ParseError::InvalidIpv4Address => UrlParseError::InvalidIpv4Address,
        url::ParseError::InvalidIpv6Address => UrlParseError::InvalidIpv6Address,
        url::ParseError::InvalidDomainCharacter => UrlParseError::InvalidDomainCharacter,
        url::ParseError::RelativeUrlWithoutBase => UrlParseError::RelativeUrlWithoutBase,
        url::ParseError::RelativeUrlWithCannotBeABaseBase => UrlParseError::RelativeUrlWithCannotBeABaseBase,
        url::ParseError::SetHostOnCannotBeABaseUrl => UrlParseError::SetHostOnCannotBeABaseUrl,
        url::ParseError::Overflow => UrlParseError::Overflow,
        _ => UrlParseError::Other,
    }
}

/// The path of a URL (`url::Url::path`), after parsing its text again.
/// Claims the parse outcome of [`url_parse`] and, on success, the path
/// named by [`url_path`].
#[verifier::external_body]
pub(crate) fn path_of_url(url: &str) -> (r: Result<String, UrlParseError>)
    ensures
        match r {
            Ok(p) => url_parse(url@) is Ok && p@ == url_path(url@),
            Err(e) => url_parse(url@) == Err::<Seq<char>, UrlParseError>(e),
        },
{
    match url::Url::parse(url) {
        Ok(u) => Ok(u.path().to_owned()),
        Err(e) => Err(convert_parse_error(e)),
    }
}

/// Replaces the path of a URL (`url::Url::set_path`). Claims the parse
/// outcome of [`url_parse`] and, on success, the serialization named by
/// [`url_with_path`].
#[verifier::external_body]
pub(crate) fn set_url_path(url: &str, path: &str) -> (r: Result<String, UrlParseError>)
    ensures
        match r {
            Ok(s) => url_parse(url@) is Ok && s@ == url_with_path(url@, path@),
            Err(e) => url_parse(url@) == Err::<Seq<char>, UrlParseError>(e),
        },
{
    match url::Url::parse(url) {
        Ok(mut u) => {
            u.set_path(path);
            Ok(u.as_str().to_owned())
        },
        Err(e) => Err(convert_parse_error(e)),
    }
}

/// Resolves `input` against a URL (`url::Url::join`). Claims the parse
/// outcome of [`url_parse`] for the base and, when it parses, the outcome
/// named by [`url_join`].
#[verifier::external_body]
pub(crate) fn join_url(url: &str, input: &str) -> (r: Result<String, UrlParseError>)
    ensures
        match r {
            Ok(s) => url_parse(url@) is Ok && url_join(url@, input@) == Ok::<
                Seq<char>,
                UrlParseError,
            >(s@),
            Err(e) => url_parse(url@) == Err::<Seq<char>, UrlParseError>(e) || (url_parse(
                url@,
            ) is Ok && url_join(url@, input@) == Err::<Seq<char>, UrlParseError>(e)),
        },
{
    match url::Url::parse(url) {
        Ok(u) => match u.join(input) {
            Ok(j) => Ok(j.as_str().to_owned()),
            Err(e) => Err(convert_parse_error(e)),
        },
        Err(e) => Err(convert_parse_error(e)),
    }
}

/// Appends form-encoded pairs to the query of a URL
/// (`query_pairs_mut().extend_pairs`). Claims the parse outcome of
/// [`url_parse`] and, on success, the serialization named by
/// [`url_with_query_pairs`] for these pairs in this order.
#[verifier::external_body]
pub(crate) fn extend_url_query(url: &str, pairs: &Vec<(String, String)>) -> (r: Result<
    String,
    UrlParseError,
>)
    ensures
        match r {
            Ok(s) => url_parse(url@) is Ok && s@ == url_with_query_pairs(
                url@,
                pairs@.map_values(|p: (String, String)| (p.0@, p.1@)),
            ),
            Err(e) => url_parse(url@) == Err::<Seq<char>, UrlParseError>(e),
        },
{
    match url::Url::parse(url) {
        Ok(mut u) => {
            u.query_pairs_mut().extend_pairs(pairs.iter());
            Ok(u.as_str().to_owned())
        },
        Err(e) => Err(convert_parse_error(e)),
    }
}

} // verus!
