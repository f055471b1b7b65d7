//! Download helper types.

use vstd::prelude::*;

use crate::endpoint::{segments_url, Endpoint};
use crate::error::InternetArchiveError;
use crate::ids::ItemIdentifier;
use crate::urls::url_parse;

verus! {

/// Resolved file download descriptor.
#[derive(Debug)]
pub struct ResolvedDownload {
    /// Item identifier being downloaded.
    pub identifier: ItemIdentifier,
    /// Requested file name.
    pub filename: String,
    /// Final resolved download URL.
    pub url: String,
}

/// Download target used by helper methods.
#[derive(Clone, Debug, PartialEq, Eq)]
pub enum DownloadTarget {
    /// Return bytes in memory.
    Bytes,
    /// Write directly to a local path.
    Path(String),
}

/// Resolves the public download URL for a file:
/// `download/{identifier}/{filename}` below the archive root.
pub fn resolve_download(endpoint: &Endpoint, identifier: &ItemIdentifier, filename: &str) -> (r:
    Result<ResolvedDownload, InternetArchiveError>)
    ensures
        match r {
            Ok(d) => {
                &&& url_parse(endpoint.spec_archive_base()) is Ok
                &&& d.identifier@ == identifier@
                &&& d.filename@ == filename@
                &&& d.url@ == segments_url(
                    endpoint.spec_archive_base(),
                    seq!["download"@, identifier@, filename@],
                )
            },
            Err(e) => e == InternetArchiveError::Url(url_parse(endpoint.spec_archive_base())->Err_0)
                && url_parse(endpoint.spec_archive_base()) is Err,
        },
{
    match endpoint.download_url(identifier.as_str(), filename) {
        Ok(url) => Ok(
            ResolvedDownload { identifier: identifier.clone(), filename: filename.to_owned(), url },
        ),
        Err(e) => Err(InternetArchiveError::Url(e)),
    }
}

} // verus!
