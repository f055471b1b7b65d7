//! Verified core of an Internet Archive client: identifiers, metadata
//! documents and their S3 header encoding, search queries, endpoint URLs,
//! upload and delete headers, error decoding, retry and polling policies,
//! and the decisions of the client and of its publish workflows.

pub mod text;
pub mod strmap;
pub mod json;
pub mod encoding;
pub mod urls;
pub mod ids;
pub mod metadata;
pub mod search;
pub mod endpoint;
pub mod error;
pub mod retry;
pub mod poll;
pub mod upload;
pub mod model;
pub mod downloads;
pub mod diff;
pub mod client;
pub mod workflow;

pub use client::Auth;
pub use downloads::{DownloadTarget, ResolvedDownload};
pub use endpoint::Endpoint;
pub use error::InternetArchiveError;
pub use ids::{IdentifierError, ItemIdentifier, TaskId};
pub use metadata::{
    ItemMetadata, ItemMetadataBuilder, MediaType, MetadataChange, MetadataTarget, MetadataValue,
    PatchOperation,
};
pub use model::{
    Item, ItemFile, MetadataWriteResponse, S3LimitCheck, SearchDocument, SearchResponse,
    SearchResponseHeader, SearchResultPage,
};
pub use poll::PollOptions;
pub use retry::RetryOptions;
pub use search::{SearchQuery, SearchQueryBuilder, SearchSort, SortDirection};
pub use upload::{DeleteOptions, FileConflictPolicy, UploadOptions, UploadSource, UploadSpec};
pub use workflow::{PublishOutcome, PublishRequest};
