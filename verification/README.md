# internetarchive-rs

A client for [Internet Archive](https://archive.org/) items: metadata reads,
advanced search, authenticated uploads and deletes, metadata updates, public
downloads, and create or upsert workflows.

The crate is split in two.

- `src/` is the verified core, checked by Verus. It holds the item
  identifier rules, the metadata document model and its S3 header encoding,
  search query encoding, endpoint URLs, upload and delete headers, HTTP error
  decoding, the retry and polling policies, the request each client
  operation sends, the handling of S3 redirects and metadata reads, and the
  decisions of the publish and upsert workflows. Every public function
  states its result in its contract; the laws that relate several functions
  are public proof functions.
- `app/` is the async client around it: it sends the requests the core plans
  with `reqwest`, decodes JSON and XML bodies with `serde_json` and
  `quick-xml`, diffs metadata with `json-patch`, reads and writes files with
  `tokio`, sleeps between polls, and implements the `client-uploader-traits`
  capabilities.

Calls into outside crates that the core makes (URL parsing and joining,
percent-encoding, MIME guessing, HTTP header validation, lossy UTF-8
decoding) go through small trusted wrappers whose contracts say what the
outside function returns.
