//! Typed API response models.

use vstd::prelude::*;

use crate::ids::{identifier_check, ItemIdentifier, TaskId};
use crate::error::{opt_view, or_else};
use crate::json::{value_text, JsonValue, JsonValueView};
use crate::metadata::ItemMetadata;
use crate::text::str_eq;

verus! {

/// The identifier that a metadata document names, when its `identifier`
/// field is a string that is a valid identifier.
pub open spec fn named_identifier(m: Map<Seq<char>, JsonValueView>) -> Option<Seq<char>> {
    if m.contains_key("identifier"@) && value_text(m["identifier"@]) is Some {
        match identifier_check(value_text(m["identifier"@])->0) {
            Ok(id) => Some(id),
            Err(_) => None,
        }
    } else {
        None
    }
}

/// Reads the identifier a metadata document names.
fn identifier_of(m: &ItemMetadata) -> (r: Option<ItemIdentifier>)
    ensures
        match r {
            Some(id) => named_identifier(m@) == Some(id@),
            None => named_identifier(m@) is None,
        },
{
    match m.get_text("identifier") {
        Some(value) => match ItemIdentifier::new(value) {
            Ok(id) => Some(id),
            Err(_) => None,
        },
        None => None,
    }
}

/// File entry returned by metadata reads.
#[derive(Clone, Debug, PartialEq)]
pub struct ItemFile {
    /// File name relative to the item root.
    pub name: String,
    /// Origin of the file, such as `original` or `derivative`.
    pub source: Option<String>,
    /// IA format label.
    pub format: Option<String>,
    /// Last modified timestamp.
    pub mtime: Option<u64>,
    /// Size in bytes.
    pub size: Option<u64>,
    /// MD5 hash when available.
    pub md5: Option<String>,
    /// CRC32 hash when available.
    pub crc32: Option<String>,
    /// SHA1 hash when available.
    pub sha1: Option<String>,
    /// Original file name for derivative files.
    pub original: Option<String>,
    /// Any additional file metadata.
    pub extra: Vec<(String, JsonValue)>,
}

impl ItemFile {
    /// A file entry with a name and nothing else.
    pub fn named(name: &str) -> (r: ItemFile)
        ensures
            r.name@ == name@,
            r.source is None && r.format is None && r.mtime is None && r.size is None,
            r.md5 is None && r.crc32 is None && r.sha1 is None && r.original is None,
            r.extra@.len() == 0,
    {
        ItemFile {
            name: name.to_owned(),
            source: None,
            format: None,
            mtime: None,
            size: None,
            md5: None,
            crc32: None,
            sha1: None,
            original: None,
            extra: Vec::new(),
        }
    }

    /// The checksum that identifies the file's content: the MD5 hash when
    /// there is one, else the SHA1 hash, else the CRC32.
    pub fn checksum(&self) -> (r: Option<&str>)
        ensures
            match r {
                Some(c) => or_else(or_else(opt_view(self.md5), opt_view(self.sha1)), opt_view(
                    self.crc32,
                )) == Some(c@),
                None => self.md5 is None && self.sha1 is None && self.crc32 is None,
            },
    {
        if let Some(h) = &self.md5 {
            return Some(h.as_str());
        }
        if let Some(h) = &self.sha1 {
            return Some(h.as_str());
        }
        match &self.crc32 {
            Some(h) => Some(h.as_str()),
            None => None,
        }
    }
}

/// Whether no file in `files` has the name `name`.
pub open spec fn no_file_named(files: Seq<ItemFile>, name: Seq<char>) -> bool {
    forall|i: int| 0 <= i < files.len() ==> #[trigger] files[i].name@ != name
}

/// Whether `i` is the position of the first file named `name`.
pub open spec fn first_file_named(files: Seq<ItemFile>, name: Seq<char>, i: int) -> bool {
    &&& 0 <= i < files.len()
    &&& files[i].name@ == name
    &&& no_file_named(files.take(i), name)
}

/// Full response returned by `GET /metadata/{identifier}`.
#[derive(Debug)]
pub struct Item {
    /// Item creation timestamp, when present.
    pub created: Option<u64>,
    /// Primary data node hostname.
    pub d1: Option<String>,
    /// Secondary data node hostname.
    pub d2: Option<String>,
    /// Item directory path inside IA storage.
    pub dir: Option<String>,
    /// Files contained in the item.
    pub files: Vec<ItemFile>,
    /// Reported file count.
    pub files_count: Option<u64>,
    /// Last updated timestamp.
    pub item_last_updated: Option<u64>,
    /// Reported item size in bytes.
    pub item_size: Option<u64>,
    /// Flexible metadata map.
    pub metadata: ItemMetadata,
    /// Host currently serving the metadata read.
    pub server: Option<String>,
    /// Unique record hash or sequence number.
    pub uniq: Option<u64>,
    /// Alternate workable hosts.
    pub workable_servers: Vec<String>,
    /// Any unmodeled top-level fields.
    pub extra: Vec<(String, JsonValue)>,
}

impl Item {
    /// An item record with the given metadata and files and no other field.
    pub fn new(metadata: ItemMetadata, files: Vec<ItemFile>) -> (r: Item)
        ensures
            r.metadata@ == metadata@,
            r.files@ == files@,
            r.created is None && r.d1 is None && r.d2 is None && r.dir is None,
            r.files_count is None && r.item_last_updated is None && r.item_size is None,
            r.server is None && r.uniq is None,
            r.workable_servers@.len() == 0 && r.extra@.len() == 0,
    {
        Item {
            created: None,
            d1: None,
            d2: None,
            dir: None,
            files,
            files_count: None,
            item_last_updated: None,
            item_size: None,
            metadata,
            server: None,
            uniq: None,
            workable_servers: Vec::new(),
            extra: Vec::new(),
        }
    }

    /// Returns the validated item identifier from metadata.
    pub fn identifier(&self) -> (r: Option<ItemIdentifier>)
        ensures
            match r {
                Some(id) => named_identifier(self.metadata@) == Some(id@),
                None => named_identifier(self.metadata@) is None,
            },
    {
        identifier_of(&self.metadata)
    }

    /// The position of the first file named `name`.
    pub fn file_position(&self, name: &str) -> (r: Option<usize>)
        ensures
            match r {
                Some(i) => first_file_named(self.files@, name@, i as int),
                None => no_file_named(self.files@, name@),
            },
    {
        let n = self.files.len();
        let mut i: usize = 0;
        while i < n
            invariant
                n == self.files@.len(),
                i <= n,
                no_file_named(self.files@.take(i as int), name@),
            decreases n - i,
        {
            if str_eq(self.files[i].name.as_str(), name) {
                return Some(i);
            }
            assert(no_file_named(self.files@.take(i + 1), name@)) by {
                assert forall|j: int| 0 <= j < i + 1 implies #[trigger] self.files@.take(
                    i + 1,
                )[j].name@ != name@ by {
                    if j < i {
                        assert(self.files@.take(i + 1)[j] == self.files@.take(i as int)[j]);
                    }
                }
            }
            i = i + 1;
        }
        assert(self.files@.take(n as int) =~= self.files@);
        None
    }

    /// Finds a file by exact name: the first file with that name.
    pub fn file(&self, name: &str) -> (r: Option<&ItemFile>)
        ensures
            match r {
                Some(f) => exists|i: int|
                    first_file_named(self.files@, name@, i) && #[trigger] self.files@[i] == *f,
                None => no_file_named(self.files@, name@),
            },
    {
        match self.file_position(name) {
            Some(i) => Some(&self.files[i]),
            None => None,
        }
    }
}

/// Response returned by MDAPI metadata writes.
#[derive(Clone, Debug, PartialEq, Eq)]
pub struct MetadataWriteResponse {
    /// Whether the request was accepted.
    pub success: bool,
    /// Queued task identifier.
    pub task_id: Option<TaskId>,
    /// Log URL for the queued task.
    pub log: Option<String>,
    /// Error message when `success` is false.
    pub error: Option<String>,
}

/// Echo block returned by `advancedsearch.php`.
#[derive(Clone, Debug, PartialEq, Eq)]
pub struct SearchResponseHeader {
    /// Status code reported by the search service.
    pub status: i64,
    /// Query time in milliseconds, when present.
    pub q_time: Option<i64>,
    /// Echoed request parameters.
    pub params: Vec<(String, JsonValue)>,
}

impl Default for SearchResponseHeader {
    /// Status 0, no query time, no parameters.
    fn default() -> (r: Self)
        ensures
            r.status == 0,
            r.q_time is None,
            r.params@.len() == 0,
    {
        SearchResponseHeader { status: 0, q_time: None, params: Vec::new() }
    }
}

/// Flexible document returned by advanced search.
#[derive(Debug)]
pub struct SearchDocument {
    fields: ItemMetadata,
}

impl View for SearchDocument {
    type V = Map<Seq<char>, JsonValueView>;

    closed spec fn view(&self) -> Map<Seq<char>, JsonValueView> {
        self.fields@
    }
}

impl SearchDocument {
    /// A document with the given fields; a later pair replaces an earlier
    /// one with the same key.
    pub fn from_entries(entries: Vec<(String, JsonValue)>) -> (r: SearchDocument)
        ensures
            r@ == crate::metadata::pairs_map(entries@),
    {
        SearchDocument { fields: ItemMetadata::from_entries(entries) }
    }

    /// Returns the raw field value.
    pub fn get(&self, key: &str) -> (r: Option<&JsonValue>)
        ensures
            match r {
                Some(v) => self@.contains_key(key@) && self@[key@] == v@,
                None => !self@.contains_key(key@),
            },
    {
        self.fields.get(key)
    }

    /// Returns a string field.
    pub fn get_text(&self, key: &str) -> (r: Option<&str>)
        ensures
            match r {
                Some(s) => self@.contains_key(key@) && value_text(self@[key@]) == Some(s@),
                None => !self@.contains_key(key@) || value_text(self@[key@]) is None,
            },
    {
        self.fields.get_text(key)
    }

    /// Returns the validated item identifier from a search document.
    pub fn identifier(&self) -> (r: Option<ItemIdentifier>)
        ensures
            match r {
                Some(id) => named_identifier(self@) == Some(id@),
                None => named_identifier(self@) is None,
            },
    {
        identifier_of(&self.fields)
    }

    /// Returns the title field when present.
    pub fn title(&self) -> (r: Option<&str>)
        ensures
            match r {
                Some(s) => self@.contains_key("title"@) && value_text(self@["title"@]) == Some(
                    s@,
                ),
                None => !self@.contains_key("title"@) || value_text(self@["title"@]) is None,
            },
    {
        self.fields.get_text("title")
    }

    /// Returns the fields in key order.
    pub fn as_map(&self) -> (r: &Vec<(String, JsonValue)>)
        ensures
            crate::strmap::entries_map(r@) == self@,
            crate::strmap::sorted_keys(r@),
    {
        self.fields.as_map()
    }
}

/// Document list returned by search.
#[derive(Debug)]
pub struct SearchResultPage {
    /// Number of matching documents.
    pub num_found: u64,
    /// Start offset of this page.
    pub start: u64,
    /// Returned documents.
    pub docs: Vec<SearchDocument>,
}

/// Search response wrapper.
#[derive(Debug)]
pub struct SearchResponse {
    /// Header and echoed parameters.
    pub response_header: SearchResponseHeader,
    /// Main result page.
    pub response: SearchResultPage,
}

/// Response returned by the S3 limit-check endpoint.
#[derive(Clone, Debug, PartialEq, Eq)]
pub struct S3LimitCheck {
    /// Bucket name echoed by the service.
    pub bucket: String,
    /// Access key echoed by the service.
    pub accesskey: String,
    /// Whether the queue is over limit.
    pub over_limit: i64,
    /// Backend-specific detail.
    pub detail: Option<JsonValue>,
}

} // verus!
