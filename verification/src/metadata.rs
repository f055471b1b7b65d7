//! Flexible metadata documents, their S3 header encoding, and JSON Patch helpers.

use vstd::prelude::*;

use crate::encoding::{percent_encode_non_alphanumeric, percent_encode_non_alphanumeric_spec};
use crate::json::{
    all_text, copy_items, items_view, string_items, strings_view, texts_of, value_text,
    value_texts, JsonItem, JsonItemView, JsonValue, JsonValueView,
};
use crate::strmap::{entries_map, has_key, lemma_entries_map_at, StrMap};
use crate::text::{chars_of, decimal, str_eq, string_from_chars, u64_to_decimal, zero_padded};

verus! {

/// Abstract form of [`MediaType`].
pub enum MediaTypeView {
    Texts,
    Movies,
    Audio,
    Image,
    Software,
    Data,
    Collection,
    Custom(Seq<char>),
}

/// Common Internet Archive media types.
#[derive(Clone, Debug, PartialEq, Eq, Hash)]
pub enum MediaType {
    /// Texts and documents.
    Texts,
    /// Movies and videos.
    Movies,
    /// Audio recordings.
    Audio,
    /// Images.
    Image,
    /// Software and executables.
    Software,
    /// Datasets and miscellaneous files.
    Data,
    /// Collections of items.
    Collection,
    /// A custom mediatype string.
    Custom(String),
}

impl View for MediaType {
    type V = MediaTypeView;

    open spec fn view(&self) -> MediaTypeView {
        match self {
            MediaType::Texts => MediaTypeView::Texts,
            MediaType::Movies => MediaTypeView::Movies,
            MediaType::Audio => MediaTypeView::Audio,
            MediaType::Image => MediaTypeView::Image,
            MediaType::Software => MediaTypeView::Software,
            MediaType::Data => MediaTypeView::Data,
            MediaType::Collection => MediaTypeView::Collection,
            MediaType::Custom(s) => MediaTypeView::Custom(s@),
        }
    }
}

/// The name under which a media type is stored in metadata.
pub open spec fn media_type_name(m: MediaTypeView) -> Seq<char> {
    match m {
        MediaTypeView::Texts => "texts"@,
        MediaTypeView::Movies => "movies"@,
        MediaTypeView::Audio => "audio"@,
        MediaTypeView::Image => "image"@,
        MediaTypeView::Software => "software"@,
        MediaTypeView::Data => "data"@,
        MediaTypeView::Collection => "collection"@,
        MediaTypeView::Custom(s) => s,
    }
}

/// The media type that a stored name denotes: one of the common types when
/// the name is theirs, a custom type otherwise.
pub open spec fn media_type_from_name(s: Seq<char>) -> MediaTypeView {
    if s == "texts"@ {
        MediaTypeView::Texts
    } else if s == "movies"@ {
        MediaTypeView::Movies
    } else if s == "audio"@ {
        MediaTypeView::Audio
    } else if s == "image"@ {
        MediaTypeView::Image
    } else if s == "software"@ {
        MediaTypeView::Software
    } else if s == "data"@ {
        MediaTypeView::Data
    } else if s == "collection"@ {
        MediaTypeView::Collection
    } else {
        MediaTypeView::Custom(s)
    }
}

/// Reading a stored name back gives the name that was stored.
pub proof fn lemma_media_type_name_round_trip(s: Seq<char>)
    ensures
        media_type_name(media_type_from_name(s)) == s,
{
}

/// Storing a media type and reading it back gives the same type, unless a
/// custom type carries the name of a common one.
pub proof fn lemma_media_type_round_trip(m: MediaTypeView)
    requires
        m is Custom ==> !(m->Custom_0 == "texts"@ || m->Custom_0 == "movies"@ || m->Custom_0
            == "audio"@ || m->Custom_0 == "image"@ || m->Custom_0 == "software"@ || m->Custom_0
            == "data"@ || m->Custom_0 == "collection"@),
    ensures
        media_type_from_name(media_type_name(m)) == m,
{
    reveal_strlit("texts");
    reveal_strlit("movies");
    reveal_strlit("audio");
    reveal_strlit("image");
    reveal_strlit("software");
    reveal_strlit("data");
    reveal_strlit("collection");
    assert("texts"@[0] == 't' && "movies"@[0] == 'm' && "audio"@[0] == 'a' && "image"@[0]
        == 'i' && "software"@[0] == 's' && "data"@[0] == 'd' && "collection"@[0] == 'c');
}

impl MediaType {
    /// The name under which this media type is stored.
    pub fn as_str(&self) -> (r: &str)
        ensures
            r@ == media_type_name(self@),
    {
        match self {
            MediaType::Texts => "texts",
            MediaType::Movies => "movies",
            MediaType::Audio => "audio",
            MediaType::Image => "image",
            MediaType::Software => "software",
            MediaType::Data => "data",
            MediaType::Collection => "collection",
            MediaType::Custom(value) => value.as_str(),
        }
    }

    /// The media type that a stored name denotes.
    pub fn from_name(value: &str) -> (r: MediaType)
        ensures
            r@ == media_type_from_name(value@),
    {
        if str_eq(value, "texts") {
            MediaType::Texts
        } else if str_eq(value, "movies") {
            MediaType::Movies
        } else if str_eq(value, "audio") {
            MediaType::Audio
        } else if str_eq(value, "image") {
            MediaType::Image
        } else if str_eq(value, "software") {
            MediaType::Software
        } else if str_eq(value, "data") {
            MediaType::Data
        } else if str_eq(value, "collection") {
            MediaType::Collection
        } else {
            MediaType::Custom(value.to_owned())
        }
    }
}

/// Abstract form of [`MetadataValue`].
pub enum MetadataValueView {
    Text(Seq<char>),
    TextList(Seq<Seq<char>>),
    Json(JsonValueView),
}

/// Flexible metadata value wrapper.
#[derive(Clone, Debug, PartialEq, Eq)]
pub enum MetadataValue {
    /// Single string value.
    Text(String),
    /// Multiple string values.
    TextList(Vec<String>),
    /// Raw JSON value for less common metadata shapes.
    Json(JsonValue),
}

impl View for MetadataValue {
    type V = MetadataValueView;

    open spec fn view(&self) -> MetadataValueView {
        match self {
            MetadataValue::Text(s) => MetadataValueView::Text(s@),
            MetadataValue::TextList(v) => MetadataValueView::TextList(strings_view(v@)),
            MetadataValue::Json(j) => MetadataValueView::Json(j@),
        }
    }
}

impl MetadataValue {
    /// A single text value.
    pub fn from_text(value: &str) -> (r: MetadataValue)
        ensures
            r@ == MetadataValueView::Text(value@),
    {
        MetadataValue::Text(value.to_owned())
    }

    /// A list of text values.
    pub fn from_texts(values: &Vec<&str>) -> (r: MetadataValue)
        ensures
            r@ == MetadataValueView::TextList(values@.map_values(|s: &str| s@)),
    {
        let mut out: Vec<String> = Vec::new();
        let n = values.len();
        let mut i: usize = 0;
        while i < n
            invariant
                n == values@.len(),
                i <= n,
                strings_view(out@) =~= values@.take(i as int).map_values(|s: &str| s@),
            decreases n - i,
        {
            let ghost before = out@;
            out.push(values[i].to_owned());
            assert(strings_view(out@) =~= strings_view(before).push(values@[i as int]@));
            assert(values@.take(i + 1).map_values(|s: &str| s@) =~= values@.take(
                i as int,
            ).map_values(|s: &str| s@).push(values@[i as int]@));
            i = i + 1;
        }
        assert(values@.take(n as int) =~= values@);
        MetadataValue::TextList(out)
    }

    /// The JSON value that this wrapper stands for.
    pub fn into_json(self) -> (r: JsonValue)
        ensures
            r@ == metadata_value_json(self@),
    {
        match self {
            MetadataValue::Text(s) => JsonValue::Text(s),
            MetadataValue::TextList(v) => JsonValue::Array(text_items(v)),
            MetadataValue::Json(j) => j,
        }
    }
}

/// The JSON value a wrapper stands for.
pub open spec fn metadata_value_json(v: MetadataValueView) -> JsonValueView {
    match v {
        MetadataValueView::Text(s) => JsonValueView::Text(s),
        MetadataValueView::TextList(l) => JsonValueView::Array(
            l.map_values(|s: Seq<char>| JsonItemView::Text(s)),
        ),
        MetadataValueView::Json(j) => j,
    }
}

impl From<String> for MetadataValue {
    fn from(value: String) -> (r: MetadataValue) {
        MetadataValue::Text(value)
    }
}

impl vstd::std_specs::convert::FromSpecImpl<String> for MetadataValue {
    open spec fn obeys_from_spec() -> bool {
        true
    }

    open spec fn from_spec(v: String) -> MetadataValue {
        MetadataValue::Text(v)
    }
}

impl<'a> From<&'a str> for MetadataValue {
    fn from(value: &'a str) -> (r: MetadataValue)
        ensures
            r@ == MetadataValueView::Text(value@),
    {
        MetadataValue::from_text(value)
    }
}

impl<'a> From<Vec<&'a str>> for MetadataValue {
    fn from(values: Vec<&'a str>) -> (r: MetadataValue)
        ensures
            r@ == MetadataValueView::TextList(values@.map_values(|s: &str| s@)),
    {
        MetadataValue::from_texts(&values)
    }
}

impl<'a> vstd::std_specs::convert::FromSpecImpl<&'a str> for MetadataValue {
    open spec fn obeys_from_spec() -> bool {
        false
    }

    open spec fn from_spec(v: &'a str) -> MetadataValue {
        arbitrary()
    }
}

impl<'a> vstd::std_specs::convert::FromSpecImpl<Vec<&'a str>> for MetadataValue {
    open spec fn obeys_from_spec() -> bool {
        false
    }

    open spec fn from_spec(v: Vec<&'a str>) -> MetadataValue {
        arbitrary()
    }
}

impl From<Vec<String>> for MetadataValue {
    fn from(value: Vec<String>) -> (r: MetadataValue) {
        MetadataValue::TextList(value)
    }
}

impl vstd::std_specs::convert::FromSpecImpl<Vec<String>> for MetadataValue {
    open spec fn obeys_from_spec() -> bool {
        true
    }

    open spec fn from_spec(v: Vec<String>) -> MetadataValue {
        MetadataValue::TextList(v)
    }
}

/// Turns strings into array elements.
pub fn text_items(values: Vec<String>) -> (r: Vec<JsonItem>)
    ensures
        items_view(r@) == strings_view(values@).map_values(|s: Seq<char>| JsonItemView::Text(s)),
{
    let mut out: Vec<JsonItem> = Vec::new();
    let n = values.len();
    let mut i: usize = 0;
    while i < n
        invariant
            n == values@.len(),
            i <= n,
            items_view(out@) =~= strings_view(values@.take(i as int)).map_values(
                |s: Seq<char>| JsonItemView::Text(s),
            ),
        decreases n - i,
    {
        let ghost before = out@;
        out.push(JsonItem::Text(values[i].clone()));
        assert(items_view(out@) =~= items_view(before).push(JsonItemView::Text(values@[i as int]@)));
        assert(values@.take(i + 1) =~= values@.take(i as int).push(values@[i as int]));
        assert(strings_view(values@.take(i + 1)).map_values(|s: Seq<char>| JsonItemView::Text(s))
            =~= strings_view(values@.take(i as int)).map_values(
            |s: Seq<char>| JsonItemView::Text(s),
        ).push(JsonItemView::Text(values@[i as int]@)));
        i = i + 1;
    }
    assert(values@.take(n as int) =~= values@);
    out
}

/// A key with every `_` written as `--`, as S3 metadata headers require.
pub open spec fn escape_underscores(key: Seq<char>) -> Seq<char>
    decreases key.len(),
{
    if key.len() == 0 {
        Seq::empty()
    } else {
        escape_underscores(key.drop_last()) + (if key.last() == '_' {
            seq!['-', '-']
        } else {
            seq![key.last()]
        })
    }
}

/// Name of the S3 header that carries a metadata key, with the one-based
/// position of the value when the key has several.
pub open spec fn header_name_spec(key: Seq<char>, position: Option<nat>) -> Seq<char> {
    match position {
        Some(p) => "x-archive-meta"@ + zero_padded(p, 2) + "-"@ + escape_underscores(key),
        None => "x-archive-meta-"@ + escape_underscores(key),
    }
}

/// Value of a metadata header: ASCII text as is, other text percent-encoded
/// inside `uri(...)`.
pub open spec fn header_value_spec(value: Seq<char>) -> Seq<char> {
    if vstd::utf8::is_ascii_chars(value) {
        value
    } else {
        "uri("@ + percent_encode_non_alphanumeric_spec(vstd::utf8::encode_utf8(value)) + ")"@
    }
}

/// The headers that carry one metadata entry, or `None` when the value
/// cannot travel in headers (it is neither a string nor an array of strings).
pub open spec fn entry_headers(key: Seq<char>, value: JsonValueView) -> Option<
    Seq<(Seq<char>, Seq<char>)>,
> {
    match value {
        JsonValueView::Text(t) => Some(seq![(header_name_spec(key, None), header_value_spec(t))]),
        JsonValueView::Array(items) => if all_text(items) {
            let texts = texts_of(items);
            if texts.len() == 0 {
                Some(Seq::empty())
            } else if texts.len() == 1 {
                Some(seq![(header_name_spec(key, None), header_value_spec(texts[0]))])
            } else {
                Some(
                    Seq::new(
                        texts.len(),
                        |i: int|
                            (
                                header_name_spec(key, Some((i + 1) as nat)),
                                header_value_spec(texts[i]),
                            ),
                    ),
                )
            }
        } else {
            None
        },
        JsonValueView::Raw(_) => None,
    }
}

/// Headers for a sequence of entries, in order.
pub open spec fn headers_of(entries: Seq<(String, JsonValue)>) -> Seq<(Seq<char>, Seq<char>)>
    decreases entries.len(),
{
    if entries.len() == 0 {
        Seq::empty()
    } else {
        headers_of(entries.drop_last()) + match entry_headers(
            entries.last().0@,
            entries.last().1@,
        ) {
            Some(h) => h,
            None => Seq::empty(),
        }
    }
}

/// The part of a metadata map that cannot travel in headers.
pub open spec fn header_remainder(m: Map<Seq<char>, JsonValueView>) -> Map<
    Seq<char>,
    JsonValueView,
> {
    Map::new(|k: Seq<char>| m.contains_key(k) && entry_headers(k, m[k]) is None, |k: Seq<char>| m[k])
}

/// Views of header pairs.
pub open spec fn pairs_view(v: Seq<(String, String)>) -> Seq<(Seq<char>, Seq<char>)> {
    v.map_values(|p: (String, String)| (p.0@, p.1@))
}

/// What a text value becomes when another one is appended to its key.
pub open spec fn appended_text(existing: Option<JsonValueView>, value: Seq<char>) -> JsonValueView {
    match existing {
        None => JsonValueView::Text(value),
        Some(JsonValueView::Array(items)) => JsonValueView::Array(
            items.push(JsonItemView::Text(value)),
        ),
        Some(JsonValueView::Text(t)) => JsonValueView::Array(
            seq![JsonItemView::Text(t), JsonItemView::Text(value)],
        ),
        Some(JsonValueView::Raw(r)) => JsonValueView::Array(
            seq![JsonItemView::Raw(r), JsonItemView::Text(value)],
        ),
    }
}

/// Flexible item metadata map.
#[derive(Debug)]
pub struct ItemMetadata {
    map: StrMap<JsonValue>,
}

impl View for ItemMetadata {
    type V = Map<Seq<char>, JsonValueView>;

    closed spec fn view(&self) -> Map<Seq<char>, JsonValueView> {
        self.map@
    }
}

/// Helper produced when turning metadata into S3 creation headers.
#[derive(Debug)]
pub struct HeaderEncoding {
    /// Header names and values, in key order.
    pub headers: Vec<(String, String)>,
    /// Metadata that cannot travel in headers.
    pub remainder: ItemMetadata,
}

impl ItemMetadata {
    #[verifier::type_invariant]
    closed spec fn well_formed(self) -> bool {
        self.map.well_formed()
    }

    /// The entries in key order.
    pub closed spec fn spec_entries(&self) -> Seq<(String, JsonValue)> {
        self.map.spec_entries()
    }

    /// An empty metadata document.
    pub fn new() -> (r: ItemMetadata)
        ensures
            r@ == Map::<Seq<char>, JsonValueView>::empty(),
    {
        ItemMetadata { map: StrMap::new() }
    }

    /// Starts building metadata with convenient typed helpers.
    pub fn builder() -> (r: ItemMetadataBuilder)
        ensures
            r@ == Map::<Seq<char>, JsonValueView>::empty(),
    {
        ItemMetadataBuilder { inner: StrMap::new() }
    }

    /// Builds metadata from key and value pairs; a later pair replaces an
    /// earlier one with the same key.
    pub fn from_entries(entries: Vec<(String, JsonValue)>) -> (r: ItemMetadata)
        ensures
            r@ == pairs_map(entries@),
    {
        let mut map: StrMap<JsonValue> = StrMap::new();
        let n = entries.len();
        let mut rest = entries;
        let ghost all = rest@;
        let mut i: usize = 0;
        while i < n
            invariant
                n == all.len(),
                i <= n,
                rest@ == all.skip(i as int),
                map.well_formed(),
                map@ == pairs_map(all.take(i as int)),
            decreases n - i,
        {
            let (k, v) = rest.remove(0);
            assert(all.take(i + 1) =~= all.take(i as int).push(all[i as int]));
            assert(all.take(i + 1).drop_last() =~= all.take(i as int));
            map.insert(k, v);
            assert(rest@ =~= all.skip(i + 1));
            i = i + 1;
        }
        assert(all.take(n as int) =~= all);
        ItemMetadata { map }
    }

    /// Returns the value of a metadata key.
    pub fn get(&self, key: &str) -> (r: Option<&JsonValue>)
        ensures
            match r {
                Some(v) => self@.contains_key(key@) && self@[key@] == v@,
                None => !self@.contains_key(key@),
            },
    {
        proof {
            use_type_invariant(self);
        }
        self.map.get(key)
    }

    /// Returns a metadata field as text.
    pub fn get_text(&self, key: &str) -> (r: Option<&str>)
        ensures
            match r {
                Some(s) => self@.contains_key(key@) && value_text(self@[key@]) == Some(s@),
                None => !self@.contains_key(key@) || value_text(self@[key@]) is None,
            },
    {
        match self.get(key) {
            Some(v) => v.as_str(),
            None => None,
        }
    }

    /// Returns a metadata field as one or many text values.
    pub fn get_texts(&self, key: &str) -> (r: Option<Vec<String>>)
        ensures
            match r {
                Some(v) => self@.contains_key(key@) && value_texts(self@[key@]) == Some(
                    strings_view(v@),
                ),
                None => !self@.contains_key(key@) || value_texts(self@[key@]) is None,
            },
    {
        match self.get(key) {
            Some(v) => v.texts(),
            None => None,
        }
    }

    /// Returns the configured title, when present.
    pub fn title(&self) -> (r: Option<&str>)
        ensures
            match r {
                Some(s) => self@.contains_key("title"@) && value_text(self@["title"@]) == Some(
                    s@,
                ),
                None => !self@.contains_key("title"@) || value_text(self@["title"@]) is None,
            },
    {
        self.get_text("title")
    }

    /// Returns the configured mediatype, when present as text.
    pub fn mediatype(&self) -> (r: Option<MediaType>)
        ensures
            match r {
                Some(m) => self@.contains_key("mediatype"@) && value_text(self@["mediatype"@])
                    is Some && m@ == media_type_from_name(value_text(self@["mediatype"@])->0),
                None => !self@.contains_key("mediatype"@) || value_text(self@["mediatype"@])
                    is None,
            },
    {
        match self.get_text("mediatype") {
            Some(name) => Some(MediaType::from_name(name)),
            None => None,
        }
    }

    /// Returns the configured collections, when present.
    pub fn collections(&self) -> (r: Option<Vec<String>>)
        ensures
            match r {
                Some(v) => self@.contains_key("collection"@) && value_texts(
                    self@["collection"@],
                ) == Some(strings_view(v@)),
                None => !self@.contains_key("collection"@) || value_texts(self@["collection"@])
                    is None,
            },
    {
        self.get_texts("collection")
    }

    /// Returns the entries in key order.
    pub fn as_map(&self) -> (r: &Vec<(String, JsonValue)>)
        ensures
            r@ == self.spec_entries(),
            entries_map(r@) == self@,
            crate::strmap::sorted_keys(r@),
    {
        proof {
            use_type_invariant(self);
        }
        self.map.entries()
    }

    /// Converts metadata into its entries, in key order.
    pub fn into_map(self) -> (r: Vec<(String, JsonValue)>)
        ensures
            r@ == self.spec_entries(),
            entries_map(r@) == self@,
            crate::strmap::sorted_keys(r@),
    {
        proof {
            use_type_invariant(&self);
        }
        self.map.into_entries()
    }

    /// Whether a key is present.
    pub fn contains_key(&self, key: &str) -> (r: bool)
        ensures
            r == self@.contains_key(key@),
    {
        self.get(key).is_some()
    }

    /// Sets a key to a value, replacing any earlier value.
    pub fn insert(&mut self, key: String, value: JsonValue)
        ensures
            final(self)@ == old(self)@.insert(key@, value@),
    {
        proof {
            use_type_invariant(&*self);
        }
        let mut map = StrMap::new();
        std::mem::swap(&mut map, &mut self.map);
        map.insert(key, value);
        self.map = map;
    }

    /// Overlays another document on this one: every key of `overlay` takes
    /// its value from `overlay`; every other key keeps its value.
    pub fn overlay(&mut self, overlay: &ItemMetadata)
        ensures
            final(self)@ == old(self)@.union_prefer_right(overlay@),
    {
        let entries = overlay.as_map();
        let n = entries.len();
        let ghost start = self@;
        let mut i: usize = 0;
        while i < n
            invariant
                n == entries@.len(),
                entries@ == overlay.spec_entries(),
                entries_map(entries@) == overlay@,
                crate::strmap::sorted_keys(entries@),
                i <= n,
                self@ == start.union_prefer_right(entries_map(entries@.take(i as int))),
            decreases n - i,
        {
            let (k, v) = &entries[i];
            self.insert(k.clone(), v.copy());
            proof {
                lemma_take_push_map(entries@, i as int);
                assert(self@ =~= start.union_prefer_right(entries_map(entries@.take(i + 1))));
            }
            i = i + 1;
        }
        assert(entries@.take(n as int) =~= entries@);
    }

    /// Splits the metadata into the S3 headers that can carry it and the
    /// remainder that cannot.
    ///
    /// A string value becomes one header. An array of strings becomes one
    /// header when it has a single element and one numbered header per
    /// element when it has several; an empty one adds nothing. Every other
    /// value stays in the remainder.
    pub fn as_header_encoding(&self) -> (r: HeaderEncoding)
        ensures
            pairs_view(r.headers@) == headers_of(self.spec_entries()),
            r.remainder@ == header_remainder(self@),
    {
        proof {
            use_type_invariant(self);
        }
        let entries = self.map.entries();
        let n = entries.len();
        let mut headers: Vec<(String, String)> = Vec::new();
        let mut remainder: StrMap<JsonValue> = StrMap::new();
        let mut i: usize = 0;
        while i < n
            invariant
                n == entries@.len(),
                entries@ == self.spec_entries(),
                crate::strmap::sorted_keys(entries@),
                i <= n,
                remainder.well_formed(),
                pairs_view(headers@) == headers_of(entries@.take(i as int)),
                remainder@ == partial_remainder(entries@, i as int),
            decreases n - i,
        {
            let (key, value) = &entries[i];
            assert(entries@.take(i + 1).drop_last() =~= entries@.take(i as int));
            assert(entries@.take(i + 1).last() == entries@[i as int]);
            match value_headers(key.as_str(), value) {
                Some(h) => {
                    let ghost before = headers@;
                    let mut h = h;
                    headers.append(&mut h);
                    assert(pairs_view(headers@) =~= pairs_view(before) + entry_headers(
                        key@,
                        value@,
                    )->0);
                    proof {
                        lemma_partial_remainder_step(entries@, i as int);
                        assert(remainder@ =~= partial_remainder(entries@, i + 1));
                    }
                },
                None => {
                    let ghost before = remainder@;
                    remainder.insert(key.clone(), value.copy());
                    proof {
                        lemma_partial_remainder_step(entries@, i as int);
                        assert(remainder@ =~= partial_remainder(entries@, i + 1));
                    }
                },
            }
            i = i + 1;
        }
        assert(entries@.take(n as int) =~= entries@);
        proof {
            lemma_partial_remainder_full(entries@);
        }
        HeaderEncoding { headers, remainder: ItemMetadata { map: remainder } }
    }
}

/// The map of key and value pairs where a later pair replaces an earlier one.
pub open spec fn pairs_map(s: Seq<(String, JsonValue)>) -> Map<Seq<char>, JsonValueView>
    decreases s.len(),
{
    if s.len() == 0 {
        Map::empty()
    } else {
        pairs_map(s.drop_last()).insert(s.last().0@, s.last().1@)
    }
}

/// The remainder of the first `i` entries.
pub open spec fn partial_remainder(s: Seq<(String, JsonValue)>, i: int) -> Map<
    Seq<char>,
    JsonValueView,
> {
    Map::new(
        |k: Seq<char>|
            (exists|j: int| 0 <= j < i && #[trigger] s[j].0@ == k) && entry_headers(
                k,
                entries_map(s)[k],
            ) is None,
        |k: Seq<char>| entries_map(s)[k],
    )
}

proof fn lemma_partial_remainder_step(s: Seq<(String, JsonValue)>, i: int)
    requires
        crate::strmap::sorted_keys(s),
        0 <= i < s.len(),
    ensures
        partial_remainder(s, i + 1) == (if entry_headers(s[i].0@, s[i].1@) is None {
            partial_remainder(s, i).insert(s[i].0@, s[i].1@)
        } else {
            partial_remainder(s, i)
        }),
{
    lemma_entries_map_at(s, i);
    let k = s[i].0@;
    let lhs = partial_remainder(s, i + 1);
    let rhs = if entry_headers(s[i].0@, s[i].1@) is None {
        partial_remainder(s, i).insert(s[i].0@, s[i].1@)
    } else {
        partial_remainder(s, i)
    };
    assert forall|key: Seq<char>| #[trigger] lhs.contains_key(key) <==> rhs.contains_key(key) by {
        if key == k {
            if entry_headers(k, s[i].1@) is None {
                assert(s[i].0@ == key);
            } else {
                if exists|j: int| 0 <= j < i && #[trigger] s[j].0@ == key {
                    let j = choose|j: int| 0 <= j < i && #[trigger] s[j].0@ == key;
                    crate::strmap::lemma_sorted_unique(s, i, j);
                }
            }
        } else {
            if exists|j: int| 0 <= j < i + 1 && #[trigger] s[j].0@ == key {
                let j = choose|j: int| 0 <= j < i + 1 && #[trigger] s[j].0@ == key;
                assert(j != i);
            }
        }
    }
    assert(lhs =~= rhs);
}

proof fn lemma_partial_remainder_full(s: Seq<(String, JsonValue)>)
    requires
        crate::strmap::sorted_keys(s),
    ensures
        partial_remainder(s, s.len() as int) == header_remainder(entries_map(s)),
{
    assert(partial_remainder(s, s.len() as int) =~= header_remainder(entries_map(s)));
}

proof fn lemma_take_push_map(s: Seq<(String, JsonValue)>, i: int)
    requires
        crate::strmap::sorted_keys(s),
        0 <= i < s.len(),
    ensures
        entries_map(s.take(i + 1)) == entries_map(s.take(i)).insert(s[i].0@, s[i].1@),
{
    let a = s.take(i);
    let b = s.take(i + 1);
    assert(crate::strmap::sorted_keys(a));
    assert(crate::strmap::sorted_keys(b));
    lemma_entries_map_at(b, i);
    assert forall|key: Seq<char>| #[trigger] entries_map(b).contains_key(key) <==> entries_map(
        a,
    ).insert(s[i].0@, s[i].1@).contains_key(key) by {
        if has_key(b, key) && key != s[i].0@ {
            let j = crate::strmap::key_index(b, key);
            assert(a[j].0@ == key);
        }
        if has_key(a, key) {
            let j = crate::strmap::key_index(a, key);
            assert(b[j].0@ == key);
        }
    }
    assert forall|key: Seq<char>| #[trigger] entries_map(b).contains_key(key) && key != s[i].0@
        implies entries_map(b)[key] == entries_map(a)[key] by {
        let j = crate::strmap::key_index(b, key);
        assert(a[j] == b[j]);
        lemma_entries_map_at(a, j);
        lemma_entries_map_at(b, j);
    }
    assert(entries_map(b) =~= entries_map(a).insert(s[i].0@, s[i].1@));
}

/// The headers that carry one entry, or `None` when it stays in the remainder.
fn value_headers(key: &str, value: &JsonValue) -> (r: Option<Vec<(String, String)>>)
    ensures
        match r {
            Some(h) => entry_headers(key@, value@) == Some(pairs_view(h@)),
            None => entry_headers(key@, value@) is None,
        },
{
    match value {
        JsonValue::Text(text) => {
            let mut h: Vec<(String, String)> = Vec::new();
            h.push((header_name(key, None), header_value(text.as_str())));
            assert(pairs_view(h@) =~= entry_headers(key@, value@)->0);
            Some(h)
        },
        JsonValue::Array(items) => match string_items(items) {
            None => None,
            Some(strings) => {
                let mut h: Vec<(String, String)> = Vec::new();
                let count = strings.len();
                let ghost texts = texts_of(items_view(items@));
                assert(strings_view(strings@) == texts);
                if count <= 1 {
                    if count == 1 {
                        h.push((header_name(key, None), header_value(strings[0].as_str())));
                    }
                    assert(pairs_view(h@) =~= entry_headers(key@, value@)->0);
                } else {
                    let mut index: usize = 0;
                    while index < count
                        invariant
                            count == strings@.len() == texts.len(),
                            count > 1,
                            strings_view(strings@) == texts,
                            index <= count,
                            pairs_view(h@) =~= Seq::new(
                                index as nat,
                                |i: int|
                                    (
                                        header_name_spec(key@, Some((i + 1) as nat)),
                                        header_value_spec(texts[i]),
                                    ),
                            ),
                        decreases count - index,
                    {
                        assert(strings@[index as int]@ == texts[index as int]);
                        let ghost before = h@;
                        let name = header_name(key, Some(index + 1));
                        let hv = header_value(strings[index].as_str());
                        h.push((name, hv));
                        assert(pairs_view(h@) =~= pairs_view(before).push((name@, hv@)));
                        assert(Seq::new(
                            (index + 1) as nat,
                            |i: int|
                                (
                                    header_name_spec(key@, Some((i + 1) as nat)),
                                    header_value_spec(texts[i]),
                                ),
                        ) =~= Seq::new(
                            index as nat,
                            |i: int|
                                (
                                    header_name_spec(key@, Some((i + 1) as nat)),
                                    header_value_spec(texts[i]),
                                ),
                        ).push((name@, hv@)));
                        index = index + 1;
                    }
                    assert(pairs_view(h@) =~= entry_headers(key@, value@)->0);
                }
                Some(h)
            },
        },
        JsonValue::Raw(_) => None,
    }
}

/// Name of the S3 header for a metadata key.
pub fn header_name(key: &str, position: Option<usize>) -> (r: String)
    requires
        position matches Some(p) ==> p <= u64::MAX,
    ensures
        r@ == header_name_spec(
            key@,
            match position {
                Some(p) => Some(p as nat),
                None => None,
            },
        ),
{
    let normalized = escape_key(key);
    let mut out: Vec<char> = match position {
        Some(p) => {
            let mut out = chars_of("x-archive-meta");
            let digits = chars_of(u64_to_decimal(p as u64).as_str());
            if p < 10 {
                out.push('0');
            }
            let ghost head = out@;
            append_chars(&mut out, &digits);
            proof {
                lemma_zero_padded_two(p as nat);
                if p < 10 {
                    assert(out@ =~= "x-archive-meta"@ + zero_padded(p as nat, 2));
                } else {
                    assert(out@ =~= "x-archive-meta"@ + zero_padded(p as nat, 2));
                }
            }
            let dash = chars_of("-");
            append_chars(&mut out, &dash);
            out
        },
        None => chars_of("x-archive-meta-"),
    };
    append_chars(&mut out, &normalized);
    string_from_chars(&out)
}

proof fn lemma_zero_padded_two(n: nat)
    ensures
        zero_padded(n, 2) == (if n < 10 {
            seq!['0'] + decimal(n)
        } else {
            decimal(n)
        }),
{
    lemma_decimal_len(n);
    if n < 10 {
        assert(zero_padded(n, 1) == decimal(n));
    }
}

proof fn lemma_decimal_len(n: nat)
    ensures
        decimal(n).len() >= 1,
        decimal(n).len() == 1 <==> n < 10,
    decreases n,
{
    if n >= 10 {
        lemma_decimal_len(n / 10);
    }
}

/// Appends characters to a vector.
fn append_chars(out: &mut Vec<char>, more: &Vec<char>)
    ensures
        final(out)@ == old(out)@ + more@,
{
    let n = more.len();
    let mut i: usize = 0;
    let ghost start = out@;
    while i < n
        invariant
            n == more@.len(),
            i <= n,
            out@ == start + more@.take(i as int),
        decreases n - i,
    {
        out.push(more[i]);
        assert(more@.take(i + 1) =~= more@.take(i as int).push(more@[i as int]));
        assert(out@ =~= start + more@.take(i + 1));
        i = i + 1;
    }
    assert(more@.take(n as int) =~= more@);
}

/// A key with every `_` written as `--`.
fn escape_key(key: &str) -> (r: Vec<char>)
    ensures
        r@ == escape_underscores(key@),
{
    let chars = chars_of(key);
    let n = chars.len();
    let mut out: Vec<char> = Vec::new();
    let mut i: usize = 0;
    while i < n
        invariant
            n == chars@.len(),
            chars@ == key@,
            i <= n,
            out@ == escape_underscores(chars@.take(i as int)),
        decreases n - i,
    {
        let c = chars[i];
        assert(chars@.take(i + 1).drop_last() =~= chars@.take(i as int));
        assert(chars@.take(i + 1).last() == c);
        if c == '_' {
            out.push('-');
            out.push('-');
        } else {
            out.push(c);
        }
        assert(out@ =~= escape_underscores(chars@.take(i + 1)));
        i = i + 1;
    }
    assert(chars@.take(n as int) =~= chars@);
    out
}

/// Value of a metadata header.
pub fn header_value(value: &str) -> (r: String)
    ensures
        r@ == header_value_spec(value@),
{
    if value.is_ascii() {
        value.to_owned()
    } else {
        let mut out = chars_of("uri(");
        let encoded = chars_of(percent_encode_non_alphanumeric(value).as_str());
        append_chars(&mut out, &encoded);
        let close = chars_of(")");
        append_chars(&mut out, &close);
        string_from_chars(&out)
    }
}

/// Builder for [`ItemMetadata`].
pub struct ItemMetadataBuilder {
    inner: StrMap<JsonValue>,
}

impl View for ItemMetadataBuilder {
    type V = Map<Seq<char>, JsonValueView>;

    closed spec fn view(&self) -> Map<Seq<char>, JsonValueView> {
        self.inner@
    }
}

impl ItemMetadataBuilder {
    #[verifier::type_invariant]
    closed spec fn well_formed(self) -> bool {
        self.inner.well_formed()
    }

    fn set(self, key: String, value: JsonValue) -> (r: Self)
        ensures
            r@ == self@.insert(key@, value@),
    {
        proof {
            use_type_invariant(&self);
        }
        let ItemMetadataBuilder { inner } = self;
        let mut inner = inner;
        inner.insert(key, value);
        ItemMetadataBuilder { inner }
    }

    fn append(self, key: &str, value: String) -> (r: Self)
        ensures
            r@ == self@.insert(
                key@,
                appended_text(
                    if self@.contains_key(key@) {
                        Some(self@[key@])
                    } else {
                        None
                    },
                    value@,
                ),
            ),
    {
        proof {
            use_type_invariant(&self);
        }
        let ghost v = value@;
        let new_value = match self.inner.get(key) {
            Some(JsonValue::Array(items)) => {
                let mut items = copy_items(items);
                let ghost before = items@;
                items.push(JsonItem::Text(value));
                assert(items_view(items@) =~= items_view(before).push(JsonItemView::Text(v)));
                JsonValue::Array(items)
            },
            Some(existing) => {
                let previous = match existing {
                    JsonValue::Text(t) => JsonItem::Text(t.clone()),
                    _ => JsonItem::Raw(
                        match existing {
                            JsonValue::Raw(r) => r.clone(),
                            _ => String::new(),
                        },
                    ),
                };
                let mut items: Vec<JsonItem> = Vec::new();
                items.push(previous);
                items.push(JsonItem::Text(value));
                assert(items_view(items@) =~= seq![items@[0]@, JsonItemView::Text(v)]);
                JsonValue::Array(items)
            },
            None => JsonValue::Text(value),
        };
        self.set(key.to_owned(), new_value)
    }

    /// Sets the item mediatype.
    pub fn mediatype(self, mediatype: MediaType) -> (r: Self)
        ensures
            r@ == self@.insert("mediatype"@, JsonValueView::Text(media_type_name(mediatype@))),
    {
        let name = mediatype.as_str().to_owned();
        self.set("mediatype".to_owned(), JsonValue::Text(name))
    }

    /// Sets the item title.
    pub fn title(self, title: &str) -> (r: Self)
        ensures
            r@ == self@.insert("title"@, JsonValueView::Text(title@)),
    {
        self.set("title".to_owned(), JsonValue::Text(title.to_owned()))
    }

    /// Sets the item description.
    pub fn description_html(self, description: &str) -> (r: Self)
        ensures
            r@ == self@.insert("description"@, JsonValueView::Text(description@)),
    {
        self.set("description".to_owned(), JsonValue::Text(description.to_owned()))
    }

    /// Appends a collection membership.
    pub fn collection(self, collection: &str) -> (r: Self)
        ensures
            r@ == self@.insert(
                "collection"@,
                appended_text(
                    if self@.contains_key("collection"@) {
                        Some(self@["collection"@])
                    } else {
                        None
                    },
                    collection@,
                ),
            ),
    {
        self.append("collection", collection.to_owned())
    }

    /// Appends a creator value.
    pub fn creator(self, creator: &str) -> (r: Self)
        ensures
            r@ == self@.insert(
                "creator"@,
                appended_text(
                    if self@.contains_key("creator"@) {
                        Some(self@["creator"@])
                    } else {
                        None
                    },
                    creator@,
                ),
            ),
    {
        self.append("creator", creator.to_owned())
    }

    /// Appends a subject value.
    pub fn subject(self, subject: &str) -> (r: Self)
        ensures
            r@ == self@.insert(
                "subject"@,
                appended_text(
                    if self@.contains_key("subject"@) {
                        Some(self@["subject"@])
                    } else {
                        None
                    },
                    subject@,
                ),
            ),
    {
        self.append("subject", subject.to_owned())
    }

    /// Appends a language value.
    pub fn language(self, language: &str) -> (r: Self)
        ensures
            r@ == self@.insert(
                "language"@,
                appended_text(
                    if self@.contains_key("language"@) {
                        Some(self@["language"@])
                    } else {
                        None
                    },
                    language@,
                ),
            ),
    {
        self.append("language", language.to_owned())
    }

    /// Sets the metadata license URL.
    pub fn license_url(self, license_url: &str) -> (r: Self)
        ensures
            r@ == self@.insert("licenseurl"@, JsonValueView::Text(license_url@)),
    {
        self.set("licenseurl".to_owned(), JsonValue::Text(license_url.to_owned()))
    }

    /// Sets any extra metadata key to a string value.
    pub fn extra_text(self, key: &str, value: &str) -> (r: Self)
        ensures
            r@ == self@.insert(key@, JsonValueView::Text(value@)),
    {
        self.set(key.to_owned(), JsonValue::Text(value.to_owned()))
    }

    /// Sets any extra metadata key to a multi-value string list.
    pub fn extra_texts(self, key: &str, values: Vec<String>) -> (r: Self)
        ensures
            r@ == self@.insert(
                key@,
                JsonValueView::Array(
                    strings_view(values@).map_values(|s: Seq<char>| JsonItemView::Text(s)),
                ),
            ),
    {
        let items = text_items(values);
        self.set(key.to_owned(), JsonValue::Array(items))
    }

    /// Sets any extra metadata key to an arbitrary JSON value.
    pub fn extra_json(self, key: &str, value: JsonValue) -> (r: Self)
        ensures
            r@ == self@.insert(key@, value@),
    {
        self.set(key.to_owned(), value)
    }

    /// Builds the metadata value.
    pub fn build(self) -> (r: ItemMetadata)
        ensures
            r@ == self@,
    {
        proof {
            use_type_invariant(&self);
        }
        ItemMetadata { map: self.inner }
    }
}

/// Abstract form of [`MetadataTarget`].
pub enum MetadataTargetView {
    Metadata,
    File(Seq<char>),
    UserJson(Seq<char>),
    RootUserJson,
}

/// Metadata write target for the MDAPI write endpoint.
#[derive(Clone, Debug, PartialEq, Eq)]
pub enum MetadataTarget {
    /// Update the item-level `metadata` object.
    Metadata,
    /// Update metadata for a specific file entry.
    File(String),
    /// Update a named user JSON document.
    UserJson(String),
    /// Update the unnamed root user JSON document.
    RootUserJson,
}

impl View for MetadataTarget {
    type V = MetadataTargetView;

    open spec fn view(&self) -> MetadataTargetView {
        match self {
            MetadataTarget::Metadata => MetadataTargetView::Metadata,
            MetadataTarget::File(s) => MetadataTargetView::File(s@),
            MetadataTarget::UserJson(s) => MetadataTargetView::UserJson(s@),
            MetadataTarget::RootUserJson => MetadataTargetView::RootUserJson,
        }
    }
}

/// The `-target` text that names a write target.
pub open spec fn target_text(t: MetadataTargetView) -> Seq<char> {
    match t {
        MetadataTargetView::Metadata => "metadata"@,
        MetadataTargetView::File(name) => "files/"@ + name,
        MetadataTargetView::UserJson(name) => name,
        MetadataTargetView::RootUserJson => Seq::empty(),
    }
}

impl MetadataTarget {
    /// The `-target` text that names this write target.
    pub fn as_str(&self) -> (r: String)
        ensures
            r@ == target_text(self@),
    {
        match self {
            MetadataTarget::Metadata => "metadata".to_owned(),
            MetadataTarget::File(name) => {
                let mut out = chars_of("files/");
                let name_chars = chars_of(name.as_str());
                append_chars(&mut out, &name_chars);
                string_from_chars(&out)
            },
            MetadataTarget::UserJson(name) => name.clone(),
            MetadataTarget::RootUserJson => String::new(),
        }
    }
}

/// One patch operation accepted by MDAPI.
#[derive(Clone, Debug, PartialEq, Eq)]
pub enum PatchOperation {
    /// Adds a new value at a path.
    Add {
        /// JSON Pointer path to modify.
        path: String,
        /// JSON value to insert.
        value: JsonValue,
    },
    /// Removes a value at a path.
    Remove {
        /// JSON Pointer path to modify.
        path: String,
    },
    /// Replaces a value at a path.
    Replace {
        /// JSON Pointer path to modify.
        path: String,
        /// Replacement JSON value.
        value: JsonValue,
    },
    /// Asserts the current value at a path.
    Test {
        /// JSON Pointer path to compare.
        path: String,
        /// Expected JSON value.
        value: JsonValue,
    },
    /// Internet Archive extension: removes the first matching value.
    RemoveFirst {
        /// JSON Pointer path to the target array, ending in `/-`.
        path: String,
        /// JSON value to match and remove.
        value: JsonValue,
    },
    /// Internet Archive extension: removes all matching values.
    RemoveAll {
        /// JSON Pointer path to the target array or object, ending in `/-`.
        path: String,
        /// JSON value to match and remove.
        value: JsonValue,
    },
}

/// Abstract form of [`PatchOperation`].
pub enum PatchOperationView {
    Add { path: Seq<char>, value: JsonValueView },
    Remove { path: Seq<char> },
    Replace { path: Seq<char>, value: JsonValueView },
    Test { path: Seq<char>, value: JsonValueView },
    RemoveFirst { path: Seq<char>, value: JsonValueView },
    RemoveAll { path: Seq<char>, value: JsonValueView },
}

impl View for PatchOperation {
    type V = PatchOperationView;

    open spec fn view(&self) -> PatchOperationView {
        match self {
            PatchOperation::Add { path, value } => PatchOperationView::Add {
                path: path@,
                value: value@,
            },
            PatchOperation::Remove { path } => PatchOperationView::Remove { path: path@ },
            PatchOperation::Replace { path, value } => PatchOperationView::Replace {
                path: path@,
                value: value@,
            },
            PatchOperation::Test { path, value } => PatchOperationView::Test {
                path: path@,
                value: value@,
            },
            PatchOperation::RemoveFirst { path, value } => PatchOperationView::RemoveFirst {
                path: path@,
                value: value@,
            },
            PatchOperation::RemoveAll { path, value } => PatchOperationView::RemoveAll {
                path: path@,
                value: value@,
            },
        }
    }
}

/// Views of a patch document.
pub open spec fn patch_view(ops: Seq<PatchOperation>) -> Seq<PatchOperationView> {
    ops.map_values(|op: PatchOperation| op@)
}

impl PatchOperation {
    /// Creates a `test` operation.
    pub fn test(path: &str, value: JsonValue) -> (r: Self)
        ensures
            r matches PatchOperation::Test { path: p, value: v } && p@ == path@ && v == value,
    {
        PatchOperation::Test { path: path.to_owned(), value }
    }

    /// Creates a `replace` operation.
    pub fn replace(path: &str, value: JsonValue) -> (r: Self)
        ensures
            r matches PatchOperation::Replace { path: p, value: v } && p@ == path@ && v == value,
    {
        PatchOperation::Replace { path: path.to_owned(), value }
    }

    /// Creates an `add` operation.
    pub fn add(path: &str, value: JsonValue) -> (r: Self)
        ensures
            r matches PatchOperation::Add { path: p, value: v } && p@ == path@ && v == value,
    {
        PatchOperation::Add { path: path.to_owned(), value }
    }
}

/// Multi-target metadata write entry.
#[derive(Clone, Debug, PartialEq, Eq)]
pub struct MetadataChange {
    /// The target being updated.
    pub target: String,
    /// The patch document to apply.
    pub patch: Vec<PatchOperation>,
}

impl MetadataChange {
    /// Creates a new metadata change.
    pub fn new(target: &MetadataTarget, patch: Vec<PatchOperation>) -> (r: Self)
        ensures
            r.target@ == target_text(target@),
            r.patch == patch,
    {
        MetadataChange { target: target.as_str(), patch }
    }
}

/// Whether `current` already holds every key of `desired` with the same value.
pub open spec fn contains_projection(
    current: Map<Seq<char>, JsonValueView>,
    desired: Map<Seq<char>, JsonValueView>,
) -> bool {
    forall|k: Seq<char>|
        #[trigger] desired.contains_key(k) ==> current.contains_key(k) && current[k] == desired[k]
}

/// Whether the `current` metadata of an item already shows every key of the
/// `desired` document with the same value, so that no write is needed.
pub fn metadata_contains_projection(current: &ItemMetadata, desired: &ItemMetadata) -> (r: bool)
    ensures
        r == contains_projection(current@, desired@),
{
    let entries = desired.as_map();
    let n = entries.len();
    let mut i: usize = 0;
    while i < n
        invariant
            n == entries@.len(),
            entries_map(entries@) == desired@,
            crate::strmap::sorted_keys(entries@),
            i <= n,
            forall|j: int|
                0 <= j < i ==> current@.contains_key(#[trigger] entries@[j].0@) && current@[entries@[
                    j
                ].0@] == entries@[j].1@,
        decreases n - i,
    {
        let (k, v) = &entries[i];
        proof {
            crate::strmap::lemma_entries_map_at(entries@, i as int);
        }
        match current.get(k.as_str()) {
            Some(cv) => {
                if !cv.same_as(v) {
                    return false;
                }
            },
            None => {
                return false;
            },
        }
        i = i + 1;
    }
    assert forall|k: Seq<char>| #[trigger] desired@.contains_key(k) implies current@.contains_key(
        k,
    ) && current@[k] == desired@[k] by {
        let j = crate::strmap::key_index(entries@, k);
        assert(entries@[j].0@ == k);
    }
    true
}

/// The texts a key holds: none for a missing key, else its text values.
pub open spec fn held_texts(existing: Option<JsonValueView>) -> Option<Seq<Seq<char>>> {
    match existing {
        None => Some(Seq::empty()),
        Some(v) => value_texts(v),
    }
}

/// Appending a text value to a key that holds text values keeps them and
/// adds the new one last: repeated values of a key accumulate in order.
pub proof fn lemma_appended_texts_accumulate(existing: Option<JsonValueView>, value: Seq<char>)
    requires
        held_texts(existing) is Some,
    ensures
        value_texts(appended_text(existing, value)) == Some(
            held_texts(existing)->0.push(value),
        ),
{
    let r = appended_text(existing, value);
    match existing {
        None => {
            assert(seq![value] =~= Seq::<Seq<char>>::empty().push(value));
        },
        Some(JsonValueView::Text(t)) => {
            let items = seq![JsonItemView::Text(t), JsonItemView::Text(value)];
            assert(all_text(items));
            assert(texts_of(items) =~= seq![t].push(value));
        },
        Some(JsonValueView::Array(items)) => {
            let w = items.push(JsonItemView::Text(value));
            assert(all_text(w)) by {
                assert forall|i: int| 0 <= i < w.len() implies #[trigger] w[i] is Text by {
                    if i < items.len() {
                        assert(w[i] == items[i]);
                    }
                }
            }
            assert(texts_of(w) =~= texts_of(items).push(value));
        },
        Some(JsonValueView::Raw(_)) => {},
    }
}

/// Header names never hold `_`: every underscore of a key is written `--`.
pub proof fn lemma_escaped_key_has_no_underscore(key: Seq<char>)
    ensures
        forall|i: int|
            0 <= i < escape_underscores(key).len() ==> #[trigger] escape_underscores(key)[i]
                != '_',
    decreases key.len(),
{
    if key.len() > 0 {
        lemma_escaped_key_has_no_underscore(key.drop_last());
        let prev = escape_underscores(key.drop_last());
        let tail = if key.last() == '_' {
            seq!['-', '-']
        } else {
            seq![key.last()]
        };
        assert forall|i: int| 0 <= i < escape_underscores(key).len() implies #[trigger] escape_underscores(
            key,
        )[i] != '_' by {
            if i < prev.len() {
                assert(escape_underscores(key)[i] == prev[i]);
            } else {
                assert(escape_underscores(key)[i] == tail[i - prev.len()]);
            }
        }
    }
}

/// Splitting metadata for S3 headers loses nothing: a key stays in the
/// remainder, with its value, exactly when its value cannot travel in
/// headers, and the remainder holds no other key.
pub proof fn lemma_header_split_partitions(m: Map<Seq<char>, JsonValueView>, k: Seq<char>)
    ensures
        header_remainder(m).contains_key(k) <==> (m.contains_key(k) && entry_headers(k, m[k])
            is None),
        header_remainder(m).contains_key(k) ==> header_remainder(m)[k] == m[k],
        m.contains_key(k) && entry_headers(k, m[k]) is None ==> header_remainder(m).contains_key(k),
{
}

/// Overlaying a document changes exactly the keys it holds: those take its
/// values, and every other key keeps its value.
pub proof fn lemma_overlay_keeps_other_keys(
    base: Map<Seq<char>, JsonValueView>,
    overlay: Map<Seq<char>, JsonValueView>,
    k: Seq<char>,
)
    ensures
        overlay.contains_key(k) ==> base.union_prefer_right(overlay).contains_key(k)
            && base.union_prefer_right(overlay)[k] == overlay[k],
        !overlay.contains_key(k) ==> (base.union_prefer_right(overlay).contains_key(k)
            == base.contains_key(k)) && (base.contains_key(k) ==> base.union_prefer_right(
            overlay,
        )[k] == base[k]),
        contains_projection(base.union_prefer_right(overlay), overlay),
{
}

/// Setting a key and reading it back gives the value set; every other key
/// reads as it did before.
pub proof fn lemma_read_after_insert(
    m: Map<Seq<char>, JsonValueView>,
    k: Seq<char>,
    v: JsonValueView,
    other: Seq<char>,
)
    requires
        other != k,
    ensures
        m.insert(k, v).contains_key(k),
        m.insert(k, v)[k] == v,
        m.insert(k, v).contains_key(other) == m.contains_key(other),
        m.contains_key(other) ==> m.insert(k, v)[other] == m[other],
{
}

impl Clone for ItemMetadata {
    fn clone(&self) -> (r: Self)
        ensures
            r@ == self@,
    {
        let mut r = ItemMetadata::new();
        r.overlay(self);
        assert(r@ =~= self@);
        r
    }
}

/// Whether an update keeps a stored list: the stored value is an array of
/// texts that already holds every text of the requested value.
pub open spec fn keeps_stored_list(stored: JsonValueView, requested: JsonValueView) -> bool {
    &&& stored is Array
    &&& value_texts(stored) is Some
    &&& value_texts(requested) is Some
    &&& forall|i: int|
        0 <= i < value_texts(requested)->0.len() ==> value_texts(stored)->0.contains(
            #[trigger] value_texts(requested)->0[i],
        )
}

/// The value a key takes in an update: the stored list when it already
/// holds every requested text, the requested value otherwise.
pub open spec fn merged_value(stored: JsonValueView, requested: JsonValueView) -> JsonValueView {
    if keeps_stored_list(stored, requested) {
        stored
    } else {
        requested
    }
}

/// The document an update asks for: every key of `current`, with each key
/// of `requested` set to its merged value.
pub open spec fn update_merge(
    current: Map<Seq<char>, JsonValueView>,
    requested: Map<Seq<char>, JsonValueView>,
) -> Map<Seq<char>, JsonValueView> {
    Map::new(
        |k: Seq<char>| current.contains_key(k) || requested.contains_key(k),
        |k: Seq<char>|
            if requested.contains_key(k) {
                if current.contains_key(k) {
                    merged_value(current[k], requested[k])
                } else {
                    requested[k]
                }
            } else {
                current[k]
            },
    )
}

/// Whether `hay` holds the text `needle`.
fn holds_text(hay: &Vec<String>, needle: &str) -> (r: bool)
    ensures
        r == strings_view(hay@).contains(needle@),
{
    let n = hay.len();
    let mut i: usize = 0;
    while i < n
        invariant
            n == hay@.len(),
            i <= n,
            forall|j: int| 0 <= j < i ==> #[trigger] hay@[j]@ != needle@,
        decreases n - i,
    {
        if str_eq(hay[i].as_str(), needle) {
            assert(strings_view(hay@)[i as int] == needle@);
            return true;
        }
        i = i + 1;
    }
    assert forall|j: int| 0 <= j < strings_view(hay@).len() implies #[trigger] strings_view(
        hay@,
    )[j] != needle@ by {
        assert(strings_view(hay@)[j] == hay@[j]@);
    }
    false
}

/// Whether every text of `needles` is held by `hay`.
fn holds_all_texts(hay: &Vec<String>, needles: &Vec<String>) -> (r: bool)
    ensures
        r == forall|i: int|
            0 <= i < strings_view(needles@).len() ==> strings_view(hay@).contains(
                #[trigger] strings_view(needles@)[i],
            ),
{
    let n = needles.len();
    let mut i: usize = 0;
    while i < n
        invariant
            n == needles@.len(),
            i <= n,
            forall|j: int|
                0 <= j < i ==> strings_view(hay@).contains(#[trigger] strings_view(needles@)[j]),
        decreases n - i,
    {
        if !holds_text(hay, needles[i].as_str()) {
            assert(strings_view(needles@)[i as int] == needles@[i as int]@);
            return false;
        }
        assert(strings_view(needles@)[i as int] == needles@[i as int]@);
        i = i + 1;
    }
    true
}

/// Exec form of [`keeps_stored_list`].
fn keeps_stored(stored: &JsonValue, requested: &JsonValue) -> (r: bool)
    ensures
        r == keeps_stored_list(stored@, requested@),
{
    match stored {
        JsonValue::Array(_) => match (stored.texts(), requested.texts()) {
            (Some(have), Some(want)) => {
                let r = holds_all_texts(&have, &want);
                proof {
                    let sv = value_texts(stored@)->0;
                    let rv = value_texts(requested@)->0;
                    assert(sv == strings_view(have@));
                    assert(rv == strings_view(want@));
                    if r {
                        assert forall|i: int| 0 <= i < rv.len() implies sv.contains(
                            #[trigger] rv[i],
                        ) by {
                            assert(strings_view(have@).contains(strings_view(want@)[i]));
                        }
                    }
                }
                r
            },
            _ => false,
        },
        _ => false,
    }
}

impl ItemMetadata {
    /// Merges the keys of `requested` into this document for an update:
    /// each key takes the requested value, except that a stored list of
    /// texts that already holds every requested text is kept as it is;
    /// every other key keeps its value.
    pub fn merge_for_update(&mut self, requested: &ItemMetadata)
        ensures
            final(self)@ == update_merge(old(self)@, requested@),
    {
        let entries = requested.as_map();
        let n = entries.len();
        let ghost start = self@;
        let mut i: usize = 0;
        assert(entries_map(entries@.take(0)) =~= Map::<Seq<char>, JsonValueView>::empty());
        assert(self@ =~= update_merge(start, entries_map(entries@.take(0))));
        while i < n
            invariant
                n == entries@.len(),
                entries_map(entries@) == requested@,
                crate::strmap::sorted_keys(entries@),
                i <= n,
                self@ == update_merge(start, entries_map(entries@.take(i as int))),
            decreases n - i,
        {
            let (k, v) = &entries[i];
            let ghost e = entries_map(entries@.take(i as int));
            proof {
                lemma_take_push_map(entries@, i as int);
                if e.contains_key(k@) {
                    let j = crate::strmap::key_index(entries@.take(i as int), k@);
                    assert(entries@.take(i as int)[j] == entries@[j]);
                    crate::strmap::lemma_lt_irreflexive(k@);
                }
            }
            let keep = match self.get(k.as_str()) {
                Some(stored) => keeps_stored(stored, v),
                None => false,
            };
            if !keep {
                self.insert(k.clone(), v.copy());
            }
            proof {
                assert(self@ =~= update_merge(start, e.insert(k@, v@)));
            }
            i = i + 1;
        }
        assert(entries@.take(n as int) =~= entries@);
    }
}

/// An update never loses a requested text: after merging, a requested key
/// whose value is a text or a list of texts holds every one of those texts.
/// Its merged value is either the requested value or the stored one: the
/// stored one exactly when it is a list of texts holding every requested
/// text, the requested one when the stored value misses any requested text,
/// is not a list of texts, or the request is not texts at all.
pub proof fn lemma_update_merge_holds_requested_texts(
    current: Map<Seq<char>, JsonValueView>,
    requested: Map<Seq<char>, JsonValueView>,
    k: Seq<char>,
)
    requires
        requested.contains_key(k),
    ensures
        update_merge(current, requested).contains_key(k),
        update_merge(current, requested)[k] == requested[k] || (current.contains_key(k)
            && update_merge(current, requested)[k] == current[k]),
        value_texts(requested[k]) is None ==> update_merge(current, requested)[k] == requested[k],
        value_texts(requested[k]) is Some ==> value_texts(update_merge(current, requested)[k]) is Some,
        value_texts(requested[k]) is Some ==> forall|i: int|
            0 <= i < value_texts(requested[k])->0.len() ==> value_texts(
                update_merge(current, requested)[k],
            )->0.contains(#[trigger] value_texts(requested[k])->0[i]),
        current.contains_key(k) && value_texts(requested[k]) is Some && (value_texts(current[k]) is None
            || exists|i: int|
            0 <= i < value_texts(requested[k])->0.len() && !value_texts(current[k])->0.contains(
                #[trigger] value_texts(requested[k])->0[i],
            )) ==> update_merge(current, requested)[k] == requested[k],
        current.contains_key(k) && current[k] is Array && value_texts(current[k]) is Some
            && value_texts(requested[k]) is Some && (forall|i: int|
            0 <= i < value_texts(requested[k])->0.len() ==> value_texts(current[k])->0.contains(
                #[trigger] value_texts(requested[k])->0[i],
            )) ==> update_merge(current, requested)[k] == current[k],
{
    let m = update_merge(current, requested);
    let rv = value_texts(requested[k])->0;
    if m[k] == requested[k] && value_texts(requested[k]) is Some {
        assert forall|i: int| 0 <= i < rv.len() implies value_texts(m[k])->0.contains(
            #[trigger] rv[i],
        ) by {
            assert(value_texts(m[k])->0[i] == rv[i]);
        }
    }
}

/// An update changes only the keys it requests: every other key keeps its
/// value, a requested key the document lacked takes the requested value,
/// and a requested key takes the requested value unless its stored list
/// already holds every requested text.
pub proof fn lemma_update_merge_keeps_other_keys(
    current: Map<Seq<char>, JsonValueView>,
    requested: Map<Seq<char>, JsonValueView>,
    k: Seq<char>,
)
    ensures
        !requested.contains_key(k) ==> (update_merge(current, requested).contains_key(k)
            == current.contains_key(k)) && (current.contains_key(k) ==> update_merge(
            current,
            requested,
        )[k] == current[k]),
        requested.contains_key(k) && !current.contains_key(k) ==> update_merge(
            current,
            requested,
        )[k] == requested[k],
        requested.contains_key(k) && current.contains_key(k) && !keeps_stored_list(
            current[k],
            requested[k],
        ) ==> update_merge(current, requested)[k] == requested[k],
        requested.contains_key(k) ==> update_merge(current, requested).contains_key(k),
{
}

} // verus!
