use internetarchive_rs::json::{JsonItem, JsonValue};
use internetarchive_rs::{
    Item, ItemFile, ItemMetadata, SearchDocument, SearchResponse, SearchResponseHeader,
    SearchResultPage,
};

fn text(s: &str) -> JsonValue {
    JsonValue::Text(s.to_owned())
}

fn entries(pairs: &[(&str, &str)]) -> Vec<(String, JsonValue)> {
    pairs
        .iter()
        .map(|(k, v)| ((*k).to_owned(), text(v)))
        .collect()
}

#[test]
fn item_deserializes_realistic_metadata_payloads() {
    let mut file = ItemFile::named("xfetch.pdf");
    file.size = Some(419_170);
    file.md5 = Some("abc".to_owned());
    let mut item = Item::new(
        ItemMetadata::from_entries(entries(&[("identifier", "xfetch"), ("title", "XFETCH")])),
        vec![file],
    );
    item.created = Some(1_776_513_537);

    assert_eq!(item.file("xfetch.pdf").unwrap().size, Some(419_170));
    assert_eq!(item.identifier().unwrap().as_str(), "xfetch");
}

#[test]
fn search_response_deserializes_advancedsearch_shape() {
    let response = SearchResponse {
        response_header: SearchResponseHeader {
            status: 0,
            q_time: Some(12),
            params: entries(&[("query", "identifier:xfetch")]),
        },
        response: SearchResultPage {
            num_found: 1,
            start: 0,
            docs: vec![SearchDocument::from_entries(entries(&[
                ("identifier", "xfetch"),
                ("title", "XFETCH"),
            ]))],
        },
    };

    assert_eq!(
        response.response.docs[0].identifier().unwrap().as_str(),
        "xfetch"
    );
    assert_eq!(response.response.docs[0].title(), Some("XFETCH"));
    let title = response.response.docs[0]
        .as_map()
        .iter()
        .find(|(k, _)| k == "title")
        .unwrap();
    assert_eq!(title.1, JsonValue::Text("XFETCH".to_owned()));
}

#[test]
fn search_response_deserializes_without_response_header() {
    let response = SearchResponse {
        response_header: SearchResponseHeader::default(),
        response: SearchResultPage {
            num_found: 1,
            start: 0,
            docs: vec![SearchDocument::from_entries(entries(&[
                ("identifier", "xfetch"),
                ("title", "XFETCH"),
            ]))],
        },
    };

    assert_eq!(response.response_header.status, 0);
    assert!(response.response_header.params.is_empty());
    assert_eq!(
        response.response.docs[0].identifier().unwrap().as_str(),
        "xfetch"
    );
}

#[test]
fn item_identifier_needs_a_valid_text_identifier() {
    let item = Item::new(ItemMetadata::from_entries(entries(&[("identifier", "bad item")])), vec![]);
    assert!(item.identifier().is_none());
    let item = Item::new(
        ItemMetadata::from_entries(vec![(
            "identifier".to_owned(),
            JsonValue::Raw("42".to_owned()),
        )]),
        vec![],
    );
    assert!(item.identifier().is_none());
    let item = Item::new(ItemMetadata::new(), vec![]);
    assert!(item.identifier().is_none());
}

#[test]
fn file_lookup_finds_the_first_exact_name() {
    let mut first = ItemFile::named("a.txt");
    first.size = Some(1);
    let mut second = ItemFile::named("a.txt");
    second.size = Some(2);
    let item = Item::new(
        ItemMetadata::new(),
        vec![ItemFile::named("b.txt"), first, second],
    );
    assert_eq!(item.file("a.txt").unwrap().size, Some(1));
    assert_eq!(item.file_position("a.txt"), Some(1));
    assert!(item.file("A.txt").is_none());
    assert_eq!(item.file_position("c.txt"), None);
}

#[test]
fn checksum_prefers_md5_then_sha1_then_crc32() {
    let mut file = ItemFile::named("x");
    assert_eq!(file.checksum(), None);
    file.crc32 = Some("crc".to_owned());
    assert_eq!(file.checksum(), Some("crc"));
    file.sha1 = Some("sha".to_owned());
    assert_eq!(file.checksum(), Some("sha"));
    file.md5 = Some("md5".to_owned());
    assert_eq!(file.checksum(), Some("md5"));
}

#[test]
fn search_documents_read_fields() {
    let doc = SearchDocument::from_entries(vec![
        ("identifier".to_owned(), text("demo-item")),
        ("downloads".to_owned(), JsonValue::Raw("7".to_owned())),
    ]);
    assert_eq!(doc.get("downloads"), Some(&JsonValue::Raw("7".to_owned())));
    assert_eq!(doc.get_text("downloads"), None);
    assert_eq!(doc.title(), None);
    assert_eq!(doc.identifier().unwrap().as_str(), "demo-item");
}

#[test]
fn normalize_string_list_supports_scalars_and_arrays() {
    assert_eq!(text("eng").texts(), Some(vec!["eng".to_owned()]));
    assert_eq!(
        JsonValue::Array(vec![
            JsonItem::Text("eng".to_owned()),
            JsonItem::Text("ita".to_owned())
        ])
        .texts(),
        Some(vec!["eng".to_owned(), "ita".to_owned()])
    );
    assert_eq!(
        JsonValue::Array(vec![
            JsonItem::Raw("1".to_owned()),
            JsonItem::Raw("2".to_owned()),
            JsonItem::Raw("3".to_owned())
        ])
        .texts(),
        None
    );
    assert_eq!(
        JsonValue::Raw(r#"{"language":"eng"}"#.to_owned()).texts(),
        None
    );
}
