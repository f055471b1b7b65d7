use internetarchive_rs::json::{JsonItem, JsonValue};
use internetarchive_rs::metadata::{header_name, header_value, metadata_contains_projection};
use internetarchive_rs::{
    ItemMetadata, MediaType, MetadataChange, MetadataTarget, MetadataValue, PatchOperation,
};

fn text(s: &str) -> JsonValue {
    JsonValue::Text(s.to_owned())
}

fn texts(values: &[&str]) -> JsonValue {
    JsonValue::Array(
        values
            .iter()
            .map(|v| JsonItem::Text((*v).to_owned()))
            .collect(),
    )
}

#[test]
fn builder_handles_common_fields_and_lists() {
    let metadata = ItemMetadata::builder()
        .mediatype(MediaType::Texts)
        .title("Demo")
        .collection("opensource")
        .collection("community")
        .creator("Doe, Jane")
        .language("eng")
        .build();

    assert_eq!(metadata.title(), Some("Demo"));
    assert_eq!(metadata.mediatype(), Some(MediaType::Texts));
    assert_eq!(
        metadata.collections().unwrap(),
        vec!["opensource".to_owned(), "community".to_owned()]
    );
}

#[test]
fn media_types_and_metadata_value_conversions_cover_all_variants() {
    let variants = [
        (MediaType::Texts, "texts"),
        (MediaType::Movies, "movies"),
        (MediaType::Audio, "audio"),
        (MediaType::Image, "image"),
        (MediaType::Software, "software"),
        (MediaType::Data, "data"),
        (MediaType::Collection, "collection"),
    ];

    for (variant, expected) in variants {
        assert_eq!(variant.as_str(), expected);
        assert_eq!(MediaType::from_name(expected), variant);
    }
    assert_eq!(
        MediaType::from_name("custom"),
        MediaType::Custom("custom".to_owned())
    );

    for variant in [
        MediaType::Movies,
        MediaType::Audio,
        MediaType::Image,
        MediaType::Software,
        MediaType::Data,
        MediaType::Collection,
    ] {
        let metadata = ItemMetadata::builder().mediatype(variant.clone()).build();
        assert_eq!(metadata.mediatype(), Some(variant));
    }

    assert_eq!(
        MetadataValue::from(String::from("demo")),
        MetadataValue::Text(String::from("demo"))
    );
    assert_eq!(
        MetadataValue::from("demo"),
        MetadataValue::Text(String::from("demo"))
    );
    assert_eq!(
        MetadataValue::from(vec![String::from("a"), String::from("b")]),
        MetadataValue::TextList(vec![String::from("a"), String::from("b")])
    );
    assert_eq!(
        MetadataValue::from(vec!["a", "b"]),
        MetadataValue::TextList(vec![String::from("a"), String::from("b")])
    );
}

#[test]
fn builder_and_accessors_cover_all_common_metadata_helpers() {
    let metadata = ItemMetadata::builder()
        .mediatype(MediaType::Custom("zines".to_owned()))
        .title("Demo")
        .description_html("<p>Description</p>")
        .collection("opensource")
        .creator("Jane Doe")
        .subject("rust")
        .language("eng")
        .license_url("https://creativecommons.org/licenses/by/4.0/")
        .extra_text("identifier", "demo-item")
        .extra_texts(
            "collection",
            vec!["opensource".to_owned(), "community".to_owned()],
        )
        .extra_json("custom", JsonValue::Raw(r#"{"nested":true}"#.to_owned()))
        .build();

    assert_eq!(
        metadata.get("custom").unwrap(),
        &JsonValue::Raw(r#"{"nested":true}"#.to_owned())
    );
    assert_eq!(metadata.get_text("title"), Some("Demo"));
    assert_eq!(
        metadata.get_texts("collection").unwrap(),
        vec!["opensource".to_owned(), "community".to_owned()]
    );
    assert_eq!(metadata.title(), Some("Demo"));
    assert_eq!(
        metadata.mediatype(),
        Some(MediaType::Custom("zines".to_owned()))
    );
    assert_eq!(
        metadata.collections().unwrap(),
        vec!["opensource".to_owned(), "community".to_owned()]
    );
    assert!(metadata.as_map().iter().any(|(k, _)| k == "licenseurl"));
    assert!(metadata.contains_key("licenseurl"));

    let raw = metadata.into_map();
    let identifier = raw.iter().find(|(k, _)| k == "identifier").unwrap();
    assert_eq!(identifier.1, text("demo-item"));
}

#[test]
fn header_encoding_supports_ascii_lists_and_leaves_complex_values_for_patching() {
    let metadata = ItemMetadata::builder()
        .mediatype(MediaType::Texts)
        .title("Demo")
        .collection("opensource")
        .collection("community")
        .extra_json("custom", JsonValue::Raw(r#"{"nested":true}"#.to_owned()))
        .build();

    let encoding = metadata.as_header_encoding();
    assert_eq!(encoding.headers.len(), 4);
    assert_eq!(
        encoding.remainder.get("custom").unwrap(),
        &JsonValue::Raw(r#"{"nested":true}"#.to_owned())
    );
}

#[test]
fn header_encoding_uri_encodes_unicode_values() {
    let metadata = ItemMetadata::builder().title("Snowman \u{2603}").build();
    let encoding = metadata.as_header_encoding();
    assert!(encoding.headers[0].1.starts_with("uri("));
}

#[test]
fn header_encoding_handles_single_value_arrays_and_map_conversions() {
    let metadata = ItemMetadata::from_entries(vec![
        ("single".to_owned(), texts(&["only"])),
        (
            "mixed".to_owned(),
            JsonValue::Array(vec![
                JsonItem::Raw("1".to_owned()),
                JsonItem::Raw("2".to_owned()),
                JsonItem::Raw("3".to_owned()),
            ]),
        ),
    ]);
    let encoding = metadata.as_header_encoding();

    assert!(encoding
        .headers
        .iter()
        .any(|(name, value)| name == "x-archive-meta-single" && value == "only"));
    assert_eq!(
        encoding.remainder.get("mixed").unwrap(),
        &JsonValue::Array(vec![
            JsonItem::Raw("1".to_owned()),
            JsonItem::Raw("2".to_owned()),
            JsonItem::Raw("3".to_owned()),
        ])
    );
}

#[test]
fn metadata_targets_and_patch_helpers_serialize_as_expected() {
    let change = MetadataChange::new(
        &MetadataTarget::Metadata,
        vec![
            PatchOperation::test("/version", JsonValue::Raw("1".to_owned())),
            PatchOperation::replace("/title", text("Updated")),
            PatchOperation::add("/subjects/-", text("rust")),
            PatchOperation::Remove {
                path: "/deprecated".to_owned(),
            },
            PatchOperation::RemoveFirst {
                path: "/subjects/-".to_owned(),
                value: text("old"),
            },
            PatchOperation::RemoveAll {
                path: "/subjects/-".to_owned(),
                value: text("older"),
            },
        ],
    );
    assert_eq!(change.target, "metadata");
    assert!(matches!(change.patch[0], PatchOperation::Test { .. }));
    assert_eq!(
        MetadataTarget::File("demo.txt".into()).as_str(),
        "files/demo.txt"
    );
    assert_eq!(
        MetadataTarget::UserJson("extra.json".into()).as_str(),
        "extra.json"
    );
    assert_eq!(MetadataTarget::RootUserJson.as_str(), "");
}

#[test]
fn multi_value_headers_are_numbered_and_underscores_escaped() {
    let metadata = ItemMetadata::builder()
        .subject("rust")
        .subject("archives")
        .extra_text("my_key", "v")
        .build();
    let encoding = metadata.as_header_encoding();
    assert_eq!(
        encoding.headers,
        vec![
            ("x-archive-meta-my--key".to_owned(), "v".to_owned()),
            ("x-archive-meta01-subject".to_owned(), "rust".to_owned()),
            ("x-archive-meta02-subject".to_owned(), "archives".to_owned()),
        ]
    );
    assert!(encoding.remainder.as_map().is_empty());
    assert_eq!(header_name("a_b", None), "x-archive-meta-a--b");
    assert_eq!(header_name("subject", Some(12)), "x-archive-meta12-subject");
    assert_eq!(header_value("plain"), "plain");
    assert_eq!(header_value("caf\u{e9}"), "uri(caf%C3%A9)");
}

#[test]
fn repeated_values_accumulate_in_order() {
    let metadata = ItemMetadata::builder()
        .creator("a")
        .creator("b")
        .creator("c")
        .build();
    assert_eq!(
        metadata.get_texts("creator").unwrap(),
        vec!["a".to_owned(), "b".to_owned(), "c".to_owned()]
    );
    assert_eq!(metadata.get_text("creator"), None);
}

#[test]
fn later_entries_replace_earlier_ones() {
    let metadata = ItemMetadata::from_entries(vec![
        ("title".to_owned(), text("first")),
        ("title".to_owned(), text("second")),
    ]);
    assert_eq!(metadata.title(), Some("second"));
    assert_eq!(metadata.as_map().len(), 1);
}

#[test]
fn overlay_changes_only_the_overlaid_keys() {
    let mut current = ItemMetadata::builder()
        .title("Old title")
        .extra_text("identifier", "demo-item")
        .build();
    let desired = ItemMetadata::builder().title("New title").build();
    assert!(!metadata_contains_projection(&current, &desired));
    current.overlay(&desired);
    assert_eq!(current.title(), Some("New title"));
    assert_eq!(current.get_text("identifier"), Some("demo-item"));
    assert!(metadata_contains_projection(&current, &desired));
    assert!(!metadata_contains_projection(&desired, &current));
}

#[test]
fn insert_then_get_reads_back_the_value() {
    let mut metadata = ItemMetadata::new();
    metadata.insert("b".to_owned(), text("2"));
    metadata.insert("a".to_owned(), text("1"));
    metadata.insert("b".to_owned(), text("3"));
    assert_eq!(metadata.get_text("a"), Some("1"));
    assert_eq!(metadata.get_text("b"), Some("3"));
    let keys: Vec<&str> = metadata.as_map().iter().map(|(k, _)| k.as_str()).collect();
    assert_eq!(keys, vec!["a", "b"]);
}
