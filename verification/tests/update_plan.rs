use internetarchive_rs::client::{plan_metadata_update, MetadataUpdate};
use internetarchive_rs::json::{JsonItem, JsonValue};
use internetarchive_rs::workflow::creation_report;
use internetarchive_rs::{
    Auth, IdentifierError, InternetArchiveError, ItemIdentifier, ItemMetadata, MediaType,
    MetadataWriteResponse, PatchOperation, TaskId, UploadSpec,
};

fn stored_document() -> ItemMetadata {
    ItemMetadata::from_entries(vec![
        ("mediatype".to_owned(), JsonValue::Text("texts".to_owned())),
        ("title".to_owned(), JsonValue::Text("Demo item".to_owned())),
        (
            "collection".to_owned(),
            JsonValue::Array(vec![
                JsonItem::Text("test_collection".to_owned()),
                JsonItem::Text("internetarchivebooks".to_owned()),
            ]),
        ),
    ])
}

fn auth() -> Auth {
    Auth::new("access".to_owned(), "secret".to_owned())
}

#[test]
fn superset_collection_list_is_kept_by_the_merge() {
    let requested = ItemMetadata::builder()
        .mediatype(MediaType::Texts)
        .title("Demo item")
        .collection("test_collection")
        .build();
    let mut merged = stored_document();
    merged.merge_for_update(&requested);
    assert_eq!(merged.as_map(), stored_document().as_map());
}

#[test]
fn superset_collection_list_needs_no_write() {
    let requested = ItemMetadata::builder()
        .mediatype(MediaType::Texts)
        .title("Demo item")
        .collection("test_collection")
        .build();
    let plan = plan_metadata_update(&stored_document(), &requested, Some(&auth())).unwrap();
    match plan {
        MetadataUpdate::Unchanged(response) => {
            assert!(response.success);
            assert!(response.task_id.is_none());
        }
        MetadataUpdate::Apply(patch) => panic!("unexpected patch {patch:?}"),
    }
    let anonymous = plan_metadata_update(&stored_document(), &requested, None).unwrap();
    assert!(matches!(anonymous, MetadataUpdate::Unchanged(_)));
}

#[test]
fn a_new_collection_replaces_the_stored_list() {
    let requested = ItemMetadata::builder().collection("opensource").build();
    let mut merged = stored_document();
    merged.merge_for_update(&requested);
    assert_eq!(
        merged.get("collection"),
        Some(&JsonValue::Text("opensource".to_owned()))
    );
    assert_eq!(
        merged.get("title"),
        Some(&JsonValue::Text("Demo item".to_owned()))
    );
}

#[test]
fn changed_title_needs_credentials() {
    let requested = ItemMetadata::builder().title("New title").build();
    assert_eq!(
        plan_metadata_update(&stored_document(), &requested, None).unwrap_err(),
        InternetArchiveError::MissingAuth
    );
}

#[test]
fn changed_title_is_sent_as_one_replacement() {
    let requested = ItemMetadata::builder().title("New title").build();
    let plan = plan_metadata_update(&stored_document(), &requested, Some(&auth())).unwrap();
    match plan {
        MetadataUpdate::Apply(patch) => {
            assert_eq!(patch.len(), 1);
            match &patch[0] {
                PatchOperation::Replace { path, value } => {
                    assert_eq!(path, "/title");
                    assert_eq!(value, &JsonValue::Text("New title".to_owned()));
                }
                other => panic!("unexpected operation {other:?}"),
            }
        }
        MetadataUpdate::Unchanged(_) => panic!("expected a patch"),
    }
}

#[test]
fn new_key_is_sent_as_an_addition_and_other_keys_stay() {
    let requested = ItemMetadata::builder().creator("Someone").build();
    let plan = plan_metadata_update(&stored_document(), &requested, Some(&auth())).unwrap();
    match plan {
        MetadataUpdate::Apply(patch) => {
            assert_eq!(patch.len(), 1);
            match &patch[0] {
                PatchOperation::Add { path, value } => {
                    assert_eq!(path, "/creator");
                    assert_eq!(value, &JsonValue::Text("Someone".to_owned()));
                }
                other => panic!("unexpected operation {other:?}"),
            }
        }
        MetadataUpdate::Unchanged(_) => panic!("expected a patch"),
    }
}

#[test]
fn upload_conflict_message_names_the_policy() {
    let error = InternetArchiveError::UploadConflict {
        filename: "demo.txt".to_owned(),
    };
    assert_eq!(
        error.message(),
        "item already contains file and selected policy forbids overwrite: demo.txt"
    );
    assert!(error.message().contains("selected policy forbids overwrite"));
}

#[test]
fn error_messages_read_as_displayed() {
    assert_eq!(
        InternetArchiveError::MissingAuth.message(),
        "this operation requires Internet Archive credentials"
    );
    assert_eq!(
        InternetArchiveError::InvalidState("missing location".to_owned()).message(),
        "invalid Internet Archive state: missing location"
    );
    let http = InternetArchiveError::Http {
        status: 502,
        code: None,
        message: Some("x".to_owned()),
        raw_body: None,
    };
    assert_eq!(
        http.message(),
        "Internet Archive returned HTTP 502 Bad Gateway: Some(\"x\")"
    );
    let silent = InternetArchiveError::Http {
        status: 404,
        code: None,
        message: None,
        raw_body: None,
    };
    assert_eq!(
        silent.message(),
        "Internet Archive returned HTTP 404 Not Found: None"
    );
}

#[test]
fn identifier_error_messages_quote_their_inputs() {
    assert_eq!(
        IdentifierError::Empty.message(),
        "item identifier cannot be empty"
    );
    let error = ItemIdentifier::new("bad item").unwrap_err();
    assert_eq!(
        error.message(),
        "invalid character ' ' in identifier \"bad item\""
    );
    let wrapped = InternetArchiveError::Identifier(error);
    assert_eq!(
        wrapped.message(),
        "invalid character ' ' in identifier \"bad item\""
    );
}

#[test]
fn identifier_text_rebuilds_the_same_identifier() {
    let id = ItemIdentifier::new("  Demo.Item_2026 ").unwrap();
    assert_eq!(ItemIdentifier::new(id.as_str()).unwrap(), id);
    assert_eq!(ItemIdentifier::try_from(id.as_str()).unwrap(), id);
    assert_eq!(ItemIdentifier::try_from(String::from(id.clone())).unwrap(), id);
    assert_eq!(id.as_str().trim(), id.as_str());
}

#[test]
fn creation_report_lists_every_upload_and_the_queued_update() {
    let uploads = vec![
        UploadSpec::from_bytes("a.txt", b"a".to_vec()),
        UploadSpec::from_bytes("b.txt", b"b".to_vec()),
    ];
    let queued = MetadataWriteResponse {
        success: true,
        task_id: Some(TaskId::from(7_u64)),
        log: None,
        error: None,
    };
    let (names, changed) = creation_report(&uploads, Some(&queued));
    assert_eq!(names, vec!["a.txt".to_owned(), "b.txt".to_owned()]);
    assert!(changed);
    let unchanged = MetadataWriteResponse {
        success: true,
        task_id: None,
        log: None,
        error: None,
    };
    assert!(!creation_report(&uploads, Some(&unchanged)).1);
    assert!(!creation_report(&uploads, None).1);
}
