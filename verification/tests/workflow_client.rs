use internetarchive_rs::client::{
    archive_request, check_fetched_item, delete_file_request, get_item_request, is_redirect,
    metadata_update_decision, metadata_write_request, next_s3_step, put_object_request,
    s3_request, search_request, upload_limit_request, HttpMethod, MetadataUpdate,
    RedirectLocation, S3Step,
};
use internetarchive_rs::downloads::resolve_download;
use internetarchive_rs::json::JsonValue;
use internetarchive_rs::poll::{AttemptOutcome, PollAction, Poller};
use internetarchive_rs::workflow::{
    check_workflow_request, item_shows_projection, plan_existing_uploads, publish_lookup,
    reported_files, upsert_lookup, visibility_attempt, visibility_outcome, UploadStep,
};
use internetarchive_rs::{
    Auth, DeleteOptions, Endpoint, FileConflictPolicy, IdentifierError, InternetArchiveError,
    Item, ItemFile, ItemIdentifier, ItemMetadata, MediaType, PatchOperation, PollOptions,
    PublishOutcome, PublishRequest, SearchQuery, UploadOptions, UploadSpec,
};

fn auth() -> Auth {
    Auth::new("access".to_owned(), "secret".to_owned())
}

fn id(s: &str) -> ItemIdentifier {
    ItemIdentifier::new(s).unwrap()
}

fn item_with(identifier: &str, files: &[&str], title: Option<&str>) -> Item {
    let mut entries = vec![(
        "identifier".to_owned(),
        JsonValue::Text(identifier.to_owned()),
    )];
    if let Some(t) = title {
        entries.push(("title".to_owned(), JsonValue::Text(t.to_owned())));
    }
    Item::new(
        ItemMetadata::from_entries(entries),
        files.iter().map(|f| ItemFile::named(f)).collect(),
    )
}

fn pairs(v: &[(&str, &str)]) -> Vec<(String, String)> {
    v.iter()
        .map(|(a, b)| ((*a).to_owned(), (*b).to_owned()))
        .collect()
}

fn request(uploads: Vec<UploadSpec>) -> PublishRequest {
    PublishRequest::new(
        id("demo-item"),
        ItemMetadata::builder().title("Demo").build(),
        uploads,
    )
}

#[test]
fn publish_request_defaults_are_sensible() {
    let request = PublishRequest::new(
        id("demo-item"),
        ItemMetadata::builder()
            .mediatype(MediaType::Texts)
            .title("Demo")
            .build(),
        vec![UploadSpec::from_bytes("demo.txt", b"hello".to_vec())],
    );

    assert_eq!(request.uploads.len(), 1);
    assert_eq!(request.identifier.as_str(), "demo-item");
    assert_eq!(request.conflict_policy, FileConflictPolicy::Overwrite);
    assert_eq!(request.wait_for_visibility, None);
    let waiting = request.wait_for_visibility(30_000);
    assert_eq!(waiting.wait_for_visibility, Some(30_000));
}

#[test]
fn create_or_update_item_rejects_empty_upload_lists_before_network_access() {
    let error = check_workflow_request(&request(Vec::new()), false, false).unwrap_err();
    assert!(
        matches!(error, InternetArchiveError::InvalidState(message) if message.contains("at least one upload"))
    );
}

#[test]
fn publish_rejects_bucket_unsafe_identifiers_before_lookup() {
    assert!(matches!(
        id("Demo-item").validate_for_bucket_creation().unwrap_err(),
        IdentifierError::InvalidBucketCreationCharacter {
            character: 'D',
            ..
        }
    ));
}

#[test]
fn create_or_update_item_rejects_existing_items_when_creation_is_forced() {
    let req = request(vec![UploadSpec::from_bytes("demo.txt", b"hello".to_vec())]);
    let error = check_workflow_request(&req, true, true).unwrap_err();
    assert_eq!(
        error,
        InternetArchiveError::InvalidState("item demo-item already exists".to_owned())
    );
    assert!(check_workflow_request(&req, true, false).is_ok());
    assert!(check_workflow_request(&req, false, true).is_ok());
}

#[test]
fn lookups_decide_publish_and_upsert() {
    let identifier = id("demo-item");
    assert_eq!(
        publish_lookup(&identifier, Ok(item_with("demo-item", &[], None))).unwrap_err(),
        InternetArchiveError::InvalidState("item demo-item already exists".to_owned())
    );
    assert!(publish_lookup(
        &identifier,
        Err(InternetArchiveError::ItemNotFound {
            identifier: "demo-item".to_owned()
        })
    )
    .is_ok());
    assert_eq!(
        publish_lookup(&identifier, Err(InternetArchiveError::MissingAuth)).unwrap_err(),
        InternetArchiveError::MissingAuth
    );
    assert!(upsert_lookup(Err(InternetArchiveError::ItemNotFound {
        identifier: "demo-item".to_owned()
    }))
    .unwrap()
    .is_none());
    assert!(upsert_lookup(Ok(item_with("demo-item", &[], None)))
        .unwrap()
        .is_some());
    let bad_gateway = InternetArchiveError::Http {
        status: 502,
        code: None,
        message: None,
        raw_body: None,
    };
    assert_eq!(
        upsert_lookup(Err(bad_gateway.clone())).unwrap_err(),
        bad_gateway
    );
}

#[test]
fn workflow_policies_cover_error_and_history_paths() {
    let existing = item_with("demo-item", &["demo.txt"], Some("Demo"));
    let uploads = vec![
        UploadSpec::from_bytes("new.txt", b"a".to_vec()),
        UploadSpec::from_bytes("demo.txt", b"b".to_vec()),
        UploadSpec::from_bytes("later.txt", b"c".to_vec()),
    ];
    let options = UploadOptions::default();

    let error_plan = plan_existing_uploads(&uploads, &existing, FileConflictPolicy::Error, options);
    assert_eq!(
        error_plan,
        vec![
            UploadStep::Upload { index: 0, options },
            UploadStep::Conflict { index: 1 },
        ]
    );

    let history_plan = plan_existing_uploads(
        &uploads,
        &existing,
        FileConflictPolicy::OverwriteKeepingHistory,
        options,
    );
    let kept = UploadOptions {
        keep_old_version: true,
        ..options
    };
    assert_eq!(
        history_plan,
        vec![
            UploadStep::Upload { index: 0, options },
            UploadStep::Upload {
                index: 1,
                options: kept
            },
            UploadStep::Upload { index: 2, options },
        ]
    );

    let skip_plan = plan_existing_uploads(&uploads, &existing, FileConflictPolicy::Skip, options);
    assert_eq!(skip_plan[1], UploadStep::Skip { index: 1 });
    let (uploaded, skipped) = reported_files(&uploads, &skip_plan);
    assert_eq!(uploaded, vec!["new.txt".to_owned(), "later.txt".to_owned()]);
    assert_eq!(skipped, vec!["demo.txt".to_owned()]);
    assert_eq!(uploaded.len() + skipped.len(), uploads.len());

    let overwrite_plan =
        plan_existing_uploads(&uploads, &existing, FileConflictPolicy::Overwrite, options);
    assert!(overwrite_plan
        .iter()
        .all(|s| matches!(s, UploadStep::Upload { options: o, .. } if *o == options)));
}

#[test]
fn projections_and_visibility_waits() {
    let desired = ItemMetadata::builder().title("New title").build();
    let uploaded = vec!["demo.txt".to_owned()];
    let stale = item_with("demo-item", &["demo.txt"], Some("Old title"));
    let fresh = item_with("demo-item", &["demo.txt"], Some("New title"));
    let missing_file = item_with("demo-item", &[], Some("New title"));
    assert!(!item_shows_projection(&stale, &uploaded, &desired));
    assert!(item_shows_projection(&fresh, &uploaded, &desired));
    assert!(!item_shows_projection(&missing_file, &uploaded, &desired));

    assert_eq!(
        visibility_attempt(&Ok(stale), Some((&uploaded, &desired))),
        AttemptOutcome::NotFound
    );
    assert_eq!(
        visibility_attempt(&Ok(fresh), Some((&uploaded, &desired))),
        AttemptOutcome::Success
    );
    assert_eq!(
        visibility_attempt(
            &Err(InternetArchiveError::Http {
                status: 502,
                code: None,
                message: Some("temporary outage".to_owned()),
                raw_body: None
            }),
            None
        ),
        AttemptOutcome::NotFound
    );
    assert_eq!(
        visibility_attempt(&Err(InternetArchiveError::MissingAuth), None),
        AttemptOutcome::Failed
    );
    assert!(visibility_outcome(
        Err(InternetArchiveError::ItemNotFound {
            identifier: "demo-item".to_owned()
        }),
        AttemptOutcome::NotFound
    )
    .unwrap()
    .is_none());
    let found = visibility_outcome(
        Ok(item_with("demo-item", &[], None)),
        AttemptOutcome::Success,
    )
    .unwrap()
    .unwrap();
    assert_eq!(found.identifier().unwrap().as_str(), "demo-item");
    assert_eq!(
        visibility_outcome(Err(InternetArchiveError::MissingAuth), AttemptOutcome::Failed)
            .unwrap_err(),
        InternetArchiveError::MissingAuth
    );
}

#[test]
fn outcome_reports_projection() {
    let outcome = PublishOutcome {
        item: None,
        created: true,
        uploaded_files: vec!["demo.txt".to_owned()],
        skipped_files: Vec::new(),
        metadata_changed: false,
    };
    assert!(!outcome.projection_confirmed());
}

#[test]
fn poller_sleeps_doubles_and_times_out() {
    let options = PollOptions {
        max_wait_ms: 50,
        initial_delay_ms: 5,
        max_delay_ms: 10,
    };
    let mut poller = Poller::new(options);
    assert_eq!(
        poller.after_attempt(AttemptOutcome::NotFound, 0),
        PollAction::Sleep(5)
    );
    assert_eq!(poller.after_sleep(5), PollAction::Attempt);
    assert_eq!(
        poller.after_attempt(AttemptOutcome::NotFound, 6),
        PollAction::Sleep(10)
    );
    assert_eq!(
        poller.after_attempt(AttemptOutcome::NotFound, 20),
        PollAction::Sleep(10)
    );
    assert_eq!(poller.after_sleep(50), PollAction::TimedOut);
    assert_eq!(
        poller.after_attempt(AttemptOutcome::NotFound, 60),
        PollAction::Return
    );
    assert_eq!(
        poller.after_attempt(AttemptOutcome::Success, 0),
        PollAction::Return
    );
    assert_eq!(
        poller.after_attempt(AttemptOutcome::Failed, 0),
        PollAction::Return
    );
}

#[test]
fn auth_headers_and_environment_values() {
    assert_eq!(auth().authorization_header(), "LOW access:secret");
    let from_env = Auth::from_env_values(
        "IA_TEST_ACCESS_KEY",
        Ok("custom-access".to_owned()),
        "IA_TEST_SECRET_KEY",
        Ok("custom-secret".to_owned()),
    )
    .unwrap();
    assert_eq!(
        from_env.authorization_header(),
        "LOW custom-access:custom-secret"
    );
    let missing = Auth::from_env_values(
        "MISSING_ACCESS",
        Err("environment variable not found".to_owned()),
        "IA_TEST_SECRET_KEY",
        Ok("x".to_owned()),
    );
    assert!(matches!(
        missing,
        Err(InternetArchiveError::EnvVar { name, .. }) if name == "MISSING_ACCESS"
    ));
    let missing_secret = Auth::from_env_values(
        "A",
        Ok("a".to_owned()),
        "MISSING_SECRET",
        Err("environment variable not found".to_owned()),
    );
    assert!(matches!(
        missing_secret,
        Err(InternetArchiveError::EnvVar { name, .. }) if name == "MISSING_SECRET"
    ));
    assert_eq!(Auth::ACCESS_KEY_ENV_VAR, "INTERNET_ARCHIVE_ACCESS_KEY");
    assert_eq!(Auth::SECRET_KEY_ENV_VAR, "INTERNET_ARCHIVE_SECRET_KEY");
}

#[test]
fn requests_carry_urls_and_headers() {
    let endpoint =
        Endpoint::custom("http://127.0.0.1:8080/", "http://127.0.0.1:8080/s3/").unwrap();
    let identifier = id("demo-item");
    let a = auth();

    let read = get_item_request(&endpoint, None, &identifier).unwrap();
    assert_eq!(read.method, HttpMethod::Get);
    assert_eq!(read.url, "http://127.0.0.1:8080/metadata/demo-item");
    assert_eq!(read.headers, pairs(&[("accept", "application/json")]));

    let authed = get_item_request(&endpoint, Some(&a), &identifier).unwrap();
    assert_eq!(
        authed.headers,
        pairs(&[
            ("authorization", "LOW access:secret"),
            ("accept", "application/json")
        ])
    );

    let search = search_request(&endpoint, None, &SearchQuery::identifier("demo-item")).unwrap();
    assert!(search
        .url
        .starts_with("http://127.0.0.1:8080/advancedsearch.php?q=identifier%3Ademo-item"));

    assert_eq!(
        upload_limit_request(&endpoint, None, &identifier).unwrap_err(),
        InternetArchiveError::MissingAuth
    );
    let limit = upload_limit_request(&endpoint, Some(&a), &identifier).unwrap();
    assert!(limit.url.contains("accesskey=access"));
    assert!(limit.url.contains("bucket=demo-item"));

    assert_eq!(
        metadata_write_request(&endpoint, None, &identifier).unwrap_err(),
        InternetArchiveError::MissingAuth
    );
    let write = metadata_write_request(&endpoint, Some(&a), &identifier).unwrap();
    assert_eq!(write.method, HttpMethod::Post);
    assert_eq!(
        write.headers,
        pairs(&[
            ("authorization", "LOW access:secret"),
            ("content-type", "application/x-www-form-urlencoded"),
        ])
    );

    let put = put_object_request(
        &endpoint,
        Some(&a),
        &identifier,
        "demo.txt",
        pairs(&[("content-type", "text/plain")]),
    )
    .unwrap();
    assert_eq!(put.method, HttpMethod::Put);
    assert_eq!(put.url, "http://127.0.0.1:8080/s3/demo-item/demo.txt");
    assert_eq!(
        put.headers,
        pairs(&[
            ("content-type", "text/plain"),
            ("authorization", "LOW access:secret"),
        ])
    );
    assert_eq!(
        put_object_request(&endpoint, None, &identifier, "demo.txt", Vec::new()).unwrap_err(),
        InternetArchiveError::MissingAuth
    );

    let delete = delete_file_request(
        &endpoint,
        Some(&a),
        &identifier,
        "demo.txt",
        &DeleteOptions {
            cascade_delete: true,
            keep_old_version: false,
        },
    )
    .unwrap();
    assert_eq!(delete.method, HttpMethod::Delete);
    assert_eq!(
        delete.headers,
        pairs(&[
            ("x-archive-cascade-delete", "1"),
            ("authorization", "LOW access:secret"),
        ])
    );
    assert_eq!(
        delete_file_request(
            &endpoint,
            None,
            &identifier,
            "demo.txt",
            &DeleteOptions::default()
        )
        .unwrap_err(),
        InternetArchiveError::MissingAuth
    );

    let plain = archive_request(None, HttpMethod::Get, "http://x/".to_owned());
    assert!(plain.headers.is_empty());
    assert_eq!(
        s3_request(None, HttpMethod::Put, "http://x/".to_owned(), Vec::new()).unwrap_err(),
        InternetArchiveError::MissingAuth
    );
}

#[test]
fn fetched_items_must_exist_and_match() {
    let identifier = id("demo-item");
    let not_found = |r: Result<Item, InternetArchiveError>| {
        matches!(r, Err(InternetArchiveError::ItemNotFound { identifier }) if identifier == "demo-item")
    };
    assert!(not_found(check_fetched_item(
        &identifier,
        b"   ",
        Err("EOF while parsing".to_owned())
    )));
    assert!(not_found(check_fetched_item(
        &identifier,
        b"[]",
        Err("invalid type".to_owned())
    )));
    assert!(not_found(check_fetched_item(
        &identifier,
        br#"{"error":"identifier not found","success":false}"#,
        Ok(Item::new(ItemMetadata::new(), Vec::new()))
    )));
    assert!(not_found(check_fetched_item(
        &identifier,
        b"{}",
        Ok(item_with("other-item", &[], Some("Wrong item")))
    )));
    let item = check_fetched_item(
        &identifier,
        b"{}",
        Ok(item_with("demo-item", &["demo.txt"], Some("Demo item"))),
    )
    .unwrap();
    assert_eq!(item.metadata.title(), Some("Demo item"));
    assert_eq!(
        check_fetched_item(&identifier, b"{", Err("EOF while parsing".to_owned())).unwrap_err(),
        InternetArchiveError::Json("EOF while parsing".to_owned())
    );
}

#[test]
fn redirects_are_followed_a_bounded_number_of_times() {
    for status in [301, 302, 303, 307, 308] {
        assert!(is_redirect(status));
    }
    assert!(!is_redirect(304));
    assert!(!is_redirect(200));

    let current = "http://127.0.0.1:8080/s3/demo-item/demo.txt";
    match next_s3_step(
        307,
        RedirectLocation::Text("/s3-redirected/demo-item/demo.txt".to_owned()),
        8,
        current,
    ) {
        S3Step::Follow { url, remaining } => {
            assert_eq!(url, "http://127.0.0.1:8080/s3-redirected/demo-item/demo.txt");
            assert_eq!(remaining, 7);
        }
        _ => panic!("expected a redirect to be followed"),
    }
    match next_s3_step(307, RedirectLocation::Missing, 8, current) {
        S3Step::Fail(InternetArchiveError::InvalidState(message)) => {
            assert!(message.contains("missing location"));
        }
        _ => panic!("expected a failure"),
    }
    match next_s3_step(302, RedirectLocation::Text("/x".to_owned()), 0, current) {
        S3Step::Fail(InternetArchiveError::InvalidState(message)) => {
            assert_eq!(message, "too many redirects during S3 request");
        }
        _ => panic!("expected a failure"),
    }
    match next_s3_step(302, RedirectLocation::NotUtf8, 3, current) {
        S3Step::Fail(InternetArchiveError::InvalidState(message)) => {
            assert_eq!(message, "redirect location is not valid UTF-8");
        }
        _ => panic!("expected a failure"),
    }
    assert!(matches!(
        next_s3_step(200, RedirectLocation::Missing, 8, current),
        S3Step::Done
    ));
    assert!(matches!(
        next_s3_step(204, RedirectLocation::Missing, 8, current),
        S3Step::Done
    ));
    assert!(matches!(
        next_s3_step(500, RedirectLocation::Missing, 8, current),
        S3Step::Reject
    ));

    let mut remaining = 8_u8;
    let mut url = current.to_owned();
    let mut followed = 0;
    loop {
        match next_s3_step(
            302,
            RedirectLocation::Text("/loop".to_owned()),
            remaining,
            &url,
        ) {
            S3Step::Follow {
                url: next,
                remaining: left,
            } => {
                url = next;
                remaining = left;
                followed += 1;
            }
            S3Step::Fail(_) => break,
            _ => panic!("unexpected step"),
        }
    }
    assert_eq!(followed, 8);
}

#[test]
fn update_item_metadata_returns_synthetic_success_for_noop_diff() {
    match metadata_update_decision(Vec::new(), None).unwrap() {
        MetadataUpdate::Unchanged(response) => {
            assert!(response.success);
            assert_eq!(response.task_id, None);
        }
        MetadataUpdate::Apply(_) => panic!("expected no write"),
    }
    let patch = vec![PatchOperation::replace(
        "/title",
        JsonValue::Text("New title".to_owned()),
    )];
    assert_eq!(
        metadata_update_decision(patch.clone(), None).err(),
        Some(InternetArchiveError::MissingAuth)
    );
    let a = auth();
    match metadata_update_decision(patch.clone(), Some(&a)).unwrap() {
        MetadataUpdate::Apply(p) => assert_eq!(p, patch),
        MetadataUpdate::Unchanged(_) => panic!("expected a write"),
    }
}

#[test]
fn downloads_resolve_below_the_archive_root() {
    let download =
        resolve_download(&Endpoint::default(), &id("xfetch"), "xfetch.pdf").unwrap();
    assert!(download.url.ends_with("/download/xfetch/xfetch.pdf"));
    assert_eq!(download.filename, "xfetch.pdf");
    assert_eq!(download.identifier.as_str(), "xfetch");
}
