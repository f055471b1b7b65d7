use internetarchive_rs::metadata::HeaderEncoding;
use internetarchive_rs::upload::{
    delete_headers, path_filename, upload_headers, validate_archive_filename, UploadSpecError,
};
use internetarchive_rs::{
    DeleteOptions, FileConflictPolicy, InternetArchiveError, ItemMetadata, UploadOptions,
    UploadSource, UploadSpec,
};

fn pairs(v: &[(&str, &str)]) -> Vec<(String, String)> {
    v.iter()
        .map(|(a, b)| ((*a).to_owned(), (*b).to_owned()))
        .collect()
}

#[test]
fn upload_spec_from_bytes_guesses_content_type() {
    let spec = UploadSpec::from_bytes("demo.txt", b"hello".to_vec());
    assert_eq!(spec.filename, "demo.txt");
    assert_eq!(spec.content_type, "text/plain");
}

#[test]
fn upload_options_default_to_safe_values() {
    let options = UploadOptions::default();
    assert!(!options.skip_derive);
    assert!(!options.keep_old_version);
    assert_eq!(
        FileConflictPolicy::OverwriteKeepingHistory,
        FileConflictPolicy::OverwriteKeepingHistory
    );
}

#[test]
fn upload_spec_from_path_and_content_type_override_work() {
    let path = "/tmp/uploads/artifact.bin";
    let spec = UploadSpec::from_path(path)
        .unwrap()
        .with_content_type("application/octet-stream");

    assert_eq!(spec.filename, "artifact.bin");
    assert_eq!(spec.content_type, "application/octet-stream");
    assert!(matches!(spec.source, UploadSource::Path(ref source) if source == path));
}

#[test]
fn upload_spec_from_path_as_uses_archive_filename_for_name_and_content_type() {
    let path = "/tmp/uploads/artifact.bin";
    let spec = UploadSpec::from_path_as(path, "artifact.txt").unwrap();

    assert_eq!(spec.filename, "artifact.txt");
    assert_eq!(spec.content_type, "text/plain");
    assert!(matches!(spec.source, UploadSource::Path(ref source) if source == path));
}

#[test]
fn upload_spec_with_filename_refreshes_content_type() {
    let path = "/tmp/uploads/artifact.bin";
    let spec = UploadSpec::from_path(path)
        .unwrap()
        .with_filename("artifact.txt");

    assert_eq!(spec.filename, "artifact.txt");
    assert_eq!(spec.content_type, "text/plain");
    assert!(matches!(spec.source, UploadSource::Path(ref source) if source == path));
}

#[test]
fn upload_spec_from_manifest_builds_renamed_specs_in_order() {
    let first = "/tmp/uploads/first.bin";
    let second = "/tmp/uploads/second.bin";
    let specs = UploadSpec::from_manifest(&vec![
        ("release/first.txt", first),
        ("release/second.bin", second),
    ])
    .unwrap();

    assert_eq!(specs.len(), 2);
    assert_eq!(specs[0].filename, "release/first.txt");
    assert_eq!(specs[0].content_type, "text/plain");
    assert_eq!(specs[1].filename, "release/second.bin");
    assert_eq!(specs[1].content_type, "application/octet-stream");
    assert!(matches!(specs[0].source, UploadSource::Path(ref source) if source == first));
    assert!(matches!(specs[1].source, UploadSource::Path(ref source) if source == second));
}

#[test]
fn upload_spec_from_path_rejects_paths_without_a_filename() {
    let error = UploadSpec::from_path("/").unwrap_err();
    assert_eq!(error, UploadSpecError::PathHasNoFilename);
}

#[test]
fn upload_spec_from_path_as_rejects_empty_archive_filename() {
    let error = UploadSpec::from_path_as("/tmp/uploads/artifact.bin", "").unwrap_err();
    assert_eq!(error, UploadSpecError::EmptyArchiveFilename);
}

#[test]
fn manifest_stops_at_the_first_empty_name() {
    let result = UploadSpec::from_manifest(&vec![("a.txt", "/tmp/a"), ("", "/tmp/b")]);
    assert_eq!(result.unwrap_err(), UploadSpecError::EmptyArchiveFilename);
}

#[test]
fn file_name_helpers() {
    assert_eq!(path_filename("/tmp/x/report.pdf").unwrap(), "report.pdf");
    assert_eq!(
        path_filename("/tmp/..").unwrap_err(),
        UploadSpecError::PathHasNoFilename
    );
    assert_eq!(validate_archive_filename("a").unwrap(), "a");
    assert_eq!(
        validate_archive_filename("").unwrap_err(),
        UploadSpecError::EmptyArchiveFilename
    );
}

#[test]
fn unknown_extensions_fall_back_in_order() {
    let spec = UploadSpec::from_bytes("README", b"x".to_vec());
    assert_eq!(spec.content_type, "application/octet-stream");
    let renamed = UploadSpec::from_bytes("page.html", b"x".to_vec()).with_filename("noext");
    assert_eq!(renamed.content_type, "text/html");
}

#[test]
fn upload_headers_follow_options_then_metadata() {
    let options = UploadOptions {
        skip_derive: true,
        keep_old_version: true,
        interactive_priority: true,
        size_hint: Some(1024),
    };
    let metadata = ItemMetadata::builder().title("Demo").build();
    let encoding: HeaderEncoding = metadata.as_header_encoding();
    let headers = upload_headers("text/plain", &options, Some(&encoding), true).unwrap();
    assert_eq!(
        headers,
        pairs(&[
            ("content-type", "text/plain"),
            ("x-archive-auto-make-bucket", "1"),
            ("x-amz-auto-make-bucket", "1"),
            ("x-archive-queue-derive", "0"),
            ("x-archive-keep-old-version", "1"),
            ("x-archive-interactive-priority", "1"),
            ("x-archive-size-hint", "1024"),
            ("x-archive-meta-title", "Demo"),
        ])
    );
    let plain = upload_headers("text/plain", &UploadOptions::default(), None, false).unwrap();
    assert_eq!(plain, pairs(&[("content-type", "text/plain")]));
}

#[test]
fn upload_headers_reject_what_cannot_be_sent() {
    assert_eq!(
        upload_headers("text/plain\n", &UploadOptions::default(), None, false).unwrap_err(),
        InternetArchiveError::InvalidState("invalid content type".to_owned())
    );
    let bad_name = HeaderEncoding {
        headers: pairs(&[("bad name", "v")]),
        remainder: ItemMetadata::new(),
    };
    assert_eq!(
        upload_headers("text/plain", &UploadOptions::default(), Some(&bad_name), false)
            .unwrap_err(),
        InternetArchiveError::InvalidState("invalid metadata header name".to_owned())
    );
    let bad_value = HeaderEncoding {
        headers: pairs(&[("x-archive-meta-title", "a\u{7f}b")]),
        remainder: ItemMetadata::new(),
    };
    assert_eq!(
        upload_headers("text/plain", &UploadOptions::default(), Some(&bad_value), false)
            .unwrap_err(),
        InternetArchiveError::InvalidState("invalid metadata header value".to_owned())
    );
}

#[test]
fn delete_headers_follow_options() {
    assert!(delete_headers(&DeleteOptions::default()).is_empty());
    assert_eq!(
        delete_headers(&DeleteOptions {
            cascade_delete: true,
            keep_old_version: true
        }),
        pairs(&[
            ("x-archive-cascade-delete", "1"),
            ("x-archive-keep-old-version", "1"),
        ])
    );
}

#[test]
fn renamed_upload_without_extension_keeps_previous_content_type() {
    let spec = UploadSpec::from_path("/tmp/a.pdf")
        .unwrap()
        .with_content_type("text/plain");
    let renamed = spec.with_filename("README");
    assert_eq!(renamed.filename, "README");
    assert!(matches!(renamed.source, UploadSource::Path(ref source) if source == "/tmp/a.pdf"));
    assert_eq!(renamed.content_type, "text/plain");
}

#[test]
fn creation_headers_ask_for_both_bucket_flags() {
    let headers = upload_headers("text/plain", &UploadOptions::default(), None, true).unwrap();
    assert_eq!(
        headers,
        pairs(&[
            ("content-type", "text/plain"),
            ("x-archive-auto-make-bucket", "1"),
            ("x-amz-auto-make-bucket", "1"),
        ])
    );
}
