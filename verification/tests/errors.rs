use internetarchive_rs::error::{
    decode_http_error, decode_metadata_write_failure, looks_like_json, looks_like_xml,
    trimmed_body, JsonBody, MdapiEnvelope, TransportFailure, XmlErrorFields,
};
use internetarchive_rs::json::JsonValue;
use internetarchive_rs::retry::{is_retryable_status, is_retryable_transfer_error};
use internetarchive_rs::{InternetArchiveError, ItemMetadata, PollOptions, RetryOptions};
use std::time::Duration;

fn envelope(
    success: Option<bool>,
    error: Option<&str>,
    message: Option<&str>,
    code: Option<&str>,
) -> MdapiEnvelope {
    MdapiEnvelope {
        success,
        error: error.map(str::to_owned),
        message: message.map(str::to_owned),
        code: code.map(str::to_owned),
    }
}

fn object(entries: Vec<(&str, JsonValue)>) -> JsonBody {
    JsonBody::Object(ItemMetadata::from_entries(
        entries
            .into_iter()
            .map(|(k, v)| (k.to_owned(), v))
            .collect(),
    ))
}

fn text(s: &str) -> JsonValue {
    JsonValue::Text(s.to_owned())
}

#[test]
fn decodes_json_http_errors() {
    let body = br#"{"error":"no changes made"}"#;
    let error = decode_http_error(
        400,
        Some("application/json"),
        body,
        Some(envelope(None, Some("no changes made"), None, None)),
        Some(object(vec![("error", text("no changes made"))])),
        None,
    );

    match error {
        InternetArchiveError::Http { message, .. } => {
            assert_eq!(message.as_deref(), Some("no changes made"));
        }
        other => panic!("unexpected error: {other:?}"),
    }
}

#[test]
fn decodes_xml_http_errors() {
    let error = decode_http_error(
        503,
        Some("application/xml"),
        b"<Error><Code>SlowDown</Code><Message>Too many requests</Message></Error>",
        None,
        None,
        Some(XmlErrorFields {
            code: Some("SlowDown".to_owned()),
            message: Some("Too many requests".to_owned()),
        }),
    );

    match error {
        InternetArchiveError::Http { code, message, .. } => {
            assert_eq!(code.as_deref(), Some("SlowDown"));
            assert_eq!(message.as_deref(), Some("Too many requests"));
        }
        other => panic!("unexpected error: {other:?}"),
    }
}

#[test]
fn decodes_plain_text_http_errors() {
    let error = decode_http_error(502, Some("text/plain"), b"gateway down", None, None, None);
    match error {
        InternetArchiveError::Http { message, .. } => {
            assert_eq!(message.as_deref(), Some("gateway down"));
        }
        other => panic!("unexpected error: {other:?}"),
    }
}

#[test]
fn metadata_write_failure_detection_treats_success_false_as_error() {
    let body = br#"{"success":false,"error":"No changes made to _meta.xml"}"#;
    let error = decode_metadata_write_failure(
        body,
        Ok(envelope(
            Some(false),
            Some("No changes made to _meta.xml"),
            None,
            None,
        )),
    )
    .unwrap_err();
    match error {
        InternetArchiveError::MetadataWriteFailed { message, .. } => {
            assert!(message.contains("No changes made"));
        }
        other => panic!("unexpected error: {other:?}"),
    }

    assert!(decode_metadata_write_failure(
        br#"{"success":true,"task_id":1}"#,
        Ok(envelope(Some(true), None, None, None)),
    )
    .is_ok());
}

#[test]
fn decodes_json_fallback_value_errors_and_body_heuristics() {
    let body = br#"  {"error":{"nested":true},"title":"fallback title","code":"bad_request"}"#;
    let error = decode_http_error(
        400,
        None,
        body,
        None,
        Some(object(vec![
            ("error", JsonValue::Raw(r#"{"nested":true}"#.to_owned())),
            ("title", text("fallback title")),
            ("code", text("bad_request")),
        ])),
        None,
    );

    match error {
        InternetArchiveError::Http {
            code,
            message,
            raw_body,
            ..
        } => {
            assert_eq!(code.as_deref(), Some("bad_request"));
            assert_eq!(message.as_deref(), Some("fallback title"));
            assert!(raw_body.unwrap().contains("fallback title"));
        }
        other => panic!("unexpected error: {other:?}"),
    }
}

#[test]
fn decodes_xml_without_content_type_and_trims_text_bodies() {
    let error = decode_http_error(
        502,
        None,
        b"\n   <Error><Message>temporary outage</Message></Error>",
        None,
        None,
        Some(XmlErrorFields {
            code: None,
            message: Some("temporary outage".to_owned()),
        }),
    );

    match error {
        InternetArchiveError::Http { message, .. } => {
            assert_eq!(message.as_deref(), Some("temporary outage"));
        }
        other => panic!("unexpected error: {other:?}"),
    }

    let long_text = format!("\n\n{}", "x".repeat(600));
    let trimmed = decode_http_error(
        502,
        Some("text/plain"),
        long_text.as_bytes(),
        None,
        None,
        None,
    );
    match trimmed {
        InternetArchiveError::Http { message, .. } => {
            assert_eq!(message.unwrap().len(), 512);
        }
        other => panic!("unexpected error: {other:?}"),
    }
}

#[test]
fn metadata_write_failure_without_message_uses_default_error() {
    let body = br#"{"success":false}"#;
    let error =
        decode_metadata_write_failure(body, Ok(envelope(Some(false), None, None, None)))
            .unwrap_err();
    match error {
        InternetArchiveError::MetadataWriteFailed { message, raw_body } => {
            assert_eq!(message, "unknown metadata write error");
            assert_eq!(raw_body.as_deref(), Some(r#"{"success":false}"#));
        }
        other => panic!("unexpected error: {other:?}"),
    }
}

#[test]
fn empty_plaintext_body_produces_no_message() {
    let error = decode_http_error(502, Some("text/plain"), b"\n \n\t", None, None, None);
    match error {
        InternetArchiveError::Http {
            message, raw_body, ..
        } => {
            assert_eq!(message, None);
            assert_eq!(raw_body, None);
        }
        other => panic!("unexpected error: {other:?}"),
    }
}

#[test]
fn metadata_write_body_that_is_not_an_envelope_is_a_json_error() {
    let error = decode_metadata_write_failure(b"oops", Err("expected value".to_owned()))
        .unwrap_err();
    assert_eq!(error, InternetArchiveError::Json("expected value".to_owned()));
}

#[test]
fn envelope_message_precedence_and_code() {
    let error = decode_http_error(
        409,
        Some("application/problem+json"),
        br#"{"message":"second","code":"c"}"#,
        Some(envelope(Some(false), None, Some("second"), Some("c"))),
        None,
        None,
    );
    assert_eq!(
        error,
        InternetArchiveError::Http {
            status: 409,
            code: Some("c".to_owned()),
            message: Some("second".to_owned()),
            raw_body: Some(r#"{"message":"second","code":"c"}"#.to_owned()),
        }
    );
    let fallback = decode_http_error(
        400,
        Some("application/json"),
        br#"{"other":1}"#,
        Some(envelope(None, None, None, None)),
        None,
        None,
    );
    assert_eq!(
        fallback,
        InternetArchiveError::Http {
            status: 400,
            code: None,
            message: Some(r#"{"other":1}"#.to_owned()),
            raw_body: Some(r#"{"other":1}"#.to_owned()),
        }
    );
}

#[test]
fn body_heuristics_and_trimming() {
    assert!(looks_like_json(Some("application/json; charset=utf-8"), b""));
    assert!(looks_like_json(Some("application/vnd.api+json"), b""));
    assert!(looks_like_json(None, b"  [1]"));
    assert!(!looks_like_json(Some("text/plain"), b"hello"));
    assert!(looks_like_xml(Some("text/xml"), b""));
    assert!(looks_like_xml(None, b"\t<a/>"));
    assert!(!looks_like_xml(None, b"{}"));
    assert_eq!(
        trimmed_body(b"\n   first line  \nsecond"),
        Some("first line".to_owned())
    );
    assert_eq!(trimmed_body(b""), None);
}

#[test]
fn defaults_allow_for_archive_eventual_consistency() {
    let poll = PollOptions::default();
    assert_eq!(Duration::from_millis(poll.max_wait_ms), Duration::from_secs(120));
    assert_eq!(
        Duration::from_millis(poll.initial_delay_ms),
        Duration::from_millis(500)
    );
    assert_eq!(Duration::from_millis(poll.max_delay_ms), Duration::from_secs(5));
}

#[test]
fn defaults_are_conservative() {
    let retry = RetryOptions::default();
    assert_eq!(retry.max_retries, 3);
    assert_eq!(
        Duration::from_millis(retry.initial_backoff_ms),
        Duration::from_millis(500)
    );
    assert_eq!(Duration::from_millis(retry.max_backoff_ms), Duration::from_secs(8));
}

#[test]
fn retryable_statuses_cover_throttling_and_server_errors() {
    assert!(is_retryable_status(429));
    assert!(is_retryable_status(503));
    assert!(is_retryable_status(500));
    assert!(is_retryable_status(502));
    assert!(is_retryable_status(504));
    assert!(!is_retryable_status(501));
    assert!(!is_retryable_status(404));
    assert!(!is_retryable_status(200));
}

#[test]
fn transfer_error_classification_matches_http_status() {
    let throttled = InternetArchiveError::Http {
        status: 503,
        code: Some("SlowDown".to_owned()),
        message: None,
        raw_body: None,
    };
    assert!(is_retryable_transfer_error(&throttled));

    let missing = InternetArchiveError::Http {
        status: 404,
        code: None,
        message: None,
        raw_body: None,
    };
    assert!(!is_retryable_transfer_error(&missing));

    assert!(!is_retryable_transfer_error(
        &InternetArchiveError::MissingAuth
    ));
    assert!(!is_retryable_transfer_error(
        &InternetArchiveError::Timeout("demo".to_owned())
    ));
}

#[test]
fn transport_failures_are_retried_by_kind() {
    let failure = |timeout, connect, body| {
        InternetArchiveError::Transport(TransportFailure {
            message: "transport".to_owned(),
            timeout,
            connect,
            body,
        })
    };
    assert!(is_retryable_transfer_error(&failure(true, false, false)));
    assert!(is_retryable_transfer_error(&failure(false, true, false)));
    assert!(is_retryable_transfer_error(&failure(false, false, true)));
    assert!(!is_retryable_transfer_error(&failure(false, false, false)));
}

#[test]
fn retry_policy_counts_and_backoff() {
    let retry = RetryOptions::default();
    let throttled = InternetArchiveError::Http {
        status: 429,
        code: None,
        message: None,
        raw_body: None,
    };
    assert!(retry.should_retry(0, &throttled));
    assert!(retry.should_retry(2, &throttled));
    assert!(!retry.should_retry(3, &throttled));
    let disabled = RetryOptions {
        max_retries: 0,
        ..RetryOptions::default()
    };
    assert!(!disabled.should_retry(0, &throttled));
    assert!(!retry.should_retry(0, &InternetArchiveError::MissingAuth));
    assert_eq!(retry.next_backoff(500), 1000);
    assert_eq!(retry.next_backoff(4000), 8000);
    assert_eq!(retry.next_backoff(6000), 8000);
    assert_eq!(retry.next_backoff(u64::MAX), 8000);
}
