use http::{HeaderMap, HeaderValue, StatusCode};
use s3_api_common::bucket::{create_bucket_location_constraint, validate_region};
use s3_api_common::byte_range::ByteRange;
use s3_api_common::error::Error;
use s3_api_common::header_ops::{
    apply_copy_metadata_headers, apply_metadata_headers, header_value, insert_header,
    insert_optional_header, metadata_header_name,
};
use s3_api_common::parts::{prepare_completed_parts, CompletedPart};
use s3_api_common::service_error::{
    decode_utf8_response_body, parse_async_xml_response, parse_error_xml,
    parse_xml_or_service_error, response_error_from_status,
};
use s3_api_common::validate::{
    validate_completed_part_etag, validate_content_length_matches_body, validate_query_token,
    validate_query_value, validate_subresource, validate_upload_part_number,
};

fn config_message<T: std::fmt::Debug>(r: Result<T, Error>) -> String {
    match r {
        Err(Error::InvalidConfig { message }) => message,
        other => panic!("expected InvalidConfig, got {other:?}"),
    }
}

fn part(part_number: u32, etag: &str) -> CompletedPart {
    CompletedPart {
        part_number,
        etag: etag.to_string(),
    }
}

#[test]
fn subresource_checks_match_query_token_checks() {
    for value in ["", " x", "x ", "a b", "a\tb", "versioning", "\u{3000}x"] {
        let a = validate_subresource(value).err().map(|e| config_message::<()>(Err(e)));
        let b = validate_query_token("subresource", value)
            .err()
            .map(|e| config_message::<()>(Err(e)));
        assert_eq!(a, b);
    }
}

#[test]
fn valid_query_tokens_are_valid_query_values() {
    for value in ["token", "opaque/token+id=", "a%20b", "\u{e9}t\u{e9}"] {
        assert!(validate_query_token("name", value).is_ok());
        assert!(validate_query_value("name", value).is_ok());
    }
}

#[test]
fn query_messages_name_the_argument() {
    assert_eq!(
        config_message(validate_query_token("marker", "")),
        "marker must not be empty"
    );
    assert_eq!(
        config_message(validate_query_token("marker", " m")),
        "marker must not include leading or trailing whitespace"
    );
    assert_eq!(
        config_message(validate_query_token("marker", "m m")),
        "marker must not contain ASCII control or whitespace characters"
    );
    assert_eq!(
        config_message(validate_query_value("prefix", "a\u{1}b")),
        "prefix must not contain ASCII control characters"
    );
    assert_eq!(
        config_message(validate_query_value("prefix", "")),
        "prefix must not be empty"
    );
}

#[test]
fn unicode_whitespace_at_either_end_is_refused() {
    assert!(validate_query_token("t", "\u{a0}token").is_err());
    assert!(validate_query_token("t", "token\u{2028}").is_err());
    assert!(validate_query_token("t", "to\u{a0}ken").is_ok());
    assert!(validate_subresource("\u{3000}").is_err());
}

#[test]
fn etag_refusals_each_have_their_message() {
    assert_eq!(
        config_message(validate_completed_part_etag("")),
        "completed part etag must not be empty"
    );
    assert_eq!(
        config_message(validate_completed_part_etag(" \"a\"")),
        "completed part etag must not include leading or trailing whitespace"
    );
    assert_eq!(
        config_message(validate_completed_part_etag("\"a\u{7f}\"")),
        "completed part etag must not contain ASCII control or whitespace characters"
    );
    assert_eq!(
        config_message(validate_completed_part_etag("\"abc")),
        "completed part etag must be quoted"
    );
    assert_eq!(
        config_message(validate_completed_part_etag("\"")),
        "completed part etag must be quoted"
    );
    assert_eq!(
        config_message(validate_completed_part_etag("\"\"")),
        "completed part etag must contain a non-empty quoted token"
    );
    assert_eq!(
        config_message(validate_completed_part_etag("\"a\"b\"")),
        "completed part etag must contain a non-empty quoted token"
    );
    assert!(validate_completed_part_etag("\"d41d8cd98f00b204e9800998ecf8427e\"").is_ok());
}

#[test]
fn part_numbers_are_bounded() {
    assert!(validate_upload_part_number(1).is_ok());
    assert!(validate_upload_part_number(10_000).is_ok());
    assert_eq!(
        config_message(validate_upload_part_number(10_001)),
        "part_number must be in the range 1..=10000"
    );
    assert!(validate_upload_part_number(0).is_err());
}

#[test]
fn prepared_parts_prepare_to_themselves() {
    let first = prepare_completed_parts(vec![
        part(3, "\"c\""),
        part(1, "\"a\""),
        part(2, "\"b\""),
    ])
    .unwrap();
    let numbers: Vec<u32> = first.iter().map(|p| p.part_number).collect();
    assert_eq!(numbers, vec![1, 2, 3]);
    let etags: Vec<String> = first.iter().map(|p| p.etag.clone()).collect();
    let again = prepare_completed_parts(first).unwrap();
    let numbers_again: Vec<u32> = again.iter().map(|p| p.part_number).collect();
    let etags_again: Vec<String> = again.iter().map(|p| p.etag.clone()).collect();
    assert_eq!(numbers_again, vec![1, 2, 3]);
    assert_eq!(etags_again, etags);
}

#[test]
fn the_first_invalid_part_is_reported() {
    let r = prepare_completed_parts(vec![part(1, "\"a\""), part(2, "bad"), part(0, "\"c\"")]);
    assert_eq!(config_message(r), "completed part etag must be quoted");
    let r = prepare_completed_parts(vec![part(0, "bad"), part(1, "\"a\"")]);
    assert_eq!(config_message(r), "part_number must be in the range 1..=10000");
}

#[test]
fn repeated_part_numbers_are_reported_after_validation() {
    let r = prepare_completed_parts(vec![part(4, "\"a\""), part(2, "\"b\""), part(4, "\"c\"")]);
    assert_eq!(config_message(r), "completed part numbers must be unique");
    assert_eq!(
        config_message(prepare_completed_parts(Vec::new())),
        "complete_multipart_upload requires at least one completed part"
    );
}

#[test]
fn byte_range_renders_the_full_u64_range() {
    let v = ByteRange::new(0, u64::MAX).header_value("bad range").unwrap();
    assert_eq!(v.to_str().unwrap(), "bytes=0-18446744073709551615");
    let v = ByteRange::new(7, 7).header_value("bad range").unwrap();
    assert_eq!(v.to_str().unwrap(), "bytes=7-7");
    assert_eq!(
        config_message(ByteRange::new(1, 0).header_value("bad range")),
        "byte range start must be <= end_inclusive"
    );
}

#[test]
fn header_value_keeps_its_bytes_and_refuses_control_bytes() {
    let v = header_value("text/plain; charset=utf-8", "bad value").unwrap();
    assert_eq!(v.as_bytes(), b"text/plain; charset=utf-8");
    assert_eq!(config_message(header_value("a\nb", "bad value")), "bad value");
}

#[test]
fn insert_header_replaces_previous_values() {
    let mut headers = HeaderMap::new();
    headers.append("x-test", HeaderValue::from_static("one"));
    headers.append("x-test", HeaderValue::from_static("two"));
    insert_header(
        &mut headers,
        http::header::HeaderName::from_static("x-test"),
        "three",
        "bad",
    )
    .unwrap();
    let values: Vec<&str> = headers
        .get_all("x-test")
        .iter()
        .map(|v| v.to_str().unwrap())
        .collect();
    assert_eq!(values, vec!["three"]);
}

#[test]
fn insert_optional_header_skips_absent_and_sets_present_values() {
    let mut headers = HeaderMap::new();
    insert_optional_header(&mut headers, http::header::CONTENT_TYPE, None, "bad").unwrap();
    assert!(headers.is_empty());
    insert_optional_header(
        &mut headers,
        http::header::CONTENT_TYPE,
        Some("text/plain".to_string()),
        "bad",
    )
    .unwrap();
    assert_eq!(headers.get("content-type").unwrap(), "text/plain");
    let err = insert_optional_header(
        &mut headers,
        http::header::CONTENT_TYPE,
        Some("a\u{1}b".to_string()),
        "bad content type",
    );
    assert_eq!(config_message(err), "bad content type");
    assert_eq!(headers.get("content-type").unwrap(), "text/plain");
}

#[test]
fn metadata_names_are_lower_cased_and_prefixed() {
    let name = metadata_header_name("Trace-ID").unwrap();
    assert_eq!(name.as_str(), "x-amz-meta-trace-id");
    assert_eq!(
        metadata_header_name("OWNER").unwrap(),
        metadata_header_name("owner").unwrap()
    );
    assert_eq!(
        config_message(metadata_header_name("bad key")),
        "metadata keys must be non-empty HTTP header tokens"
    );
    assert!(metadata_header_name("").is_err());
    assert!(metadata_header_name("quote\"d").is_err());
}

#[test]
fn metadata_keeps_headers_that_were_present() {
    let mut headers = HeaderMap::new();
    headers.insert("x-amz-meta-owner", HeaderValue::from_static("alice"));
    headers.insert("content-type", HeaderValue::from_static("text/plain"));
    apply_metadata_headers(
        &mut headers,
        vec![
            ("color".to_string(), "blue".to_string()),
            ("size".to_string(), "large".to_string()),
        ],
    )
    .unwrap();
    assert_eq!(headers.get("x-amz-meta-owner").unwrap(), "alice");
    assert_eq!(headers.get("content-type").unwrap(), "text/plain");
    assert_eq!(headers.get("x-amz-meta-color").unwrap(), "blue");
    assert_eq!(headers.get("x-amz-meta-size").unwrap(), "large");
    assert_eq!(headers.len(), 4);
}

#[test]
fn metadata_stops_at_the_first_refused_entry() {
    let mut headers = HeaderMap::new();
    let err = apply_metadata_headers(
        &mut headers,
        vec![
            ("first".to_string(), "1".to_string()),
            ("second".to_string(), "bad\nvalue".to_string()),
            ("third".to_string(), "3".to_string()),
        ],
    );
    assert_eq!(config_message(err), "invalid metadata header value");
    assert_eq!(headers.get("x-amz-meta-first").unwrap(), "1");
    assert!(!headers.contains_key("x-amz-meta-second"));
    assert!(!headers.contains_key("x-amz-meta-third"));
}

#[test]
fn copy_without_replacement_leaves_headers_alone() {
    let mut headers = HeaderMap::new();
    headers.insert("x-amz-copy-source", HeaderValue::from_static("/bucket/key"));
    apply_copy_metadata_headers(&mut headers, false, None, Vec::new()).unwrap();
    assert_eq!(headers.len(), 1);
    assert_eq!(headers.get("x-amz-copy-source").unwrap(), "/bucket/key");
}

#[test]
fn copy_with_refused_content_type_reports_it() {
    let mut headers = HeaderMap::new();
    let err = apply_copy_metadata_headers(
        &mut headers,
        false,
        Some(" text/plain".to_string()),
        vec![("color".to_string(), "blue".to_string())],
    );
    assert_eq!(config_message(err), "invalid Content-Type header");
    assert_eq!(headers.get("x-amz-metadata-directive").unwrap(), "REPLACE");
    assert!(!headers.contains_key("x-amz-meta-color"));
}

#[test]
fn copy_sets_content_type_and_metadata() {
    let mut headers = HeaderMap::new();
    apply_copy_metadata_headers(
        &mut headers,
        false,
        Some("application/json".to_string()),
        vec![("color".to_string(), "blue".to_string())],
    )
    .unwrap();
    assert_eq!(headers.get("x-amz-metadata-directive").unwrap(), "REPLACE");
    assert_eq!(headers.get("content-type").unwrap(), "application/json");
    assert_eq!(headers.get("x-amz-meta-color").unwrap(), "blue");
}

#[test]
fn regions_are_lower_case_names() {
    assert!(validate_region("eu-central-1").is_ok());
    assert!(validate_region("").is_err());
    assert!(validate_region("-eu").is_err());
    assert!(validate_region("eu-").is_err());
    assert!(validate_region("Eu-central-1").is_err());
    assert!(config_message(validate_region("eu_central")).contains("region"));
}

#[test]
fn explicit_default_region_is_kept() {
    assert_eq!(
        create_bucket_location_constraint(Some("us-east-1".to_string()), "eu-west-1").unwrap(),
        Some("us-east-1".to_string())
    );
    assert!(create_bucket_location_constraint(None, "bad region").is_err());
}

#[test]
fn content_length_mismatch_names_the_operation() {
    assert_eq!(
        config_message(validate_content_length_matches_body(Some(0), 1, "upload_part")),
        "upload_part content_length must match the byte body length"
    );
    assert_eq!(validate_content_length_matches_body(None, 0, "x").unwrap(), 0);
}

#[test]
fn error_documents_are_recognised_with_their_fields() {
    let body = "<?xml version=\"1.0\"?><Error><Code>NoSuchKey</Code><Message>The key does not exist</Message><RequestId>abc</RequestId></Error>";
    let doc = parse_error_xml(body).unwrap();
    assert_eq!(doc.code.as_deref(), Some("NoSuchKey"));
    assert_eq!(doc.message.as_deref(), Some("The key does not exist"));
    assert_eq!(doc.request_id.as_deref(), Some("abc"));
    assert!(parse_error_xml("<ListBucketResult></ListBucketResult>").is_none());
    assert!(parse_error_xml("<Error><Code>X</Code>").is_none());
    let doc = parse_error_xml("<Error></Error>").unwrap();
    assert!(doc.code.is_none() && doc.message.is_none() && doc.request_id.is_none());
}

#[test]
fn request_id_falls_back_to_the_header() {
    let mut headers = HeaderMap::new();
    headers.insert("x-amz-request-id", HeaderValue::from_static("from-header"));
    match response_error_from_status(StatusCode::FORBIDDEN, &headers, "<Error><Code>AccessDenied</Code></Error>") {
        Error::Api {
            status,
            code,
            service_message,
            request_id,
        } => {
            assert_eq!(status, StatusCode::FORBIDDEN);
            assert_eq!(code.as_deref(), Some("AccessDenied"));
            assert!(service_message.is_none());
            assert_eq!(request_id.as_deref(), Some("from-header"));
        }
        other => panic!("expected Api error, got {other:?}"),
    }
    match response_error_from_status(
        StatusCode::FORBIDDEN,
        &headers,
        "<Error><RequestId>from-body</RequestId></Error>",
    ) {
        Error::Api { request_id, .. } => assert_eq!(request_id.as_deref(), Some("from-body")),
        other => panic!("expected Api error, got {other:?}"),
    }
}

#[test]
fn parse_results_pass_through_and_other_failures_stay() {
    let ok = parse_xml_or_service_error(StatusCode::OK, &HeaderMap::new(), "<R>7</R>", |b| {
        Ok(b.len())
    });
    assert_eq!(ok.unwrap(), 8);
    let err = parse_xml_or_service_error::<()>(StatusCode::OK, &HeaderMap::new(), "<R>", |_| {
        Err(Error::decode("broken", None))
    });
    match err {
        Err(Error::Decode { message, .. }) => assert_eq!(message, "broken"),
        other => panic!("expected Decode error, got {other:?}"),
    }
}

#[test]
fn response_bodies_must_be_utf8() {
    assert_eq!(decode_utf8_response_body("h\u{e9}".as_bytes()).unwrap(), "h\u{e9}");
    match decode_utf8_response_body(&[0x66, 0xff]) {
        Err(Error::Decode { message, .. }) => assert_eq!(message, "response body is not valid UTF-8"),
        other => panic!("expected Decode error, got {other:?}"),
    }
    let r = parse_async_xml_response(
        StatusCode::NOT_FOUND,
        HeaderMap::new(),
        b"<Error><Code>NoSuchBucket</Code></Error>".to_vec(),
        |_| Err::<(), _>(Error::decode("not a listing", None)),
    );
    match r {
        Err(Error::Api { status, code, .. }) => {
            assert_eq!(status, StatusCode::NOT_FOUND);
            assert_eq!(code.as_deref(), Some("NoSuchBucket"));
        }
        other => panic!("expected Api error, got {other:?}"),
    }
    let r = parse_async_xml_response(StatusCode::OK, HeaderMap::new(), vec![0xc3], |_| Ok(()));
    assert!(matches!(r, Err(Error::Decode { .. })));
}
