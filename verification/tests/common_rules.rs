use http::{HeaderMap, HeaderValue, StatusCode};
use s3_api_common::bucket::create_bucket_location_constraint;
use s3_api_common::byte_range::ByteRange;
use s3_api_common::error::Error;
use s3_api_common::header_ops::{
    apply_copy_metadata_headers, apply_metadata_headers, insert_optional_header,
};
use s3_api_common::parts::{prepare_completed_parts, CompletedPart};
use s3_api_common::service_error::parse_xml_or_service_error;
use s3_api_common::validate::{
    validate_content_length_matches_body, validate_max_keys, validate_max_parts,
    validate_part_number_marker, validate_query_token, validate_query_value, validate_subresource,
    validate_upload_id,
};

#[test]
fn create_bucket_location_constraint_defaults_to_client_region() {
    assert_eq!(
        create_bucket_location_constraint(None, "ap-southeast-1").unwrap(),
        Some("ap-southeast-1".to_string())
    );
}

#[test]
fn create_bucket_location_constraint_skips_us_east_1_by_default() {
    assert_eq!(
        create_bucket_location_constraint(None, "us-east-1").unwrap(),
        None
    );
    assert!(create_bucket_location_constraint(None, "US-EAST-1").is_err());
}

#[test]
fn create_bucket_location_constraint_respects_explicit_value() {
    assert_eq!(
        create_bucket_location_constraint(Some("eu-west-1".to_string()), "us-east-1").unwrap(),
        Some("eu-west-1".to_string())
    );
}

#[test]
fn create_bucket_location_constraint_rejects_invalid_explicit_value() {
    let err = create_bucket_location_constraint(Some("eu west 1".to_string()), "us-east-1")
        .expect_err("invalid explicit location constraint must be rejected");
    match err {
        Error::InvalidConfig { message } => assert!(message.contains("region")),
        other => panic!("expected InvalidConfig, got {other:?}"),
    }
}

#[test]
fn validate_content_length_matches_byte_body() {
    assert_eq!(
        validate_content_length_matches_body(None, 3, "put_object").unwrap(),
        3
    );
    assert_eq!(
        validate_content_length_matches_body(Some(3), 3, "put_object").unwrap(),
        3
    );
    let err = validate_content_length_matches_body(Some(4), 3, "put_object")
        .expect_err("mismatched content length must be rejected");
    match err {
        Error::InvalidConfig { message } => assert!(message.contains("content_length")),
        other => panic!("expected InvalidConfig, got {other:?}"),
    }
}

#[test]
fn validate_max_keys_accepts_range_and_rejects_out_of_range() {
    assert!(validate_max_keys(1).is_ok());
    assert!(validate_max_keys(1_000).is_ok());
    assert!(validate_max_keys(0).is_err());
    assert!(validate_max_keys(1_001).is_err());
}

#[test]
fn validate_max_parts_accepts_range_and_rejects_out_of_range() {
    assert!(validate_max_parts(1).is_ok());
    assert!(validate_max_parts(1_000).is_ok());
    assert!(validate_max_parts(0).is_err());
    assert!(validate_max_parts(1_001).is_err());
}

#[test]
fn validate_part_number_marker_accepts_range_and_rejects_out_of_range() {
    assert!(validate_part_number_marker(1).is_ok());
    assert!(validate_part_number_marker(10_000).is_ok());
    assert!(validate_part_number_marker(0).is_err());
    assert!(validate_part_number_marker(10_001).is_err());
}

#[test]
fn byte_range_rejects_reversed_bounds() {
    let err = ByteRange::new(10, 9)
        .header_value("invalid Range header")
        .expect_err("reversed byte range should be rejected");

    match err {
        Error::InvalidConfig { message } => assert!(message.contains("byte range")),
        other => panic!("expected InvalidConfig, got {other:?}"),
    }
}

#[test]
fn byte_range_formats_http_header_value() {
    let value = ByteRange::new(3, 9)
        .header_value("invalid Range header")
        .expect("range should be valid");
    assert_eq!(value.to_str().ok(), Some("bytes=3-9"));
}

#[test]
fn insert_optional_header_rejects_empty_or_outer_whitespace() {
    for value in ["", " text/plain", "text/plain "] {
        let mut headers = HeaderMap::new();
        let err = insert_optional_header(
            &mut headers,
            http::header::CONTENT_TYPE,
            Some(value.to_string()),
            "invalid Content-Type header",
        )
        .expect_err("ambiguous header values must be rejected");

        match err {
            Error::InvalidConfig { message } => {
                assert!(message.contains("Content-Type"));
                assert!(headers.is_empty());
            }
            other => panic!("expected InvalidConfig, got {other:?}"),
        }
    }
}

#[test]
fn prepare_completed_parts_sorts_and_validates_parts() {
    let parts = prepare_completed_parts(vec![
        CompletedPart {
            part_number: 2,
            etag: "\"etag-2\"".to_string(),
        },
        CompletedPart {
            part_number: 1,
            etag: "\"etag-1\"".to_string(),
        },
    ])
    .expect("parts should be valid");

    assert_eq!(parts[0].part_number, 1);
    assert_eq!(parts[1].part_number, 2);
}

#[test]
fn prepare_completed_parts_rejects_invalid_parts() {
    assert!(prepare_completed_parts(Vec::new()).is_err());
    assert!(
        prepare_completed_parts(vec![CompletedPart {
            part_number: 0,
            etag: "etag".to_string(),
        }])
        .is_err()
    );
    assert!(
        prepare_completed_parts(vec![CompletedPart {
            part_number: 1,
            etag: " ".to_string(),
        }])
        .is_err()
    );
    assert!(
        prepare_completed_parts(vec![CompletedPart {
            part_number: 1,
            etag: " etag".to_string(),
        }])
        .is_err()
    );
    assert!(
        prepare_completed_parts(vec![CompletedPart {
            part_number: 1,
            etag: "etag".to_string(),
        }])
        .is_err()
    );
    assert!(
        prepare_completed_parts(vec![CompletedPart {
            part_number: 1,
            etag: "\"et ag\"".to_string(),
        }])
        .is_err()
    );
    assert!(
        prepare_completed_parts(vec![CompletedPart {
            part_number: 1,
            etag: "\"\"".to_string(),
        }])
        .is_err()
    );
    assert!(
        prepare_completed_parts(vec![CompletedPart {
            part_number: 1,
            etag: "\"bad\"etag\"".to_string(),
        }])
        .is_err()
    );
    assert!(
        prepare_completed_parts(vec![
            CompletedPart {
                part_number: 1,
                etag: "\"etag-1\"".to_string(),
            },
            CompletedPart {
                part_number: 1,
                etag: "\"etag-duplicate\"".to_string(),
            },
        ])
        .is_err()
    );
}

#[test]
fn validate_upload_id_rejects_outer_whitespace() {
    assert!(validate_upload_id("").is_err());
    assert!(validate_upload_id(" upload-id").is_err());
    assert!(validate_upload_id("upload-id ").is_err());
    assert!(validate_upload_id("upload id").is_err());
    assert!(validate_upload_id("upload\nid").is_err());
    assert!(validate_upload_id("upload-id").is_ok());
}

#[test]
fn validate_query_token_rejects_ambiguous_values() {
    assert!(validate_query_token("continuation_token", "").is_err());
    assert!(validate_query_token("continuation_token", " token").is_err());
    assert!(validate_query_token("continuation_token", "token ").is_err());
    assert!(validate_query_token("continuation_token", "tok en").is_err());
    assert!(validate_query_token("continuation_token", "tok\nen").is_err());
    assert!(validate_query_token("continuation_token", "opaque/token+id=").is_ok());
}

#[test]
fn validate_query_value_rejects_ambiguous_values() {
    validate_query_value("prefix", "photos/2026 ").unwrap();

    for value in ["", "line\nbreak", "bad\u{7f}"] {
        let err = validate_query_value("prefix", value).expect_err("expected invalid query");
        match err {
            Error::InvalidConfig { .. } => {}
            other => panic!("expected InvalidConfig, got {other:?}"),
        }
    }
}

#[test]
fn validate_subresource_rejects_blank_values() {
    assert!(validate_subresource("versioning").is_ok());
    assert!(validate_subresource("").is_err());
    assert!(validate_subresource("   ").is_err());
    assert!(validate_subresource(" versioning").is_err());
    assert!(validate_subresource("versioning ").is_err());
    assert!(validate_subresource("bucket versioning").is_err());
    assert!(validate_subresource("versioning\n").is_err());
}

#[test]
fn apply_metadata_headers_writes_expected_headers() {
    let mut headers = HeaderMap::new();
    apply_metadata_headers(
        &mut headers,
        vec![
            ("owner".to_string(), "alice".to_string()),
            ("trace-id".to_string(), "abc-123".to_string()),
        ],
    )
    .expect("metadata should map to headers");

    assert_eq!(
        headers
            .get("x-amz-meta-owner")
            .and_then(|v| v.to_str().ok()),
        Some("alice")
    );
    assert_eq!(
        headers
            .get("x-amz-meta-trace-id")
            .and_then(|v| v.to_str().ok()),
        Some("abc-123")
    );
}

#[test]
fn apply_metadata_headers_rejects_duplicate_keys_after_normalization() {
    let mut headers = HeaderMap::new();
    let err = apply_metadata_headers(
        &mut headers,
        vec![
            ("Owner".to_string(), "alice".to_string()),
            ("owner".to_string(), "bob".to_string()),
        ],
    )
    .expect_err("metadata keys normalize to the same header");

    match err {
        Error::InvalidConfig { message } => assert!(message.contains("unique")),
        other => panic!("expected InvalidConfig, got {other:?}"),
    }
}

#[test]
fn apply_metadata_headers_rejects_existing_header_collision() {
    let mut headers = HeaderMap::new();
    headers.insert("x-amz-meta-owner", HeaderValue::from_static("alice"));
    let err =
        apply_metadata_headers(&mut headers, vec![("owner".to_string(), "bob".to_string())])
            .expect_err("metadata must not overwrite existing headers");

    match err {
        Error::InvalidConfig { message } => assert!(message.contains("unique")),
        other => panic!("expected InvalidConfig, got {other:?}"),
    }
}

#[test]
fn copy_metadata_headers_only_replace_when_requested_or_overridden() {
    let mut headers = HeaderMap::new();
    apply_copy_metadata_headers(&mut headers, false, None, Vec::new())
        .expect("empty copy metadata should be valid");
    assert!(!headers.contains_key("x-amz-metadata-directive"));

    let mut headers = HeaderMap::new();
    apply_copy_metadata_headers(&mut headers, true, None, Vec::new())
        .expect("explicit metadata replacement should be valid");
    assert_eq!(
        headers
            .get("x-amz-metadata-directive")
            .and_then(|v| v.to_str().ok()),
        Some("REPLACE")
    );

    let mut headers = HeaderMap::new();
    apply_copy_metadata_headers(
        &mut headers,
        false,
        Some("text/plain".to_string()),
        Vec::new(),
    )
    .expect("content type override should be valid");
    assert_eq!(
        headers
            .get("x-amz-metadata-directive")
            .and_then(|v| v.to_str().ok()),
        Some("REPLACE")
    );

    let mut headers = HeaderMap::new();
    apply_copy_metadata_headers(
        &mut headers,
        false,
        None,
        vec![("color".to_string(), "blue".to_string())],
    )
    .expect("metadata override should be valid");
    assert_eq!(
        headers
            .get("x-amz-metadata-directive")
            .and_then(|v| v.to_str().ok()),
        Some("REPLACE")
    );
}

#[test]
fn parse_xml_or_service_error_maps_request_id_only_error_payload() {
    let body = "<Error><RequestId>req-only</RequestId></Error>";
    let err = parse_xml_or_service_error::<()>(
        StatusCode::BAD_REQUEST,
        &HeaderMap::new(),
        body,
        |_| Err(Error::decode("failed to parse expected xml", None)),
    )
    .expect_err("request-id-only payload should map to API error");

    match err {
        Error::Api {
            status, request_id, ..
        } => {
            assert_eq!(status, StatusCode::BAD_REQUEST);
            assert_eq!(request_id.as_deref(), Some("req-only"));
        }
        other => panic!("expected Api error, got {other:?}"),
    }
}
