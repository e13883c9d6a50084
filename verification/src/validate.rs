//! Validation of request arguments: listing limits, part numbers, query
//! tokens and values, sub-resources, upload ids and part ETags.

use crate::error::{is_invalid_config, Error};
use crate::text::{
    any_control, any_control_or_whitespace, differs_from_trimmed, has_control_byte,
    has_control_or_whitespace_byte, trim,
};
use vstd::prelude::*;
use vstd::string::StringSliceAdditionalSpecFns;
use vstd::utf8::encode_utf8;

verus! {

/// The largest `max-keys` a listing may ask for.
pub const MAX_LIST_OBJECTS_KEYS: u32 = 1000;

/// The largest `max-parts` a part listing may ask for.
pub const MAX_LIST_PARTS: u32 = 1000;

/// The largest part number of a multipart upload.
pub const MAX_UPLOAD_PART_NUMBER: u32 = 10000;

/// A function that either accepts (`Ok(())`) or refuses with a configuration
/// error whose message is the one `expected` names.
pub open spec fn answers(r: Result<(), Error>, expected: Option<Seq<char>>) -> bool {
    match expected {
        None => r is Ok,
        Some(m) => r matches Err(e) && is_invalid_config(e, m),
    }
}

pub fn validate_max_keys(max_keys: u32) -> (r: Result<(), Error>)
    ensures
        r is Ok <==> 1 <= max_keys <= MAX_LIST_OBJECTS_KEYS,
        answers(
            r,
            if 1 <= max_keys <= MAX_LIST_OBJECTS_KEYS {
                None
            } else {
                Some("max_keys must be in the range 1..=1000"@)
            },
        ),
{
    if max_keys == 0 || max_keys > MAX_LIST_OBJECTS_KEYS {
        return Err(Error::invalid_config("max_keys must be in the range 1..=1000"));
    }
    Ok(())
}

pub fn validate_max_parts(max_parts: u32) -> (r: Result<(), Error>)
    ensures
        r is Ok <==> 1 <= max_parts <= MAX_LIST_PARTS,
        answers(
            r,
            if 1 <= max_parts <= MAX_LIST_PARTS {
                None
            } else {
                Some("max_parts must be in the range 1..=1000"@)
            },
        ),
{
    if max_parts == 0 || max_parts > MAX_LIST_PARTS {
        return Err(Error::invalid_config("max_parts must be in the range 1..=1000"));
    }
    Ok(())
}

pub fn validate_part_number_marker(part_number_marker: u32) -> (r: Result<(), Error>)
    ensures
        r is Ok <==> 1 <= part_number_marker <= MAX_UPLOAD_PART_NUMBER,
        answers(
            r,
            if 1 <= part_number_marker <= MAX_UPLOAD_PART_NUMBER {
                None
            } else {
                Some("part_number_marker must be in the range 1..=10000"@)
            },
        ),
{
    if part_number_marker == 0 || part_number_marker > MAX_UPLOAD_PART_NUMBER {
        return Err(Error::invalid_config("part_number_marker must be in the range 1..=10000"));
    }
    Ok(())
}

/// Why a part number is refused, if it is.
pub open spec fn upload_part_number_error(part_number: u32) -> Option<Seq<char>> {
    if 1 <= part_number <= MAX_UPLOAD_PART_NUMBER {
        None
    } else {
        Some("part_number must be in the range 1..=10000"@)
    }
}

pub fn validate_upload_part_number(part_number: u32) -> (r: Result<(), Error>)
    ensures
        r is Ok <==> 1 <= part_number <= MAX_UPLOAD_PART_NUMBER,
        answers(r, upload_part_number_error(part_number)),
{
    if part_number == 0 || part_number > MAX_UPLOAD_PART_NUMBER {
        return Err(Error::invalid_config("part_number must be in the range 1..=10000"));
    }
    Ok(())
}

/// Why a value is refused as a query token (a continuation token, an upload
/// id, ...), if it is: it must be non-empty, have no whitespace at either
/// end, and hold no ASCII control or whitespace byte.
pub open spec fn query_token_error(name: Seq<char>, value: Seq<char>) -> Option<Seq<char>> {
    if value.len() == 0 {
        Some(name + " must not be empty"@)
    } else if trim(value) != value {
        Some(name + " must not include leading or trailing whitespace"@)
    } else if any_control_or_whitespace(encode_utf8(value)) {
        Some(name + " must not contain ASCII control or whitespace characters"@)
    } else {
        None
    }
}

pub fn validate_query_token(name: &'static str, value: &str) -> (r: Result<(), Error>)
    ensures
        answers(r, query_token_error(name@, value@)),
{
    if value.is_empty() {
        return Err(Error::invalid_config_about(name, " must not be empty"));
    }
    if differs_from_trimmed(value) {
        return Err(Error::invalid_config_about(name, " must not include leading or trailing whitespace"));
    }
    if has_control_or_whitespace_byte(value) {
        return Err(
            Error::invalid_config_about(
                name,
                " must not contain ASCII control or whitespace characters",
            ),
        );
    }
    Ok(())
}

/// Why a value is refused as a free-form query value (such as a prefix), if
/// it is: it must be non-empty and hold no ASCII control byte.
pub open spec fn query_value_error(name: Seq<char>, value: Seq<char>) -> Option<Seq<char>> {
    if value.len() == 0 {
        Some(name + " must not be empty"@)
    } else if any_control(encode_utf8(value)) {
        Some(name + " must not contain ASCII control characters"@)
    } else {
        None
    }
}

pub fn validate_query_value(name: &'static str, value: &str) -> (r: Result<(), Error>)
    ensures
        answers(r, query_value_error(name@, value@)),
{
    if value.is_empty() {
        return Err(Error::invalid_config_about(name, " must not be empty"));
    }
    if has_control_byte(value) {
        return Err(Error::invalid_config_about(name, " must not contain ASCII control characters"));
    }
    Ok(())
}

pub fn validate_upload_id(upload_id: &str) -> (r: Result<(), Error>)
    ensures
        answers(r, query_token_error("upload_id"@, upload_id@)),
{
    validate_query_token("upload_id", upload_id)
}

/// Why a sub-resource name is refused, if it is.
pub open spec fn subresource_error(subresource: Seq<char>) -> Option<Seq<char>> {
    if subresource.len() == 0 {
        Some("subresource must not be empty"@)
    } else if trim(subresource) != subresource {
        Some("subresource must not include leading or trailing whitespace"@)
    } else if any_control_or_whitespace(encode_utf8(subresource)) {
        Some("subresource must not contain ASCII control or whitespace characters"@)
    } else {
        None
    }
}

pub fn validate_subresource(subresource: &str) -> (r: Result<(), Error>)
    ensures
        answers(r, subresource_error(subresource@)),
{
    if subresource.is_empty() {
        return Err(Error::invalid_config("subresource must not be empty"));
    }
    if differs_from_trimmed(subresource) {
        return Err(
            Error::invalid_config("subresource must not include leading or trailing whitespace"),
        );
    }
    if has_control_or_whitespace_byte(subresource) {
        return Err(
            Error::invalid_config(
                "subresource must not contain ASCII control or whitespace characters",
            ),
        );
    }
    Ok(())
}

/// An ETag as the service hands it out: at least two bytes, the first and the
/// last a double quote.
pub open spec fn is_quoted(bytes: Seq<u8>) -> bool {
    bytes.len() >= 2 && bytes[0] == 0x22u8 && bytes[bytes.len() - 1] == 0x22u8
}

/// The bytes between the quotes: non-empty and free of further quotes.
pub open spec fn has_plain_quoted_token(bytes: Seq<u8>) -> bool {
    let inner = bytes.subrange(1, bytes.len() - 1);
    inner.len() > 0 && forall|i: int| 0 <= i < inner.len() ==> #[trigger] inner[i] != 0x22u8
}

/// Why the ETag of a completed part is refused, if it is.
pub open spec fn completed_part_etag_error(etag: Seq<char>) -> Option<Seq<char>> {
    let bytes = encode_utf8(etag);
    if etag.len() == 0 {
        Some("completed part etag must not be empty"@)
    } else if trim(etag) != etag {
        Some("completed part etag must not include leading or trailing whitespace"@)
    } else if any_control_or_whitespace(bytes) {
        Some("completed part etag must not contain ASCII control or whitespace characters"@)
    } else if !is_quoted(bytes) {
        Some("completed part etag must be quoted"@)
    } else if !has_plain_quoted_token(bytes) {
        Some("completed part etag must contain a non-empty quoted token"@)
    } else {
        None
    }
}

pub fn validate_completed_part_etag(etag: &str) -> (r: Result<(), Error>)
    ensures
        answers(r, completed_part_etag_error(etag@)),
{
    if etag.is_empty() {
        return Err(Error::invalid_config("completed part etag must not be empty"));
    }
    if differs_from_trimmed(etag) {
        return Err(
            Error::invalid_config(
                "completed part etag must not include leading or trailing whitespace",
            ),
        );
    }
    if has_control_or_whitespace_byte(etag) {
        return Err(
            Error::invalid_config(
                "completed part etag must not contain ASCII control or whitespace characters",
            ),
        );
    }
    let bytes = etag.as_bytes();
    let len = bytes.len();
    if len < 2 || bytes[0] != 0x22u8 || bytes[len - 1] != 0x22u8 {
        return Err(Error::invalid_config("completed part etag must be quoted"));
    }
    let ghost inner = bytes@.subrange(1, len - 1);
    if len == 2 {
        assert(inner.len() == 0);
        return Err(
            Error::invalid_config("completed part etag must contain a non-empty quoted token"),
        );
    }
    let mut i: usize = 1;
    while i < len - 1
        invariant
            bytes@ == etag.spec_bytes(),
            len == bytes@.len(),
            len > 2,
            inner == bytes@.subrange(1, len - 1),
            etag@.len() != 0,
            trim(etag@) == etag@,
            !any_control_or_whitespace(bytes@),
            is_quoted(bytes@),
            1 <= i <= len - 1,
            forall|k: int| 0 <= k < i - 1 ==> #[trigger] inner[k] != 0x22u8,
        decreases len - 1 - i,
    {
        if bytes[i] == 0x22u8 {
            assert(inner[i - 1] == 0x22u8);
            return Err(
                Error::invalid_config("completed part etag must contain a non-empty quoted token"),
            );
        }
        i = i + 1;
    }
    Ok(())
}

/// The length of a request body, refused when a configured content length
/// disagrees with it.
pub fn validate_content_length_matches_body(
    configured: Option<u64>,
    body_len: usize,
    context: &'static str,
) -> (r: Result<u64, Error>)
    ensures
        match configured {
            Some(c) if c != body_len => r matches Err(e) && is_invalid_config(
                e,
                context@ + " content_length must match the byte body length"@,
            ),
            _ => r == Ok::<u64, Error>(body_len as u64),
        },
{
    let body_len = body_len as u64;
    if let Some(configured) = configured {
        if configured != body_len {
            return Err(
                Error::invalid_config_about(
                    context,
                    " content_length must match the byte body length",
                ),
            );
        }
    }
    Ok(body_len)
}

} // verus!
