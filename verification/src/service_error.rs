//! Recognising the service's error documents in response bodies, and turning
//! them into API errors.

use crate::error::{is_decode_error, Error};
use crate::http_items::{
    all_visible_ascii, header_map_entries, header_map_get, header_name_from_lowercase, header_value_to_str,
    is_lowercase_header_name, str_from_utf8,
};
use crate::search::{find_from, first_occurrence};
use http::{HeaderMap, StatusCode};
use vstd::prelude::*;
use vstd::string::{is_ascii_spec_bytes, StringSliceAdditionalSpecFns};
use vstd::utf8::{decode_utf8, encode_utf8, valid_utf8};

verus! {

/// The fields of an error document that an API error reports.
#[derive(Debug)]
pub struct ErrorDocument {
    pub code: Option<String>,
    pub message: Option<String>,
    pub request_id: Option<String>,
}

/// The bytes between the first `open` of `body` and the first `close` after
/// it, if both are there.
pub open spec fn element_text(body: Seq<u8>, open: Seq<u8>, close: Seq<u8>) -> Option<Seq<u8>> {
    match first_occurrence(body, open, 0) {
        Some(i) => match first_occurrence(body, close, i + open.len()) {
            Some(j) => Some(body.subrange(i + open.len(), j)),
            None => None,
        },
        None => None,
    }
}

/// The text between the first `open` tag and the next `close` tag, when both
/// are there and the text is valid UTF-8.
pub open spec fn field_text(body: Seq<u8>, open: Seq<char>, close: Seq<char>) -> Option<Seq<u8>> {
    match element_text(body, encode_utf8(open), encode_utf8(close)) {
        Some(t) => if valid_utf8(t) {
            Some(t)
        } else {
            None
        },
        None => None,
    }
}

/// A body is an error document when it holds an `<Error>...</Error>` element.
pub open spec fn is_error_document(body: Seq<u8>) -> bool {
    element_text(body, encode_utf8("<Error>"@), encode_utf8("</Error>"@)) is Some
}

/// An optional string holds exactly the given optional bytes.
pub open spec fn text_is(s: Option<String>, bytes: Option<Seq<u8>>) -> bool {
    match (s, bytes) {
        (Some(t), Some(b)) => encode_utf8(t@) == b,
        (None, None) => true,
        _ => false,
    }
}

pub open spec fn document_of(d: ErrorDocument, body: Seq<u8>) -> bool {
    &&& text_is(d.code, field_text(body, "<Code>"@, "</Code>"@))
    &&& text_is(d.message, field_text(body, "<Message>"@, "</Message>"@))
    &&& text_is(d.request_id, field_text(body, "<RequestId>"@, "</RequestId>"@))
}

fn element_bytes<'a>(body: &'a [u8], open: &[u8], close: &[u8]) -> (r: Option<&'a [u8]>)
    requires
        open@.len() > 0,
        close@.len() > 0,
    ensures
        match r {
            Some(t) => element_text(body@, open@, close@) == Some(t@),
            None => element_text(body@, open@, close@) is None,
        },
{
    let body_len = body.len();
    match find_from(body, open, 0) {
        None => None,
        Some(i) => {
            assert(crate::search::is_first_occurrence(body@, open@, 0, i as int));
            assert(i + open@.len() <= body_len);
            let start = i + open.len();
            match find_from(body, close, start) {
                None => None,
                Some(j) => {
                    assert(crate::search::is_first_occurrence(body@, close@, start as int, j as int));
                    Some(&body[start..j])
                },
            }
        },
    }
}

fn field(body: &[u8], open: &str, close: &str) -> (r: Option<String>)
    requires
        open@.len() > 0,
        close@.len() > 0,
    ensures
        text_is(r, field_text(body@, open@, close@)),
{
    let open_bytes = open.as_bytes();
    let close_bytes = close.as_bytes();
    proof {
        vstd::utf8::encode_utf8_first_scalar(open@);
        vstd::utf8::encode_utf8_first_scalar(close@);
    }
    match element_bytes(body, open_bytes, close_bytes) {
        None => None,
        Some(t) => match str_from_utf8(t) {
            Ok(s) => Some(String::from_str(s)),
            Err(_) => None,
        },
    }
}


/// The bytes of a non-empty literal, such as a tag.
fn literal_bytes(text: &str) -> (r: &[u8])
    requires
        text@.len() > 0,
    ensures
        r@ == encode_utf8(text@),
        r@.len() > 0,
{
    proof {
        vstd::utf8::encode_utf8_first_scalar(text@);
    }
    text.as_bytes()
}

/// The error document that `body` holds, if it holds one.
pub fn parse_error_xml(body: &str) -> (r: Option<ErrorDocument>)
    ensures
        r is Some <==> is_error_document(body.spec_bytes()),
        r matches Some(d) ==> document_of(d, body.spec_bytes()),
{
    proof {
        reveal_strlit("<Error>");
        reveal_strlit("</Error>");
        reveal_strlit("<Code>");
        reveal_strlit("</Code>");
        reveal_strlit("<Message>");
        reveal_strlit("</Message>");
        reveal_strlit("<RequestId>");
        reveal_strlit("</RequestId>");
    }
    let b = body.as_bytes();
    match element_bytes(b, literal_bytes("<Error>"), literal_bytes("</Error>")) {
        None => None,
        Some(_) => Some(
            ErrorDocument {
                code: field(b, "<Code>", "</Code>"),
                message: field(b, "<Message>", "</Message>"),
                request_id: field(b, "<RequestId>", "</RequestId>"),
            },
        ),
    }
}

/// The header in which the service repeats the request id.
pub open spec fn request_id_header() -> Seq<u8> {
    encode_utf8("x-amz-request-id"@)
}

/// The request id that the headers carry, when its first value is text.
pub open spec fn header_request_id(entries: Map<Seq<u8>, Seq<Seq<u8>>>) -> Option<Seq<u8>> {
    if entries.dom().contains(request_id_header()) && all_visible_ascii(
        entries[request_id_header()][0],
    ) {
        Some(entries[request_id_header()][0])
    } else {
        None
    }
}

/// `e` is the API error for a response of `status` with `headers` and
/// `body`: it carries the status, the code and message of the body's error
/// document, and the request id of the document or, failing that, of the
/// headers.
pub open spec fn is_api_error_for(e: Error, status: StatusCode, headers: HeaderMap, body: Seq<u8>) -> bool {
    e matches Error::Api { status: s, code, service_message, request_id } && {
        &&& s == status
        &&& text_is(code, field_text(body, "<Code>"@, "</Code>"@))
        &&& text_is(service_message, field_text(body, "<Message>"@, "</Message>"@))
        &&& text_is(
            request_id,
            match field_text(body, "<RequestId>"@, "</RequestId>"@) {
                Some(t) => Some(t),
                None => header_request_id(header_map_entries(headers)),
            },
        )
    }
}

/// The API error for a response of `status` with `headers` and `body`.
pub fn response_error_from_status(status: StatusCode, headers: &HeaderMap, body: &str) -> (e: Error)
    ensures
        is_api_error_for(e, status, *headers, body.spec_bytes()),
{
    proof {
        reveal_strlit("<Code>");
        reveal_strlit("</Code>");
        reveal_strlit("<Message>");
        reveal_strlit("</Message>");
        reveal_strlit("<RequestId>");
        reveal_strlit("</RequestId>");
        reveal_strlit("x-amz-request-id");
        is_ascii_spec_bytes("x-amz-request-id");
    }
    let b = body.as_bytes();
    let code = field(b, "<Code>", "</Code>");
    let service_message = field(b, "<Message>", "</Message>");
    let request_id = match field(b, "<RequestId>", "</RequestId>") {
        Some(id) => Some(id),
        None => {
            assert(is_lowercase_header_name(request_id_header()));
            let name = header_name_from_lowercase(literal_bytes("x-amz-request-id")).unwrap();
            match header_map_get(headers, &name) {
                None => None,
                Some(v) => match header_value_to_str(v) {
                    Ok(text) => Some(String::from_str(text)),
                    Err(_) => None,
                },
            }
        },
    };
    Error::Api { status, code, service_message, request_id }
}

/// What a response comes to once its body has been handed to a parser that
/// returned `parsed`: the parsed value; or, when parsing failed and the body
/// is an error document, the API error it describes; or the parser's error.
pub open spec fn service_answer<T>(
    parsed: Result<T, Error>,
    r: Result<T, Error>,
    status: StatusCode,
    headers: HeaderMap,
    body: Seq<u8>,
) -> bool {
    match parsed {
        Ok(v) => r == Ok::<T, Error>(v),
        Err(pe) => if is_error_document(body) {
            r matches Err(e) && is_api_error_for(e, status, headers, body)
        } else {
            r == Err::<T, Error>(pe)
        },
    }
}

/// Parses a response body with `parse`; when that fails on a body that is
/// an error document, the service's error is reported instead.
pub fn parse_xml_or_service_error<T>(
    status: StatusCode,
    headers: &HeaderMap,
    body: &str,
    parse: impl FnOnce(&str) -> Result<T, Error>,
) -> (r: Result<T, Error>)
    requires
        call_requires(parse, (body,)),
    ensures
        exists|parsed: Result<T, Error>|
            call_ensures(parse, (body,), parsed) && service_answer(
                parsed,
                r,
                status,
                *headers,
                body.spec_bytes(),
            ),
{
    let parsed = parse(body);
    let r = match parsed {
        Ok(value) => Ok(value),
        Err(parse_error) => {
            if parse_error_xml(body).is_some() {
                Err(response_error_from_status(status, headers, body))
            } else {
                Err(parse_error)
            }
        },
    };
    assert(call_ensures(parse, (body,), parsed));
    assert(service_answer(parsed, r, status, *headers, body.spec_bytes()));
    r
}

pub open spec fn invalid_body_message() -> Seq<char> {
    "response body is not valid UTF-8"@
}

/// The text of a response body, which must be valid UTF-8.
pub fn decode_utf8_response_body(body: &[u8]) -> (r: Result<&str, Error>)
    ensures
        r is Ok <==> valid_utf8(body@),
        r matches Ok(s) ==> s.spec_bytes() == body@ && s@ == decode_utf8(body@),
        r matches Err(e) ==> is_decode_error(e, invalid_body_message()),
{
    match str_from_utf8(body) {
        Ok(s) => Ok(s),
        Err(_) => Err(Error::decode("response body is not valid UTF-8", None)),
    }
}

/// Parses the parts of a response (its status, headers and body bytes): the
/// body is decoded as UTF-8 and then parsed as `parse_xml_or_service_error`
/// does.
pub fn parse_async_xml_response<T>(
    status: StatusCode,
    headers: HeaderMap,
    body: Vec<u8>,
    parse: impl FnOnce(&str) -> Result<T, Error>,
) -> (r: Result<T, Error>)
    requires
        forall|text: &str| call_requires(parse, (text,)),
    ensures
        !valid_utf8(body@) ==> (r matches Err(e) && is_decode_error(e, invalid_body_message())),
        valid_utf8(body@) ==> exists|text: &str, parsed: Result<T, Error>|
            text.spec_bytes() == body@ && #[trigger] call_ensures(parse, (text,), parsed)
                && service_answer(parsed, r, status, headers, body@),
{
    let text = match decode_utf8_response_body(body.as_slice()) {
        Ok(text) => text,
        Err(e) => return Err(e),
    };
    parse_xml_or_service_error(status, &headers, text, parse)
}

} // verus!
