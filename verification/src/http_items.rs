//! What this library relies on from the `http` crate: its header types, the
//! byte contents that they hold, and the few operations that the rules call.
//! Nothing here is proved; each item states what the crate's source shows.

use core::str::Utf8Error;
use http::header::{InvalidHeaderName, InvalidHeaderValue, ToStrError};
use http::{HeaderMap, HeaderName, HeaderValue};
use vstd::prelude::*;
use vstd::string::StringSliceAdditionalSpecFns;
use vstd::utf8::{decode_utf8, valid_utf8};

verus! {

/// Declares `http::HeaderMap`, held opaque; what it holds is `header_map_entries`.
#[verifier::external_type_specification]
#[verifier::external_body]
#[verifier::reject_recursive_types(T)]
pub struct ExHeaderMap<T>(HeaderMap<T>);

/// Declares `http::HeaderValue`, held opaque; its bytes are `header_value_bytes`.
#[verifier::external_type_specification]
#[verifier::external_body]
pub struct ExHeaderValue(HeaderValue);

/// Declares `http::HeaderName`, held opaque; its bytes are `header_name_bytes`.
#[verifier::external_type_specification]
#[verifier::external_body]
pub struct ExHeaderName(HeaderName);

/// Declares the error of `HeaderValue::from_str`.
#[verifier::external_type_specification]
#[verifier::external_body]
pub struct ExInvalidHeaderValue(InvalidHeaderValue);

/// Declares the error of `HeaderName::from_lowercase`.
#[verifier::external_type_specification]
#[verifier::external_body]
pub struct ExInvalidHeaderName(InvalidHeaderName);

/// Declares the error of `HeaderValue::to_str`.
#[verifier::external_type_specification]
#[verifier::external_body]
pub struct ExToStrError(ToStrError);

/// Declares the error of `core::str::from_utf8`.
#[verifier::external_type_specification]
#[verifier::external_body]
pub struct ExUtf8Error(Utf8Error);

/// The bytes that a header value holds.
pub uninterp spec fn header_value_bytes(v: HeaderValue) -> Seq<u8>;

/// The bytes of a header name (always lower case).
pub uninterp spec fn header_name_bytes(n: HeaderName) -> Seq<u8>;

/// What a header map holds: for each name, by its bytes, the values stored
/// under it in order, each by its bytes.
pub uninterp spec fn header_map_entries(m: HeaderMap) -> Map<Seq<u8>, Seq<Seq<u8>>>;

/// A byte that `HeaderValue::from_str` accepts: visible ASCII, tab, or any
/// byte of 128 and above.
pub open spec fn is_header_value_byte(b: u8) -> bool {
    (b >= 32 && b != 127) || b == 9
}

pub open spec fn all_header_value_bytes(bytes: Seq<u8>) -> bool {
    forall|i: int| 0 <= i < bytes.len() ==> is_header_value_byte(#[trigger] bytes[i])
}

/// A byte that `HeaderValue::to_str` accepts: visible ASCII or tab.
pub open spec fn is_visible_ascii_byte(b: u8) -> bool {
    (b >= 32 && b < 127) || b == 9
}

pub open spec fn all_visible_ascii(bytes: Seq<u8>) -> bool {
    forall|i: int| 0 <= i < bytes.len() ==> is_visible_ascii_byte(#[trigger] bytes[i])
}

/// A byte that `HeaderName::from_lowercase` accepts: a lower-case token
/// character, or `"`.
pub open spec fn is_lowercase_name_byte(b: u8) -> bool {
    ||| b == 0x21 || b == 0x22 || b == 0x23 || b == 0x24 || b == 0x25 || b == 0x26 || b == 0x27
    ||| b == 0x2a || b == 0x2b || b == 0x2d || b == 0x2e
    ||| 0x30 <= b <= 0x39
    ||| b == 0x5e || b == 0x5f || b == 0x60
    ||| 0x61 <= b <= 0x7a
    ||| b == 0x7c || b == 0x7e
}

/// The longest header name that the `http` crate accepts.
pub open spec fn max_header_name_len() -> int {
    65535
}

pub open spec fn is_lowercase_header_name(bytes: Seq<u8>) -> bool {
    &&& 1 <= bytes.len() <= max_header_name_len()
    &&& forall|i: int| 0 <= i < bytes.len() ==> is_lowercase_name_byte(#[trigger] bytes[i])
}

/// The most distinct names that a map may hold before an insertion for
/// `HeaderMap::insert` to be sure not to panic. The crate's index table has a
/// power-of-two size of at most 2^15 slots; an insertion first grows the
/// table when it is three quarters full, or, in its collision-defence state,
/// when the names number a fifth of the slots, and panics when growing would
/// pass 2^15. With at most 6552 names neither growth can pass that limit.
pub open spec fn max_header_names_before_insert() -> int {
    6552
}

/// Calls `HeaderValue::from_str`: it succeeds exactly when every byte of the
/// string is accepted, and the value then holds those bytes.
#[verifier::external_body]
pub(crate) fn header_value_from_str(src: &str) -> (r: Result<HeaderValue, InvalidHeaderValue>)
    ensures
        r is Ok <==> all_header_value_bytes(src.spec_bytes()),
        r matches Ok(v) ==> header_value_bytes(v) == src.spec_bytes(),
{
    HeaderValue::from_str(src)
}

/// Calls `HeaderValue::to_str`: it succeeds exactly when every byte is
/// visible ASCII or tab, and then hands back a string of those bytes.
#[verifier::external_body]
pub(crate) fn header_value_to_str(v: &HeaderValue) -> (r: Result<&str, ToStrError>)
    ensures
        r is Ok <==> all_visible_ascii(header_value_bytes(*v)),
        r matches Ok(s) ==> s.spec_bytes() == header_value_bytes(*v),
{
    v.to_str()
}

/// Calls `HeaderName::from_lowercase`: it succeeds exactly when the bytes
/// are a lower-case name of accepted length, and the name then is those bytes.
#[verifier::external_body]
pub(crate) fn header_name_from_lowercase(src: &[u8]) -> (r: Result<HeaderName, InvalidHeaderName>)
    ensures
        r is Ok <==> is_lowercase_header_name(src@),
        r matches Ok(n) ==> header_name_bytes(n) == src@,
{
    HeaderName::from_lowercase(src)
}

/// Calls `HeaderMap::insert`: every value stored under the name is replaced
/// by the one given; the first value that was there, if any, comes back.
#[verifier::external_body]
pub(crate) fn header_map_insert(map: &mut HeaderMap, name: HeaderName, value: HeaderValue) -> (r:
    Option<HeaderValue>)
    requires
        header_map_entries(*old(map)).dom().len() <= max_header_names_before_insert(),
    ensures
        header_map_entries(*final(map)) == header_map_entries(*old(map)).insert(
            header_name_bytes(name),
            seq![header_value_bytes(value)],
        ),
        r is Some <==> header_map_entries(*old(map)).dom().contains(header_name_bytes(name)),
        r matches Some(p) ==> header_value_bytes(p) == header_map_entries(
            *old(map),
        )[header_name_bytes(name)][0],
{
    map.insert(name, value)
}

/// Calls `HeaderMap::contains_key`.
#[verifier::external_body]
pub(crate) fn header_map_contains_key(map: &HeaderMap, name: &HeaderName) -> (r: bool)
    ensures
        r == header_map_entries(*map).dom().contains(header_name_bytes(*name)),
{
    map.contains_key(name)
}

/// Calls `HeaderMap::get`: the first value stored under the name, if any.
#[verifier::external_body]
pub(crate) fn header_map_get<'a>(map: &'a HeaderMap, name: &HeaderName) -> (r: Option<
    &'a HeaderValue,
>)
    ensures
        r is Some <==> header_map_entries(*map).dom().contains(header_name_bytes(*name)),
        r matches Some(v) ==> header_value_bytes(*v) == header_map_entries(
            *map,
        )[header_name_bytes(*name)][0],
{
    map.get(name)
}

/// Calls `core::str::from_utf8`: it succeeds exactly when the bytes are
/// valid UTF-8, and the string then holds the characters they encode.
#[verifier::external_body]
pub(crate) fn str_from_utf8(v: &[u8]) -> (r: Result<&str, Utf8Error>)
    ensures
        r is Ok <==> valid_utf8(v@),
        r matches Ok(s) ==> s@ == decode_utf8(v@) && s.spec_bytes() == v@,
{
    core::str::from_utf8(v)
}

} // verus!
