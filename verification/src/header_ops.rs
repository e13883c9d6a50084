//! Building request headers: single values, optional values, user metadata
//! and the metadata directive of a copy.

use crate::error::{is_invalid_config, Error};
use crate::text::{differs_from_trimmed, trim};
use crate::http_items::{
    all_header_value_bytes, header_map_contains_key, header_map_entries, header_map_insert,
    header_name_bytes, header_name_from_lowercase, header_value_bytes, header_value_from_str,
    is_lowercase_header_name, is_lowercase_name_byte,
    max_header_names_before_insert,
};
use http::{HeaderMap, HeaderName, HeaderValue};
use vstd::prelude::*;
use vstd::string::{is_ascii_spec_bytes, StringSliceAdditionalSpecFns};
use vstd::utf8::encode_utf8;

verus! {

/// The header that tells a copy to take the metadata of the request.
pub open spec fn metadata_directive_name() -> Seq<u8> {
    encode_utf8("x-amz-metadata-directive"@)
}

pub open spec fn content_type_name() -> Seq<u8> {
    encode_utf8("content-type"@)
}

pub open spec fn replace_directive() -> Seq<u8> {
    encode_utf8("REPLACE"@)
}

proof fn lemma_static_names()
    ensures
        is_lowercase_header_name(metadata_directive_name()),
        is_lowercase_header_name(content_type_name()),
        all_header_value_bytes(replace_directive()),
{
    reveal_strlit("x-amz-metadata-directive");
    reveal_strlit("content-type");
    reveal_strlit("REPLACE");
    is_ascii_spec_bytes("x-amz-metadata-directive");
    is_ascii_spec_bytes("content-type");
    is_ascii_spec_bytes("REPLACE");
    assert(is_lowercase_header_name(metadata_directive_name()));
    assert(is_lowercase_header_name(content_type_name()));
    assert(all_header_value_bytes(replace_directive()));
}


/// A header name given as a literal that is known to be a valid lower-case name.
fn lowercase_name(name: &str) -> (n: HeaderName)
    requires
        is_lowercase_header_name(name.spec_bytes()),
    ensures
        header_name_bytes(n) == name.spec_bytes(),
{
    header_name_from_lowercase(name.as_bytes()).unwrap()
}

/// Turns `value` into a header value, refusing with `invalid_message` a value
/// that holds a byte no header value may hold.
pub fn header_value(value: &str, invalid_message: &'static str) -> (r: Result<HeaderValue, Error>)
    ensures
        r is Ok <==> all_header_value_bytes(value.spec_bytes()),
        r matches Ok(v) ==> header_value_bytes(v) == value.spec_bytes(),
        r matches Err(e) ==> is_invalid_config(e, invalid_message@),
{
    match header_value_from_str(value) {
        Ok(v) => Ok(v),
        Err(_) => Err(Error::invalid_config(invalid_message)),
    }
}

/// There is room in `headers` for `extra` more names to be inserted without
/// `HeaderMap::insert` panicking. (A map holds finitely many names; the
/// clause says so for the model.)
pub open spec fn has_room(headers: HeaderMap, extra: int) -> bool {
    &&& header_map_entries(headers).dom().finite()
    &&& header_map_entries(headers).dom().len() + extra <= max_header_names_before_insert() + 1
}

/// `after` is `before` with `name` set to the single value `value`.
pub open spec fn is_set(
    before: Map<Seq<u8>, Seq<Seq<u8>>>,
    after: Map<Seq<u8>, Seq<Seq<u8>>>,
    name: Seq<u8>,
    value: Seq<u8>,
) -> bool {
    after == before.insert(name, seq![value])
}

/// Sets `name` to `value` (replacing what was stored under it), or refuses
/// with `invalid_message` a value no header may hold and leaves the map as it
/// was.
pub fn insert_header(
    headers: &mut HeaderMap,
    name: HeaderName,
    value: &str,
    invalid_message: &'static str,
) -> (r: Result<(), Error>)
    requires
        has_room(*old(headers), 1),
    ensures
        r is Ok <==> all_header_value_bytes(value.spec_bytes()),
        r is Ok ==> is_set(
            header_map_entries(*old(headers)),
            header_map_entries(*final(headers)),
            header_name_bytes(name),
            value.spec_bytes(),
        ),
        r matches Err(e) ==> is_invalid_config(e, invalid_message@) && header_map_entries(
            *final(headers),
        ) == header_map_entries(*old(headers)),
        has_room(*final(headers), 0),
{
    let v = header_value(value, invalid_message)?;
    header_map_insert(headers, name, v);
    Ok(())
}

/// Sets `name` to `value` when a value is given. A given value must be
/// non-empty and free of whitespace at either end, and must be a valid
/// header value; otherwise the call refuses with `invalid_message` and leaves
/// the map as it was.
pub fn insert_optional_header(
    headers: &mut HeaderMap,
    name: HeaderName,
    value: Option<String>,
    invalid_message: &'static str,
) -> (r: Result<(), Error>)
    requires
        has_room(*old(headers), 1),
    ensures
        match value {
            None => r is Ok && header_map_entries(*final(headers)) == header_map_entries(
                *old(headers),
            ),
            Some(v) => if v@.len() > 0 && trim(v@) == v@ && all_header_value_bytes(
                encode_utf8(v@),
            ) {
                r is Ok && is_set(
                    header_map_entries(*old(headers)),
                    header_map_entries(*final(headers)),
                    header_name_bytes(name),
                    encode_utf8(v@),
                )
            } else {
                r matches Err(e) && is_invalid_config(e, invalid_message@) && header_map_entries(
                    *final(headers),
                ) == header_map_entries(*old(headers))
            },
        },
        has_room(*final(headers), 0),
{
    if let Some(value) = value {
        let text = value.as_str();
        if text.is_empty() || differs_from_trimmed(text) {
            return Err(Error::invalid_config(invalid_message));
        }
        insert_header(headers, name, text, invalid_message)?;
    }
    Ok(())
}


/// A byte of an HTTP token (RFC 9110 `tchar`), in either case.
pub open spec fn is_token_byte(b: u8) -> bool {
    ||| b == 0x21 || b == 0x23 || b == 0x24 || b == 0x25 || b == 0x26 || b == 0x27
    ||| b == 0x2a || b == 0x2b || b == 0x2d || b == 0x2e
    ||| 0x30 <= b <= 0x39
    ||| 0x41 <= b <= 0x5a
    ||| b == 0x5e || b == 0x5f || b == 0x60
    ||| 0x61 <= b <= 0x7a
    ||| b == 0x7c || b == 0x7e
}

pub open spec fn ascii_lowercase(b: u8) -> u8 {
    if 0x41 <= b <= 0x5a {
        (b + 32) as u8
    } else {
        b
    }
}

/// The prefix under which user metadata travels.
pub open spec fn metadata_prefix() -> Seq<u8> {
    encode_utf8("x-amz-meta-"@)
}

/// The longest metadata key whose header name the `http` crate accepts.
pub open spec fn max_metadata_key_len() -> int {
    65524
}

/// A metadata key: a non-empty HTTP token short enough for a header name.
pub open spec fn is_metadata_key(key: Seq<char>) -> bool {
    let bytes = encode_utf8(key);
    &&& 1 <= bytes.len() <= max_metadata_key_len()
    &&& forall|i: int| 0 <= i < bytes.len() ==> is_token_byte(#[trigger] bytes[i])
}

/// The header name of a metadata key: the prefix, then the key in lower case,
/// so that keys that differ only in case name the same header.
pub open spec fn metadata_header_bytes(key: Seq<char>) -> Seq<u8> {
    metadata_prefix() + encode_utf8(key).map_values(|b: u8| ascii_lowercase(b))
}

pub open spec fn metadata_key_message() -> Seq<char> {
    "metadata keys must be non-empty HTTP header tokens"@
}

proof fn lemma_metadata_prefix()
    ensures
        metadata_prefix().len() == 11,
        forall|i: int| 0 <= i < 11 ==> is_lowercase_name_byte(#[trigger] metadata_prefix()[i]),
{
    reveal_strlit("x-amz-meta-");
    is_ascii_spec_bytes("x-amz-meta-");
}

/// The header name that carries the metadata entry `key`.
pub fn metadata_header_name(key: &str) -> (r: Result<HeaderName, Error>)
    ensures
        r is Ok <==> is_metadata_key(key@),
        r matches Ok(n) ==> header_name_bytes(n) == metadata_header_bytes(key@),
        r matches Err(e) ==> is_invalid_config(e, metadata_key_message()),
{
    let bytes = key.as_bytes();
    let n = bytes.len();
    if n == 0 || n > 65524 {
        return Err(Error::invalid_config("metadata keys must be non-empty HTTP header tokens"));
    }
    let prefix = "x-amz-meta-".as_bytes();
    proof {
        lemma_metadata_prefix();
    }
    let mut out: Vec<u8> = Vec::new();
    let mut i: usize = 0;
    while i < prefix.len()
        invariant
            prefix@ == metadata_prefix(),
            prefix@.len() == 11,
            i <= 11,
            out@ == prefix@.take(i as int),
        decreases 11 - i,
    {
        out.push(prefix[i]);
        i = i + 1;
        assert(out@ =~= prefix@.take(i as int));
    }
    let ghost lowered = bytes@.map_values(|b: u8| ascii_lowercase(b));
    let mut j: usize = 0;
    while j < n
        invariant
            bytes@ == key.spec_bytes(),
            n == bytes@.len(),
            1 <= n <= 65524,
            prefix@ == metadata_prefix(),
            prefix@.len() == 11,
            lowered == bytes@.map_values(|b: u8| ascii_lowercase(b)),
            j <= n,
            out@ == prefix@ + lowered.take(j as int),
            forall|k: int| 0 <= k < j ==> is_token_byte(#[trigger] bytes@[k]),
        decreases n - j,
    {
        let b = bytes[j];
        let is_token = b == 0x21 || b == 0x23 || b == 0x24 || b == 0x25 || b == 0x26 || b == 0x27
            || b == 0x2a || b == 0x2b || b == 0x2d || b == 0x2e || (0x30 <= b && b <= 0x39) || (0x41
            <= b && b <= 0x5a) || b == 0x5e || b == 0x5f || b == 0x60 || (0x61 <= b && b <= 0x7a)
            || b == 0x7c || b == 0x7e;
        if !is_token {
            return Err(Error::invalid_config("metadata keys must be non-empty HTTP header tokens"));
        }
        let lower = if 0x41 <= b && b <= 0x5a {
            b + 32
        } else {
            b
        };
        out.push(lower);
        j = j + 1;
        assert(out@ =~= prefix@ + lowered.take(j as int));
    }
    assert(lowered.take(n as int) =~= lowered);
    proof {
        assert forall|k: int| 0 <= k < out@.len() implies is_lowercase_name_byte(#[trigger] out@[k]) by {
            if k >= 11 {
                assert(out@[k] == ascii_lowercase(bytes@[k - 11]));
                assert(is_token_byte(bytes@[k - 11]));
            }
        }
    }
    let name = header_name_from_lowercase(out.as_slice()).unwrap();
    Ok(name)
}

/// What adding `metadata` to a map holding `entries` comes to: the entries
/// after the additions that took place, and the refusal that stopped them,
/// if any. Entries are added in order; an entry whose key is not a metadata
/// key, whose header is already present (from the map or from an earlier
/// entry), or whose value no header may hold stops the additions.
pub open spec fn metadata_outcome(
    entries: Map<Seq<u8>, Seq<Seq<u8>>>,
    metadata: Seq<(String, String)>,
) -> (Map<Seq<u8>, Seq<Seq<u8>>>, Option<Seq<char>>)
    decreases metadata.len(),
{
    if metadata.len() == 0 {
        (entries, None)
    } else {
        let key = metadata[0].0@;
        let value = encode_utf8(metadata[0].1@);
        if !is_metadata_key(key) {
            (entries, Some(metadata_key_message()))
        } else if entries.dom().contains(metadata_header_bytes(key)) {
            (entries, Some("metadata keys must be unique"@))
        } else if !all_header_value_bytes(value) {
            (entries, Some("invalid metadata header value"@))
        } else {
            metadata_outcome(
                entries.insert(metadata_header_bytes(key), seq![value]),
                metadata.drop_first(),
            )
        }
    }
}

/// Adds each `(key, value)` of `metadata` as the header `x-amz-meta-<key>`.
/// A key must not name a header that is already present: metadata never
/// overwrites a header, and two keys that differ only in case collide.
pub fn apply_metadata_headers(headers: &mut HeaderMap, metadata: Vec<(String, String)>) -> (r:
    Result<(), Error>)
    requires
        has_room(*old(headers), metadata@.len() as int),
    ensures
        header_map_entries(*final(headers)) == metadata_outcome(
            header_map_entries(*old(headers)),
            metadata@,
        ).0,
        match metadata_outcome(header_map_entries(*old(headers)), metadata@).1 {
            None => r is Ok,
            Some(m) => r matches Err(e) && is_invalid_config(e, m),
        },
        has_room(*final(headers), 0),
{
    let ghost start = header_map_entries(*headers);
    let ghost md = metadata@;
    let n = metadata.len();
    let mut i: usize = 0;
    assert(md.skip(0) =~= md);
    while i < n
        invariant
            md == metadata@,
            start == header_map_entries(*old(headers)),
            n == md.len(),
            i <= n,
            has_room(*headers, (n - i) as int),
            metadata_outcome(start, md) == metadata_outcome(
                header_map_entries(*headers),
                md.skip(i as int),
            ),
        decreases n - i,
    {
        let ghost cur = header_map_entries(*headers);
        assert(md.skip(i as int)[0] == md[i as int]);
        assert(md.skip(i as int).drop_first() =~= md.skip(i + 1));
        let key = metadata[i].0.as_str();
        let value = metadata[i].1.as_str();
        let name = match metadata_header_name(key) {
            Ok(name) => name,
            Err(e) => return Err(e),
        };
        if header_map_contains_key(headers, &name) {
            return Err(Error::invalid_config("metadata keys must be unique"));
        }
        if let Err(e) = insert_header(headers, name, value, "invalid metadata header value") {
            return Err(e);
        }
        i = i + 1;
    }
    assert(md.skip(n as int).len() == 0);
    Ok(())
}


/// A value that `insert_optional_header` accepts.
pub open spec fn is_acceptable_optional_value(v: Seq<char>) -> bool {
    v.len() > 0 && trim(v) == v && all_header_value_bytes(encode_utf8(v))
}

/// A copy takes the metadata of the request, rather than that of the source
/// object, when asked to or when the request carries a content type or any
/// metadata of its own.
pub open spec fn replaces_metadata(
    explicit_replace: bool,
    content_type: Option<String>,
    metadata: Seq<(String, String)>,
) -> bool {
    explicit_replace || content_type is Some || metadata.len() > 0
}

/// What `apply_copy_metadata_headers` comes to on a map holding `entries`.
pub open spec fn copy_metadata_outcome(
    entries: Map<Seq<u8>, Seq<Seq<u8>>>,
    explicit_replace: bool,
    content_type: Option<String>,
    metadata: Seq<(String, String)>,
) -> (Map<Seq<u8>, Seq<Seq<u8>>>, Option<Seq<char>>) {
    let with_directive = if replaces_metadata(explicit_replace, content_type, metadata) {
        entries.insert(metadata_directive_name(), seq![replace_directive()])
    } else {
        entries
    };
    match content_type {
        None => metadata_outcome(with_directive, metadata),
        Some(v) => if is_acceptable_optional_value(v@) {
            metadata_outcome(
                with_directive.insert(content_type_name(), seq![encode_utf8(v@)]),
                metadata,
            )
        } else {
            (with_directive, Some("invalid Content-Type header"@))
        },
    }
}

/// Sets the headers of a copy request: the metadata directive `REPLACE`
/// when the copy replaces the metadata, the content type if one is given,
/// and the user metadata.
pub fn apply_copy_metadata_headers(
    headers: &mut HeaderMap,
    explicit_replace: bool,
    content_type: Option<String>,
    metadata: Vec<(String, String)>,
) -> (r: Result<(), Error>)
    requires
        has_room(*old(headers), metadata@.len() + 2int),
    ensures
        header_map_entries(*final(headers)) == copy_metadata_outcome(
            header_map_entries(*old(headers)),
            explicit_replace,
            content_type,
            metadata@,
        ).0,
        match copy_metadata_outcome(
            header_map_entries(*old(headers)),
            explicit_replace,
            content_type,
            metadata@,
        ).1 {
            None => r is Ok,
            Some(m) => r matches Err(e) && is_invalid_config(e, m),
        },
{
    let should_replace = explicit_replace || content_type.is_some() || metadata.len() > 0;
    if should_replace {
        proof {
            lemma_static_names();
        }
        let name = lowercase_name("x-amz-metadata-directive");
        let value = header_value_from_str("REPLACE").unwrap();
        header_map_insert(headers, name, value);
    }
    proof {
        lemma_static_names();
    }
    let content_type_header = lowercase_name("content-type");
    if let Err(e) = insert_optional_header(
        headers,
        content_type_header,
        content_type,
        "invalid Content-Type header",
    ) {
        return Err(e);
    }
    apply_metadata_headers(headers, metadata)
}

} // verus!
