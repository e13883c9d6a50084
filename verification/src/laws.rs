//! Properties that relate the rules of this library to one another.

use crate::header_ops::{
    is_metadata_key, ascii_lowercase, content_type_name, copy_metadata_outcome, metadata_directive_name,
    metadata_header_bytes, metadata_outcome, replace_directive, replaces_metadata,
};
use crate::parts::{
    completed_part_error, completed_parts_error, has_repeated_part_number, is_first_refused,
    is_sorted_arrangement, CompletedPart,
};
use crate::text::{trim, any_control, any_control_or_whitespace, decimal, decimal_digit};
use crate::byte_range::range_header_text;
use crate::error::Error;
use crate::http_items::all_header_value_bytes;
use crate::search::{is_first_occurrence, lemma_first_occurrence_unique, occurs_at};
use crate::bucket::is_region_name;
use crate::http_items::{all_visible_ascii, header_map_entries};
use crate::search::first_occurrence;
use crate::service_error::{field_text, is_api_error_for, is_error_document};
use crate::text::is_unicode_whitespace;
use crate::validate::{completed_part_etag_error, query_token_error, query_value_error, subresource_error};
use vstd::prelude::*;
use http::{HeaderMap, StatusCode};
use vstd::utf8::{encode_utf8, valid_utf8};

verus! {

/// A sub-resource name is checked exactly as a query token named
/// `subresource` is: the same names pass, and the same messages come back.
pub proof fn law_subresource_is_query_token(subresource: Seq<char>)
    ensures
        subresource_error(subresource) == query_token_error("subresource"@, subresource),
{
    reveal_strlit("subresource");
    reveal_strlit(" must not be empty");
    reveal_strlit(" must not include leading or trailing whitespace");
    reveal_strlit(" must not contain ASCII control or whitespace characters");
    reveal_strlit("subresource must not be empty");
    reveal_strlit("subresource must not include leading or trailing whitespace");
    reveal_strlit("subresource must not contain ASCII control or whitespace characters");
    assert("subresource"@ + " must not be empty"@ =~= "subresource must not be empty"@);
    assert("subresource"@ + " must not include leading or trailing whitespace"@
        =~= "subresource must not include leading or trailing whitespace"@);
    assert("subresource"@ + " must not contain ASCII control or whitespace characters"@
        =~= "subresource must not contain ASCII control or whitespace characters"@);
}

/// Every valid query token is also a valid query value.
pub proof fn law_query_token_is_query_value(name: Seq<char>, value: Seq<char>)
    requires
        query_token_error(name, value) is None,
    ensures
        query_value_error(name, value) is None,
{
    let b = encode_utf8(value);
    if any_control(b) {
        let i = choose|i: int| 0 <= i < b.len() && crate::text::is_ascii_control_byte(#[trigger] b[i]);
        assert(crate::text::is_control_or_whitespace_byte(b[i]));
        assert(any_control_or_whitespace(b));
    }
}

proof fn lemma_all_parts_valid(parts: Seq<CompletedPart>, k: int)
    requires
        0 <= k < parts.len(),
        !exists|i: int| is_first_refused(parts, i),
    ensures
        completed_part_error(parts[k]) is None,
    decreases k,
{
    if k > 0 {
        lemma_all_parts_valid(parts, k - 1);
        assert forall|j: int| 0 <= j < k implies completed_part_error(#[trigger] parts[j]) is None by {
            lemma_all_parts_valid(parts, j);
        }
    }
    if completed_part_error(parts[k]) is Some {
        assert(is_first_refused(parts, k));
    }
}

/// Preparing a part list that has already been prepared accepts it and
/// returns it as it is: a prepared list is valid and in order.
pub proof fn law_prepared_parts_are_stable(parts: Seq<CompletedPart>, arranged: Seq<CompletedPart>)
    requires
        completed_parts_error(parts) is None,
        is_sorted_arrangement(parts, arranged),
    ensures
        completed_parts_error(arranged) is None,
        is_sorted_arrangement(arranged, arranged),
{
    assert forall|j: int| 0 <= j < arranged.len() implies completed_part_error(
        #[trigger] arranged[j],
    ) is None by {
        assert(parts.contains(arranged[j]));
        let k = choose|k: int| 0 <= k < parts.len() && parts[k] == arranged[j];
        lemma_all_parts_valid(parts, k);
    }
    assert(!exists|i: int| is_first_refused(arranged, i));
    assert(!has_repeated_part_number(arranged)) by {
        if has_repeated_part_number(arranged) {
            let (a, b) = choose|a: int, b: int|
                0 <= a < b < arranged.len() && #[trigger] arranged[a].part_number
                    == #[trigger] arranged[b].part_number;
            assert(arranged[a].part_number < arranged[b].part_number);
        }
    }
    assert forall|k: int| 0 <= k < arranged.len() implies arranged.contains(#[trigger] arranged[k]) by {
        assert(arranged[k] == arranged[k]);
    }
}

/// Adding metadata never changes a header that was already present.
pub proof fn law_metadata_keeps_present_headers(
    entries: Map<Seq<u8>, Seq<Seq<u8>>>,
    metadata: Seq<(String, String)>,
    name: Seq<u8>,
)
    requires
        entries.dom().contains(name),
    ensures
        metadata_outcome(entries, metadata).0.dom().contains(name),
        metadata_outcome(entries, metadata).0[name] == entries[name],
    decreases metadata.len(),
{
    if metadata.len() > 0 {
        let key = metadata[0].0@;
        let value = encode_utf8(metadata[0].1@);
        let next = entries.insert(metadata_header_bytes(key), seq![value]);
        if name != metadata_header_bytes(key) {
            law_metadata_keeps_present_headers(next, metadata.drop_first(), name);
        }
    }
}

/// When metadata is accepted, every entry ends up as its header, holding
/// exactly its value.
pub proof fn law_metadata_sets_every_entry(
    entries: Map<Seq<u8>, Seq<Seq<u8>>>,
    metadata: Seq<(String, String)>,
    i: int,
)
    requires
        metadata_outcome(entries, metadata).1 is None,
        0 <= i < metadata.len(),
    ensures
        metadata_outcome(entries, metadata).0.dom().contains(metadata_header_bytes(metadata[i].0@)),
        metadata_outcome(entries, metadata).0[metadata_header_bytes(metadata[i].0@)] == seq![
            encode_utf8(metadata[i].1@),
        ],
    decreases metadata.len(),
{
    let key = metadata[0].0@;
    let value = encode_utf8(metadata[0].1@);
    let next = entries.insert(metadata_header_bytes(key), seq![value]);
    let rest = metadata.drop_first();
    if i == 0 {
        law_metadata_keeps_present_headers(next, rest, metadata_header_bytes(key));
    } else {
        assert(rest[i - 1] == metadata[i]);
        law_metadata_sets_every_entry(next, rest, i - 1);
    }
}

/// An accepted copy sets the metadata directive to `REPLACE` exactly when it
/// replaces the metadata; otherwise the headers stay as they were.
pub proof fn law_copy_sets_directive_when_replacing(
    entries: Map<Seq<u8>, Seq<Seq<u8>>>,
    explicit_replace: bool,
    content_type: Option<String>,
    metadata: Seq<(String, String)>,
)
    requires
        copy_metadata_outcome(entries, explicit_replace, content_type, metadata).1 is None,
    ensures
        replaces_metadata(explicit_replace, content_type, metadata) ==> copy_metadata_outcome(
            entries,
            explicit_replace,
            content_type,
            metadata,
        ).0[metadata_directive_name()] == seq![replace_directive()],
        !replaces_metadata(explicit_replace, content_type, metadata) ==> copy_metadata_outcome(
            entries,
            explicit_replace,
            content_type,
            metadata,
        ).0 == entries,
{
    if replaces_metadata(explicit_replace, content_type, metadata) {
        let with_directive = entries.insert(metadata_directive_name(), seq![replace_directive()]);
        match content_type {
            None => {
                law_metadata_keeps_present_headers(
                    with_directive,
                    metadata,
                    metadata_directive_name(),
                );
            },
            Some(v) => {
                reveal_strlit("content-type");
                reveal_strlit("x-amz-metadata-directive");
                vstd::string::is_ascii_spec_bytes("content-type");
                vstd::string::is_ascii_spec_bytes("x-amz-metadata-directive");
                assert(content_type_name() != metadata_directive_name());
                let with_type = with_directive.insert(content_type_name(), seq![encode_utf8(v@)]);
                law_metadata_keeps_present_headers(with_type, metadata, metadata_directive_name());
            },
        }
    }
}


/// Metadata keys that differ only in the case of ASCII letters name the same
/// header.
pub proof fn law_metadata_names_ignore_ascii_case(key: Seq<char>, other: Seq<char>)
    requires
        encode_utf8(key).len() == encode_utf8(other).len(),
        forall|i: int|
            0 <= i < encode_utf8(key).len() ==> ascii_lowercase(#[trigger] encode_utf8(key)[i])
                == ascii_lowercase(encode_utf8(other)[i]),
    ensures
        metadata_header_bytes(key) == metadata_header_bytes(other),
{
    assert(encode_utf8(key).map_values(|b: u8| ascii_lowercase(b)) =~= encode_utf8(
        other,
    ).map_values(|b: u8| ascii_lowercase(b)));
}


/// The value of a character taken as a decimal digit.
pub open spec fn digit_value(c: char) -> int {
    (c as u32) as int - ('0' as u32) as int
}

/// The number that a string of decimal digits denotes, read in base ten.
pub open spec fn numeral_value(s: Seq<char>) -> int
    decreases s.len(),
{
    if s.len() == 0 {
        0
    } else {
        numeral_value(s.drop_last()) * 10 + digit_value(s.last())
    }
}

proof fn lemma_digit(k: int)
    requires
        0 <= k < 10,
    ensures
        '0' <= decimal_digit(k) <= '9',
        digit_value(decimal_digit(k)) == k,
        (decimal_digit(k) == '0') == (k == 0),
{
    let d = seq!['0', '1', '2', '3', '4', '5', '6', '7', '8', '9'];
    assert(d[0] == '0' && d[1] == '1' && d[2] == '2' && d[3] == '3' && d[4] == '4');
    assert(d[5] == '5' && d[6] == '6' && d[7] == '7' && d[8] == '8' && d[9] == '9');
}

/// The numeral written for `n` is `n`: it is a non-empty string of decimal
/// digits that, read in base ten, gives back `n`, and it starts with `0` only
/// when `n` is zero.
pub proof fn law_decimal_reads_back(n: nat)
    ensures
        decimal(n).len() >= 1,
        forall|i: int| 0 <= i < decimal(n).len() ==> '0' <= #[trigger] decimal(n)[i] <= '9',
        numeral_value(decimal(n)) == n,
        (decimal(n)[0] == '0') == (n == 0),
    decreases n,
{
    if n < 10 {
        lemma_digit(n as int);
        assert(decimal(n).drop_last() =~= Seq::<char>::empty());
        assert(numeral_value(Seq::<char>::empty()) == 0);
        assert(numeral_value(decimal(n)) == numeral_value(decimal(n).drop_last()) * 10
            + digit_value(decimal(n).last()));
    } else {
        law_decimal_reads_back(n / 10);
        lemma_digit((n % 10) as int);
        let prefix = decimal(n / 10);
        assert(decimal(n).drop_last() =~= prefix);
        assert(decimal(n)[0] == prefix[0]);
        assert(decimal(n).last() == decimal_digit((n % 10) as int));
        assert(numeral_value(decimal(n)) == numeral_value(prefix) * 10 + (n % 10));
        assert((n / 10) * 10 + n % 10 == n);
        assert forall|i: int| 0 <= i < decimal(n).len() implies '0' <= #[trigger] decimal(n)[i]
            <= '9' by {
            if i < prefix.len() {
                assert(decimal(n)[i] == prefix[i]);
            }
        }
    }
}

/// Two numbers with the same numeral are equal.
pub proof fn law_decimal_is_injective(a: nat, b: nat)
    requires
        decimal(a) == decimal(b),
    ensures
        a == b,
{
    law_decimal_reads_back(a);
    law_decimal_reads_back(b);
}


/// The `Range` header of a range names its two bounds: it is `bytes=`, a
/// numeral that reads back as the start, `-`, and a numeral that reads back
/// as the end, neither with a leading zero.
pub proof fn law_range_header_names_its_bounds(start: u64, end_inclusive: u64)
    ensures
        exists|a: Seq<char>, b: Seq<char>|
            {
                &&& range_header_text(start, end_inclusive) == "bytes="@ + a + "-"@ + b
                &&& numeral_value(a) == start && numeral_value(b) == end_inclusive
                &&& a.len() >= 1 && b.len() >= 1
                &&& (a[0] == '0') == (start == 0) && (b[0] == '0') == (end_inclusive == 0)
                &&& forall|i: int| 0 <= i < a.len() ==> '0' <= #[trigger] a[i] <= '9'
                &&& forall|i: int| 0 <= i < b.len() ==> '0' <= #[trigger] b[i] <= '9'
            },
{
    law_decimal_reads_back(start as nat);
    law_decimal_reads_back(end_inclusive as nat);
    let a = decimal(start as nat);
    let b = decimal(end_inclusive as nat);
    assert(range_header_text(start, end_inclusive) == "bytes="@ + a + "-"@ + b);
}

/// The text of an element is what lies between the first `open` tag of the
/// body and the first `close` tag after it.
pub proof fn law_field_text_is_first_element(
    body: Seq<u8>,
    open: Seq<char>,
    close: Seq<char>,
    i: int,
    j: int,
)
    requires
        occurs_at(body, encode_utf8(open), i),
        forall|k: int| 0 <= k < i ==> !#[trigger] occurs_at(body, encode_utf8(open), k),
        i + encode_utf8(open).len() <= j,
        occurs_at(body, encode_utf8(close), j),
        forall|k: int|
            i + encode_utf8(open).len() <= k < j ==> !#[trigger] occurs_at(body, encode_utf8(close), k),
        valid_utf8(body.subrange(i + encode_utf8(open).len(), j)),
    ensures
        field_text(body, open, close) == Some(body.subrange(i + encode_utf8(open).len(), j)),
{
    let o = encode_utf8(open);
    let c = encode_utf8(close);
    assert(is_first_occurrence(body, o, 0, i));
    lemma_first_occurrence_unique(body, o, 0, i);
    assert(is_first_occurrence(body, c, i + o.len(), j));
    lemma_first_occurrence_unique(body, c, i + o.len(), j);
}

/// The API error for a body reports as its message the text between the
/// body's first `<Message>` and the next `</Message>`, whatever else the body
/// holds.
pub proof fn law_api_error_message_is_the_message_element(
    e: Error,
    status: StatusCode,
    headers: HeaderMap,
    body: Seq<u8>,
    i: int,
    j: int,
)
    requires
        is_api_error_for(e, status, headers, body),
        occurs_at(body, encode_utf8("<Message>"@), i),
        forall|k: int| 0 <= k < i ==> !#[trigger] occurs_at(body, encode_utf8("<Message>"@), k),
        i + encode_utf8("<Message>"@).len() <= j,
        occurs_at(body, encode_utf8("</Message>"@), j),
        forall|k: int|
            i + encode_utf8("<Message>"@).len() <= k < j ==> !#[trigger] occurs_at(
                body,
                encode_utf8("</Message>"@),
                k,
            ),
        valid_utf8(body.subrange(i + encode_utf8("<Message>"@).len(), j)),
    ensures
        e matches Error::Api { service_message: Some(m), .. } && encode_utf8(m@) == body.subrange(
            i + encode_utf8("<Message>"@).len(),
            j,
        ),
{
    law_field_text_is_first_element(body, "<Message>"@, "</Message>"@, i, j);
}

/// The API error for a body reports as its code the text between the body's
/// first `<Code>` and the next `</Code>`, whatever else the body holds.
pub proof fn law_api_error_code_is_the_code_element(
    e: Error,
    status: StatusCode,
    headers: HeaderMap,
    body: Seq<u8>,
    i: int,
    j: int,
)
    requires
        is_api_error_for(e, status, headers, body),
        occurs_at(body, encode_utf8("<Code>"@), i),
        forall|k: int| 0 <= k < i ==> !#[trigger] occurs_at(body, encode_utf8("<Code>"@), k),
        i + encode_utf8("<Code>"@).len() <= j,
        occurs_at(body, encode_utf8("</Code>"@), j),
        forall|k: int|
            i + encode_utf8("<Code>"@).len() <= k < j ==> !#[trigger] occurs_at(
                body,
                encode_utf8("</Code>"@),
                k,
            ),
        valid_utf8(body.subrange(i + encode_utf8("<Code>"@).len(), j)),
    ensures
        e matches Error::Api { code: Some(c), .. } && encode_utf8(c@) == body.subrange(
            i + encode_utf8("<Code>"@).len(),
            j,
        ),
{
    law_field_text_is_first_element(body, "<Code>"@, "</Code>"@, i, j);
}

/// The API error for a body reports as its request id the text between the
/// body's first `<RequestId>` and the next `</RequestId>`, whatever the
/// headers say.
pub proof fn law_api_error_request_id_is_the_request_id_element(
    e: Error,
    status: StatusCode,
    headers: HeaderMap,
    body: Seq<u8>,
    i: int,
    j: int,
)
    requires
        is_api_error_for(e, status, headers, body),
        occurs_at(body, encode_utf8("<RequestId>"@), i),
        forall|k: int| 0 <= k < i ==> !#[trigger] occurs_at(body, encode_utf8("<RequestId>"@), k),
        i + encode_utf8("<RequestId>"@).len() <= j,
        occurs_at(body, encode_utf8("</RequestId>"@), j),
        forall|k: int|
            i + encode_utf8("<RequestId>"@).len() <= k < j ==> !#[trigger] occurs_at(
                body,
                encode_utf8("</RequestId>"@),
                k,
            ),
        valid_utf8(body.subrange(i + encode_utf8("<RequestId>"@).len(), j)),
    ensures
        e matches Error::Api { request_id: Some(r), status: s, .. } && s == status && encode_utf8(
            r@,
        ) == body.subrange(i + encode_utf8("<RequestId>"@).len(), j),
{
    law_field_text_is_first_element(body, "<RequestId>"@, "</RequestId>"@, i, j);
}


/// An HTTP token character (RFC 9110 `tchar`): a letter, a digit, or one of
/// ``!#$%&'*+-.^_`|~``.
pub open spec fn is_tchar(c: char) -> bool {
    ||| 'A' <= c <= 'Z'
    ||| 'a' <= c <= 'z'
    ||| '0' <= c <= '9'
    ||| "!#$%&'*+-.^_`|~"@.contains(c)
}

/// A metadata key is accepted exactly when it is 1 to 65524 bytes long and
/// every byte is an HTTP token character.
pub proof fn law_metadata_keys_are_http_tokens(key: Seq<char>)
    ensures
        is_metadata_key(key) == {
            let b = encode_utf8(key);
            &&& 1 <= b.len() <= 65524
            &&& forall|i: int| 0 <= i < b.len() ==> is_tchar(#[trigger] b[i] as char)
        },
{
    reveal_strlit("!#$%&'*+-.^_`|~");
    let b = encode_utf8(key);
    let specials = "!#$%&'*+-.^_`|~"@;
    assert forall|i: int| 0 <= i < b.len() implies is_tchar(#[trigger] b[i] as char)
        == crate::header_ops::is_token_byte(b[i]) by {
        let c = b[i] as char;
        if specials.contains(c) {
            let k = choose|k: int| 0 <= k < specials.len() && specials[k] == c;
            assert(0 <= k < 15);
        }
        if crate::header_ops::is_token_byte(b[i]) && !('A' <= c <= 'Z') && !('a' <= c <= 'z') && !(
        '0' <= c <= '9') {
            let x = b[i];
            if x == 0x21 {
                assert(specials[0] == c);
            } else if x == 0x23 {
                assert(specials[1] == c);
            } else if x == 0x24 {
                assert(specials[2] == c);
            } else if x == 0x25 {
                assert(specials[3] == c);
            } else if x == 0x26 {
                assert(specials[4] == c);
            } else if x == 0x27 {
                assert(specials[5] == c);
            } else if x == 0x2a {
                assert(specials[6] == c);
            } else if x == 0x2b {
                assert(specials[7] == c);
            } else if x == 0x2d {
                assert(specials[8] == c);
            } else if x == 0x2e {
                assert(specials[9] == c);
            } else if x == 0x5e {
                assert(specials[10] == c);
            } else if x == 0x5f {
                assert(specials[11] == c);
            } else if x == 0x60 {
                assert(specials[12] == c);
            } else if x == 0x7c {
                assert(specials[13] == c);
            } else {
                assert(specials[14] == c);
            }
        }
    }
}

/// A single metadata entry whose key is made of HTTP token characters, whose
/// header is not yet present and whose value is a valid header value is
/// added as the header `x-amz-meta-<key>` holding the value, and nothing
/// else changes.
pub proof fn law_token_metadata_entry_is_added(
    entries: Map<Seq<u8>, Seq<Seq<u8>>>,
    key: String,
    value: String,
)
    requires
        1 <= encode_utf8(key@).len() <= 65524,
        forall|i: int| 0 <= i < encode_utf8(key@).len() ==> is_tchar(#[trigger] encode_utf8(key@)[i] as char),
        !entries.dom().contains(metadata_header_bytes(key@)),
        all_header_value_bytes(encode_utf8(value@)),
    ensures
        metadata_outcome(entries, seq![(key, value)]) == (
            entries.insert(metadata_header_bytes(key@), seq![encode_utf8(value@)]),
            None::<Seq<char>>,
        ),
{
    law_metadata_keys_are_http_tokens(key@);
    let md = seq![(key, value)];
    let next = entries.insert(metadata_header_bytes(key@), seq![encode_utf8(value@)]);
    assert(md.drop_first() =~= Seq::<(String, String)>::empty());
    assert(metadata_outcome(next, md.drop_first()) == (next, None::<Seq<char>>));
}


/// A copy accepts exactly the content types that `insert_optional_header`
/// accepts (non-empty, no whitespace at either end, valid header-value bytes;
/// inner spaces are fine). An accepted content type is set, beside the
/// `REPLACE` directive, before the metadata is added; a refused one stops the
/// copy with the content-type message after the directive was set.
pub proof fn law_copy_content_type_is_an_optional_header(
    entries: Map<Seq<u8>, Seq<Seq<u8>>>,
    explicit_replace: bool,
    content_type: String,
    metadata: Seq<(String, String)>,
)
    ensures
        ({
            let v = content_type@;
            v.len() > 0 && trim(v) == v && all_header_value_bytes(encode_utf8(v))
        }) ==> copy_metadata_outcome(entries, explicit_replace, Some(content_type), metadata)
            == metadata_outcome(
            entries.insert(metadata_directive_name(), seq![replace_directive()]).insert(
                content_type_name(),
                seq![encode_utf8(content_type@)],
            ),
            metadata,
        ),
        !({
            let v = content_type@;
            v.len() > 0 && trim(v) == v && all_header_value_bytes(encode_utf8(v))
        }) ==> copy_metadata_outcome(entries, explicit_replace, Some(content_type), metadata) == (
            entries.insert(metadata_directive_name(), seq![replace_directive()]),
            Some("invalid Content-Type header"@),
        ),
{
}

/// With no metadata, a copy with a content type succeeds exactly when the
/// content type is acceptable to `insert_optional_header`, and then leaves
/// `content-type` holding it and the directive holding `REPLACE`.
pub proof fn law_copy_with_content_type_sets_it(
    entries: Map<Seq<u8>, Seq<Seq<u8>>>,
    explicit_replace: bool,
    content_type: String,
)
    ensures
        (copy_metadata_outcome(entries, explicit_replace, Some(content_type), seq![]).1 is None)
            == ({
            let v = content_type@;
            v.len() > 0 && trim(v) == v && all_header_value_bytes(encode_utf8(v))
        }),
        copy_metadata_outcome(entries, explicit_replace, Some(content_type), seq![]).1 is None ==> {
            let out = copy_metadata_outcome(entries, explicit_replace, Some(content_type), seq![]).0;
            &&& out.dom().contains(content_type_name())
            &&& out[content_type_name()] == seq![encode_utf8(content_type@)]
            &&& out.dom().contains(metadata_directive_name())
            &&& out[metadata_directive_name()] == seq![replace_directive()]
        },
{
    law_copy_content_type_is_an_optional_header(entries, explicit_replace, content_type, seq![]);
    reveal_strlit("content-type");
    reveal_strlit("x-amz-metadata-directive");
    vstd::string::is_ascii_spec_bytes("content-type");
    vstd::string::is_ascii_spec_bytes("x-amz-metadata-directive");
    assert(content_type_name() != metadata_directive_name());
}


/// A part is refused for its number exactly when the number lies outside
/// 1..=10000, the limit on the parts of an upload; a part numbered within it
/// is judged by its ETag alone.
pub proof fn law_part_numbers_reach_the_upload_limit(part: CompletedPart)
    ensures
        !(1 <= part.part_number <= 10000) ==> completed_part_error(part) == Some(
            "part_number must be in the range 1..=10000"@,
        ),
        (1 <= part.part_number <= 10000) ==> completed_part_error(part)
            == completed_part_etag_error(part.etag@),
{
}

/// A list of one part, numbered within 1..=10000 and with a valid ETag, is
/// accepted.
pub proof fn law_single_valid_part_is_accepted(part: CompletedPart)
    requires
        1 <= part.part_number <= 10000,
        completed_part_etag_error(part.etag@) is None,
    ensures
        completed_parts_error(seq![part]) is None,
{
    let parts = seq![part];
    assert(completed_part_error(parts[0]) is None);
    assert(!exists|i: int| is_first_refused(parts, i));
    assert(!has_repeated_part_number(parts));
}


/// The API error carries the status of the response it describes.
pub proof fn law_api_error_keeps_the_status(e: Error, status: StatusCode, headers: HeaderMap, body: Seq<u8>)
    requires
        is_api_error_for(e, status, headers, body),
    ensures
        e matches Error::Api { status: s, .. } && s == status,
{
}

/// When the body names no request id, the API error takes it from the
/// `x-amz-request-id` header, when that header's first value is text.
pub proof fn law_request_id_falls_back_to_the_header(
    e: Error,
    status: StatusCode,
    headers: HeaderMap,
    body: Seq<u8>,
)
    requires
        is_api_error_for(e, status, headers, body),
        forall|k: int| !#[trigger] occurs_at(body, encode_utf8("<RequestId>"@), k),
        header_map_entries(headers).dom().contains(encode_utf8("x-amz-request-id"@)),
        all_visible_ascii(header_map_entries(headers)[encode_utf8("x-amz-request-id"@)][0]),
    ensures
        e matches Error::Api { request_id: Some(r), .. } && encode_utf8(r@) == header_map_entries(
            headers,
        )[encode_utf8("x-amz-request-id"@)][0],
{
    let o = encode_utf8("<RequestId>"@);
    assert(!exists|i: int| is_first_occurrence(body, o, 0, i));
    assert(first_occurrence(body, o, 0) is None);
}

proof fn lemma_first_occurrence_exists(s: Seq<u8>, pat: Seq<u8>, from: int, k: int)
    requires
        from <= k,
        occurs_at(s, pat, k),
    ensures
        first_occurrence(s, pat, from) matches Some(f) && from <= f <= k && is_first_occurrence(
            s,
            pat,
            from,
            f,
        ),
    decreases k - from,
{
    if exists|j: int| from <= j < k && occurs_at(s, pat, j) {
        let j = choose|j: int| from <= j < k && occurs_at(s, pat, j);
        lemma_first_occurrence_exists(s, pat, from, j);
    } else {
        assert(is_first_occurrence(s, pat, from, k));
        lemma_first_occurrence_unique(s, pat, from, k);
    }
}

/// A body is an error document exactly when an `<Error>` tag occurs in it
/// with an `</Error>` tag after it.
pub proof fn law_error_documents_hold_an_error_element(body: Seq<u8>)
    ensures
        is_error_document(body) == exists|i: int, j: int|
            #![trigger occurs_at(body, encode_utf8("<Error>"@), i), occurs_at(body, encode_utf8("</Error>"@), j)]
            occurs_at(body, encode_utf8("<Error>"@), i) && occurs_at(body, encode_utf8("</Error>"@), j)
                && i + encode_utf8("<Error>"@).len() <= j,
{
    let o = encode_utf8("<Error>"@);
    let c = encode_utf8("</Error>"@);
    if exists|i: int, j: int|
        #![trigger occurs_at(body, o, i), occurs_at(body, c, j)]
        occurs_at(body, o, i) && occurs_at(body, c, j) && i + o.len() <= j {
        let (i, j) = choose|i: int, j: int|
            #![trigger occurs_at(body, o, i), occurs_at(body, c, j)]
            occurs_at(body, o, i) && occurs_at(body, c, j) && i + o.len() <= j;
        lemma_first_occurrence_exists(body, o, 0, i);
        let f = first_occurrence(body, o, 0)->0;
        lemma_first_occurrence_exists(body, c, f + o.len(), j);
    }
    if is_error_document(body) {
        let f = first_occurrence(body, o, 0)->0;
        assert(is_first_occurrence(body, o, 0, f));
        let g = first_occurrence(body, c, f + o.len())->0;
        assert(is_first_occurrence(body, c, f + o.len(), g));
        assert(occurs_at(body, o, f) && occurs_at(body, c, g) && f + o.len() <= g);
    }
}

/// A region name is accepted exactly when it is non-empty, made of
/// lower-case ASCII letters, digits and hyphens, and neither starts nor ends
/// with a hyphen.
pub proof fn law_region_names(region: Seq<char>)
    ensures
        is_region_name(region) == {
            let b = encode_utf8(region);
            &&& b.len() > 0
            &&& forall|i: int|
                0 <= i < b.len() ==> {
                    let c = #[trigger] b[i] as char;
                    ('a' <= c <= 'z') || ('0' <= c <= '9') || c == '-'
                }
            &&& b[0] as char != '-'
            &&& b[b.len() - 1] as char != '-'
        },
{
}

/// The characters that count as whitespace at the ends of a value are
/// exactly those of Unicode's `White_Space` property.
pub proof fn law_whitespace_is_unicode_white_space(c: char)
    ensures
        is_unicode_whitespace(c) == "\t\n\u{b}\u{c}\r \u{85}\u{a0}\u{1680}\u{2000}\u{2001}\u{2002}\u{2003}\u{2004}\u{2005}\u{2006}\u{2007}\u{2008}\u{2009}\u{200a}\u{2028}\u{2029}\u{202f}\u{205f}\u{3000}"@.contains(
            c,
        ),
{
    let w = "\t\n\u{b}\u{c}\r \u{85}\u{a0}\u{1680}\u{2000}\u{2001}\u{2002}\u{2003}\u{2004}\u{2005}\u{2006}\u{2007}\u{2008}\u{2009}\u{200a}\u{2028}\u{2029}\u{202f}\u{205f}\u{3000}"@;
    reveal_strlit("\t\n\u{b}\u{c}\r \u{85}\u{a0}\u{1680}\u{2000}\u{2001}\u{2002}\u{2003}\u{2004}\u{2005}\u{2006}\u{2007}\u{2008}\u{2009}\u{200a}\u{2028}\u{2029}\u{202f}\u{205f}\u{3000}");
    assert(w.len() == 25);
    if w.contains(c) {
        let k = choose|k: int| 0 <= k < w.len() && w[k] == c;
        assert(is_unicode_whitespace(w[k]));
    }
    if is_unicode_whitespace(c) {
        let v = c as u32;
        let k: int = if v <= 0x0d {
            v - 9
        } else if v == 0x20 {
            5
        } else if v == 0x85 {
            6
        } else if v == 0xa0 {
            7
        } else if v == 0x1680 {
            8
        } else if 0x2000 <= v <= 0x200a {
            9 + (v - 0x2000)
        } else if v == 0x2028 {
            20
        } else if v == 0x2029 {
            21
        } else if v == 0x202f {
            22
        } else if v == 0x205f {
            23
        } else {
            24
        };
        assert(w[k] as u32 == v);
        assert(w[k] == c);
    }
}

} // verus!
