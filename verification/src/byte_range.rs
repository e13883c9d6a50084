//! Inclusive byte ranges and their `Range` header value.

use crate::error::{is_invalid_config, Error};
use crate::header_ops::header_value;
use crate::http_items::{all_header_value_bytes, header_value_bytes};
use crate::text::{decimal, is_printable_ascii, lemma_decimal_printable, push_decimal};
use http::HeaderValue;
use vstd::prelude::*;
use vstd::string::StringSliceAdditionalSpecFns;
use vstd::utf8::{encode_utf8, is_ascii_chars, is_ascii_chars_encode_utf8};

verus! {

/// The bytes `start..=end_inclusive` of an object.
#[derive(Clone, Copy, Debug, PartialEq, Eq, Structural)]
pub struct ByteRange {
    start: u64,
    end_inclusive: u64,
}

/// The text of the `Range` header for `start..=end_inclusive`.
pub open spec fn range_header_text(start: u64, end_inclusive: u64) -> Seq<char> {
    "bytes="@ + decimal(start as nat) + "-"@ + decimal(end_inclusive as nat)
}

pub open spec fn reversed_range_message() -> Seq<char> {
    "byte range start must be <= end_inclusive"@
}

impl ByteRange {
    pub closed spec fn spec_start(self) -> u64 {
        self.start
    }

    pub closed spec fn spec_end_inclusive(self) -> u64 {
        self.end_inclusive
    }

    pub fn new(start: u64, end_inclusive: u64) -> (r: Self)
        ensures
            r.spec_start() == start,
            r.spec_end_inclusive() == end_inclusive,
    {
        Self { start, end_inclusive }
    }

    /// The `Range` header value `bytes=<start>-<end_inclusive>`; a range
    /// whose start lies beyond its end is refused.
    pub fn header_value(self, invalid_message: &'static str) -> (r: Result<HeaderValue, Error>)
        ensures
            r is Ok <==> self.spec_start() <= self.spec_end_inclusive(),
            r matches Ok(v) ==> header_value_bytes(v) == encode_utf8(
                range_header_text(self.spec_start(), self.spec_end_inclusive()),
            ),
            r matches Err(e) ==> is_invalid_config(e, reversed_range_message()),
    {
        if self.start > self.end_inclusive {
            return Err(Error::invalid_config("byte range start must be <= end_inclusive"));
        }
        let mut text = String::from_str("bytes=");
        push_decimal(&mut text, self.start);
        text.append("-");
        push_decimal(&mut text, self.end_inclusive);
        let value = text.as_str();
        proof {
            let t = range_header_text(self.start, self.end_inclusive);
            assert(value@ == t);
            reveal_strlit("bytes=");
            reveal_strlit("-");
            lemma_decimal_printable(self.start as nat);
            lemma_decimal_printable(self.end_inclusive as nat);
            let a = "bytes="@;
            let b = decimal(self.start as nat);
            let c = "-"@;
            let d = decimal(self.end_inclusive as nat);
            assert(is_printable_ascii(t)) by {
                assert forall|i: int| 0 <= i < t.len() implies ' ' <= #[trigger] t[i] <= '~' by {
                    if i < a.len() {
                        assert(t[i] == a[i]);
                    } else if i < a.len() + b.len() {
                        assert(t[i] == b[i - a.len()]);
                    } else if i < a.len() + b.len() + c.len() {
                        assert(t[i] == c[i - a.len() - b.len()]);
                    } else {
                        assert(t[i] == d[i - a.len() - b.len() - c.len()]);
                    }
                }
            }
            assert(is_ascii_chars(t));
            is_ascii_chars_encode_utf8(t);
            assert(all_header_value_bytes(encode_utf8(t))) by {
                assert forall|i: int| 0 <= i < encode_utf8(t).len() implies #[trigger] encode_utf8(
                    t,
                )[i] >= 32 && encode_utf8(t)[i] != 127 by {
                    assert(t[i] as u8 == encode_utf8(t)[i]);
                }
            }
        }
        Ok(header_value(value, invalid_message).unwrap())
    }
}

} // verus!
