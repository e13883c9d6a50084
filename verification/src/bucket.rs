//! Region names and the location constraint of a new bucket.

use crate::error::{is_invalid_config, Error};
use crate::text::same_text;
use vstd::prelude::*;
use vstd::string::StringSliceAdditionalSpecFns;
use vstd::utf8::encode_utf8;

verus! {

/// The region whose buckets are created without a location constraint.
pub open spec fn default_region() -> Seq<char> {
    "us-east-1"@
}

pub open spec fn is_region_byte(b: u8) -> bool {
    (0x61 <= b <= 0x7a) || (0x30 <= b <= 0x39) || b == 0x2d
}

/// A region name: lower-case ASCII letters, digits and hyphens, neither
/// starting nor ending with a hyphen.
pub open spec fn is_region_name(region: Seq<char>) -> bool {
    let b = encode_utf8(region);
    &&& b.len() > 0
    &&& forall|i: int| 0 <= i < b.len() ==> is_region_byte(#[trigger] b[i])
    &&& b[0] != 0x2du8
    &&& b[b.len() - 1] != 0x2du8
}

pub open spec fn invalid_region_message() -> Seq<char> {
    "region must consist of lower-case letters, digits and inner hyphens"@
}

/// Accepts a region name, or refuses it.
pub fn validate_region(region: &str) -> (r: Result<(), Error>)
    ensures
        r is Ok <==> is_region_name(region@),
        r matches Err(e) ==> is_invalid_config(e, invalid_region_message()),
{
    let b = region.as_bytes();
    let n = b.len();
    if n == 0 || b[0] == 0x2d || b[n - 1] == 0x2d {
        return Err(
            Error::invalid_config(
                "region must consist of lower-case letters, digits and inner hyphens",
            ),
        );
    }
    let mut i: usize = 0;
    while i < n
        invariant
            b@ == region.spec_bytes(),
            n == b@.len(),
            i <= n,
            forall|k: int| 0 <= k < i ==> is_region_byte(#[trigger] b@[k]),
        decreases n - i,
    {
        let c = b[i];
        if !((0x61 <= c && c <= 0x7a) || (0x30 <= c && c <= 0x39) || c == 0x2d) {
            return Err(
                Error::invalid_config(
                    "region must consist of lower-case letters, digits and inner hyphens",
                ),
            );
        }
        i = i + 1;
    }
    Ok(())
}

/// The location constraint to send when creating a bucket: the explicit
/// one if given, otherwise the client's region, except that the default
/// region is sent as no constraint at all. The region used must be valid.
pub fn create_bucket_location_constraint(explicit: Option<String>, client_region: &str) -> (r:
    Result<Option<String>, Error>)
    ensures
        match explicit {
            Some(region) => if is_region_name(region@) {
                r matches Ok(Some(c)) && c@ == region@
            } else {
                r matches Err(e) && is_invalid_config(e, invalid_region_message())
            },
            None => if !is_region_name(client_region@) {
                r matches Err(e) && is_invalid_config(e, invalid_region_message())
            } else if client_region@ == default_region() {
                r matches Ok(None)
            } else {
                r matches Ok(Some(c)) && c@ == client_region@
            },
        },
{
    match explicit {
        Some(region) => {
            if let Err(e) = validate_region(region.as_str()) {
                return Err(e);
            }
            Ok(Some(region))
        },
        None => {
            if let Err(e) = validate_region(client_region) {
                return Err(e);
            }
            if same_text(client_region, "us-east-1") {
                Ok(None)
            } else {
                Ok(Some(String::from_str(client_region)))
            }
        },
    }
}

} // verus!
