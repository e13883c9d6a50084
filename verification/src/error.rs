//! The error type of the library.

use http::StatusCode;
use vstd::prelude::*;

verus! {

/// Declares `http::StatusCode`, which an API error carries through unread.
#[verifier::external_type_specification]
#[verifier::external_body]
pub struct ExStatusCode(StatusCode);

/// What an operation reports when it cannot go on.
#[derive(Debug)]
pub enum Error {
    /// The caller asked for something the service would reject or misread.
    InvalidConfig { message: String },
    /// A response could not be understood.
    Decode { message: String, detail: Option<String> },
    /// The service answered with an error document.
    Api {
        status: StatusCode,
        code: Option<String>,
        service_message: Option<String>,
        request_id: Option<String>,
    },
}

/// `e` is a configuration error whose message reads `msg`.
pub open spec fn is_invalid_config(e: Error, msg: Seq<char>) -> bool {
    e matches Error::InvalidConfig { message } && message@ == msg
}

/// `e` is a decoding error whose message reads `msg`.
pub open spec fn is_decode_error(e: Error, msg: Seq<char>) -> bool {
    e matches Error::Decode { message, .. } && message@ == msg
}

impl Error {
    pub fn invalid_config(message: &str) -> (e: Error)
        ensures
            is_invalid_config(e, message@),
    {
        Error::InvalidConfig { message: String::from_str(message) }
    }

    /// A configuration error whose message is `prefix` followed by `suffix`.
    pub fn invalid_config_about(prefix: &str, suffix: &str) -> (e: Error)
        ensures
            is_invalid_config(e, prefix@ + suffix@),
    {
        let message = String::from_str(prefix).concat(suffix);
        Error::InvalidConfig { message }
    }

    pub fn decode(message: &str, detail: Option<String>) -> (e: Error)
        ensures
            e matches Error::Decode { message: m, detail: d } && m@ == message@ && d == detail,
    {
        Error::Decode { message: String::from_str(message), detail }
    }
}

} // verus!
