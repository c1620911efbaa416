//! Error responses in OpenAI's shape.
//!
//! Clients key off these bodies: the measurement client's error taxonomy
//! counts them, and a gateway pointed at the simulator expects the same
//! envelope a real backend sends.

use vstd::prelude::*;

use crate::MODEL_ID;

verus! {

/// HTTP 400 Bad Request.
pub const BAD_REQUEST: u16 = 400;

/// HTTP 404 Not Found.
pub const NOT_FOUND: u16 = 404;

/// HTTP 501 Not Implemented.
pub const NOT_IMPLEMENTED: u16 = 501;

/// A failure carrying the HTTP status it should be served with.
#[derive(Clone, Debug)]
pub struct ApiError {
    pub status: u16,
    pub detail: ErrorDetail,
}

/// The inner object of an OpenAI error body.
#[derive(Clone, Debug)]
pub struct ErrorDetail {
    pub message: String,
    /// Serialized as `type`.
    pub error_type: &'static str,
    /// The offending request field, when one field is to blame.
    pub param: Option<&'static str>,
    /// A stable machine-readable tag, when the error has one.
    pub code: Option<&'static str>,
}

/// The characters of an optional static string.
pub open spec fn opt_text(s: Option<&'static str>) -> Option<Seq<char>> {
    match s {
        Some(t) => Some(t@),
        None => None,
    }
}

/// `error` is served with `status` and carries exactly this body.
pub open spec fn error_is(
    error: ApiError,
    status: u16,
    message: Seq<char>,
    error_type: Seq<char>,
    param: Option<Seq<char>>,
    code: Option<Seq<char>>,
) -> bool {
    &&& error.status == status
    &&& error.detail.message@ == message
    &&& error.detail.error_type@ == error_type
    &&& opt_text(error.detail.param) == param
    &&& opt_text(error.detail.code) == code
}

/// The message naming a model that is not served, and the one that is.
pub open spec fn model_not_found_message(requested: Seq<char>) -> Seq<char> {
    "The model `"@ + requested + "` does not exist. This simulator serves `"@ + MODEL_ID@ + "`."@
}

impl ApiError {
    /// A malformed or unusable request body: HTTP 400.
    pub fn invalid_request(message: &str, param: Option<&'static str>) -> (error: Self)
        ensures
            error_is(
                error,
                BAD_REQUEST,
                message@,
                "invalid_request_error"@,
                opt_text(param),
                None,
            ),
    {
        ApiError {
            status: BAD_REQUEST,
            detail: ErrorDetail {
                message: message.to_owned(),
                error_type: "invalid_request_error",
                param,
                code: None,
            },
        }
    }

    /// A model this simulator does not serve: HTTP 404.
    ///
    /// The message names the served id, so one failed request is enough to
    /// find the right one.
    pub fn model_not_found(requested: &str) -> (error: Self)
        ensures
            error_is(
                error,
                NOT_FOUND,
                model_not_found_message(requested@),
                "invalid_request_error"@,
                Some("model"@),
                Some("model_not_found"@),
            ),
    {
        let mut message = String::from_str("The model `");
        message.append(requested);
        message.append("` does not exist. This simulator serves `");
        message.append(MODEL_ID);
        message.append("`.");
        ApiError {
            status: NOT_FOUND,
            detail: ErrorDetail {
                message,
                error_type: "invalid_request_error",
                param: Some("model"),
                code: Some("model_not_found"),
            },
        }
    }

    /// A route that exists but has nothing behind it yet: HTTP 501.
    pub fn not_implemented(message: &str) -> (error: Self)
        ensures
            error_is(error, NOT_IMPLEMENTED, message@, "server_error"@, None, None),
    {
        ApiError {
            status: NOT_IMPLEMENTED,
            detail: ErrorDetail {
                message: message.to_owned(),
                error_type: "server_error",
                param: None,
                code: None,
            },
        }
    }
}

} // verus!
