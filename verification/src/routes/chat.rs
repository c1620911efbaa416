//! `POST /v1/chat/completions`: what a request must satisfy before anything
//! streams.

use vstd::prelude::*;

use crate::error::{error_is, model_not_found_message, ApiError, BAD_REQUEST, NOT_FOUND};
use crate::protocol::ChatCompletionRequest;
use crate::serves_model;
use crate::MODEL_ID;

verus! {

/// `request` passes every rule the simulator applies before streaming.
pub open spec fn is_servable(request: ChatCompletionRequest) -> bool {
    &&& request.model@ == MODEL_ID@
    &&& request.stream
    &&& request.messages@.len() > 0
    &&& request.max_tokens != Some(0u32)
}

/// Checks a request against everything the simulator requires before it will
/// stream anything.
///
/// The rules, in the order they are applied:
///
/// 1. `model` must be one the simulator serves, else HTTP 404 `model_not_found`.
/// 2. `stream` must be true: non-streaming benchmarking is out of scope, and a
///    request that quietly fell back to it would produce meaningless TTFT.
/// 3. `messages` must not be empty.
/// 4. `max_tokens`, when present, must be at least 1.
///
/// Rules 2-4 are HTTP 400 `invalid_request_error` with the offending field
/// name as `param`. The first rule broken is the one reported.
pub fn validate(request: &ChatCompletionRequest) -> (checked: Result<(), ApiError>)
    ensures
        checked is Ok <==> is_servable(*request),
        request.model@ != MODEL_ID@ ==> (checked matches Err(e) && error_is(
            e,
            NOT_FOUND,
            model_not_found_message(request.model@),
            "invalid_request_error"@,
            Some("model"@),
            Some("model_not_found"@),
        )),
        request.model@ == MODEL_ID@ && !request.stream ==> (checked matches Err(e) && error_is(
            e,
            BAD_REQUEST,
            "streaming must be true"@,
            "invalid_request_error"@,
            Some("stream"@),
            None,
        )),
        request.model@ == MODEL_ID@ && request.stream && request.messages@.len() == 0
            ==> (checked matches Err(e) && error_is(
            e,
            BAD_REQUEST,
            "messages must not be empty"@,
            "invalid_request_error"@,
            Some("messages"@),
            None,
        )),
        request.model@ == MODEL_ID@ && request.stream && request.messages@.len() > 0
            && request.max_tokens == Some(0u32) ==> (checked matches Err(e) && error_is(
            e,
            BAD_REQUEST,
            "max_tokens must be at least 1"@,
            "invalid_request_error"@,
            Some("max_tokens"@),
            None,
        )),
{
    if !serves_model(request.model.as_str()) {
        return Err(ApiError::model_not_found(request.model.as_str()));
    }
    if !request.stream {
        return Err(ApiError::invalid_request("streaming must be true", Some("stream")));
    }
    if request.messages.len() == 0 {
        return Err(ApiError::invalid_request("messages must not be empty", Some("messages")));
    }
    if let Some(max_tokens) = request.max_tokens {
        if max_tokens == 0 {
            return Err(
                ApiError::invalid_request("max_tokens must be at least 1", Some("max_tokens")),
            );
        }
    }
    Ok(())
}


/// What `validate` accepts, rule by rule: a request is served exactly when its
/// model is the served one, it streams, it carries at least one message (of
/// any number), and `max_tokens`, when given, is at least 1.
pub proof fn law_validate_accepts_exactly(request: ChatCompletionRequest)
    ensures
        is_servable(request) <==> {
            &&& request.model@ == MODEL_ID@
            &&& request.stream
            &&& request.messages@.len() >= 1
            &&& (request.max_tokens matches Some(m) ==> m >= 1)
        },
{
}

/// Conversations may grow: a request that is served stays served when it
/// carries more messages and is otherwise the same.
pub proof fn law_more_messages_stay_servable(
    request: ChatCompletionRequest,
    longer: ChatCompletionRequest,
)
    requires
        is_servable(request),
        longer.model@ == request.model@,
        longer.stream == request.stream,
        longer.max_tokens == request.max_tokens,
        longer.messages@.len() >= request.messages@.len(),
    ensures
        is_servable(longer),
{
}

} // verus!
