use axum::http::StatusCode;
use moonleaf::protocol::{ChatCompletionRequest, Message, Role};
use moonleaf::routes::chat::validate;
use moonleaf::MODEL_ID;

fn valid_request() -> ChatCompletionRequest {
    ChatCompletionRequest {
        model: MODEL_ID.to_owned(),
        messages: vec![Message {
            role: Role::User,
            content: "hi".to_owned(),
        }],
        stream: true,
        stream_options: None,
        max_tokens: None,
        seed: None,
        ignore_eos: None,
    }
}

#[test]
fn valid_request_passes() {
    assert!(validate(&valid_request()).is_ok());
}

#[test]
fn positive_max_tokens_passes() {
    let request = ChatCompletionRequest {
        max_tokens: Some(1),
        ..valid_request()
    };

    assert!(validate(&request).is_ok());
}

#[test]
fn chat_unknown_model_is_not_found() {
    let request = ChatCompletionRequest {
        model: "llama-3-70b".to_owned(),
        ..valid_request()
    };

    let error = validate(&request).unwrap_err();

    assert_eq!(error.status, StatusCode::NOT_FOUND.as_u16());
    assert_eq!(error.detail.param, Some("model"));
    assert_eq!(error.detail.code, Some("model_not_found"));
    // The served id is what the caller needs to recover.
    assert!(error.detail.message.contains(MODEL_ID));
}

#[test]
fn chat_non_streaming_request_is_rejected() {
    let request = ChatCompletionRequest {
        stream: false,
        ..valid_request()
    };

    let error = validate(&request).unwrap_err();

    assert_eq!(error.status, StatusCode::BAD_REQUEST.as_u16());
    assert_eq!(error.detail.param, Some("stream"));
}

#[test]
fn empty_messages_are_rejected() {
    let request = ChatCompletionRequest {
        messages: Vec::new(),
        ..valid_request()
    };

    let error = validate(&request).unwrap_err();

    assert_eq!(error.status, StatusCode::BAD_REQUEST.as_u16());
    assert_eq!(error.detail.param, Some("messages"));
}

#[test]
fn zero_max_tokens_is_rejected() {
    let request = ChatCompletionRequest {
        max_tokens: Some(0),
        ..valid_request()
    };

    let error = validate(&request).unwrap_err();

    assert_eq!(error.status, StatusCode::BAD_REQUEST.as_u16());
    assert_eq!(error.detail.param, Some("max_tokens"));
}

#[test]
fn model_is_checked_before_the_other_rules() {
    // Everything is wrong at once; the model is what gets reported.
    let request = ChatCompletionRequest {
        model: "llama-3-70b".to_owned(),
        messages: Vec::new(),
        stream: false,
        max_tokens: Some(0),
        ..valid_request()
    };

    let error = validate(&request).unwrap_err();

    assert_eq!(error.status, StatusCode::NOT_FOUND.as_u16());
    assert_eq!(error.detail.param, Some("model"));
}

// --- beyond the original suite ------------------------------------------

#[test]
fn stream_is_checked_before_messages_and_max_tokens() {
    let request = ChatCompletionRequest {
        messages: Vec::new(),
        stream: false,
        max_tokens: Some(0),
        ..valid_request()
    };

    let error = validate(&request).unwrap_err();

    assert_eq!(error.detail.param, Some("stream"));
    assert_eq!(error.detail.message, "streaming must be true");
    assert_eq!(error.detail.error_type, "invalid_request_error");
    assert_eq!(error.detail.code, None);
}

#[test]
fn messages_are_checked_before_max_tokens() {
    let request = ChatCompletionRequest {
        messages: Vec::new(),
        max_tokens: Some(0),
        ..valid_request()
    };

    let error = validate(&request).unwrap_err();

    assert_eq!(error.detail.param, Some("messages"));
    assert_eq!(error.detail.message, "messages must not be empty");
}

#[test]
fn zero_max_tokens_message_names_the_floor() {
    let request = ChatCompletionRequest {
        max_tokens: Some(0),
        ..valid_request()
    };

    let error = validate(&request).unwrap_err();

    assert_eq!(error.detail.message, "max_tokens must be at least 1");
}

#[test]
fn model_ids_are_compared_exactly() {
    for model in ["moonleaf-sim ", "Moonleaf-sim", "moonleaf", ""] {
        let request = ChatCompletionRequest {
            model: model.to_owned(),
            ..valid_request()
        };
        assert_eq!(
            validate(&request).unwrap_err().status,
            StatusCode::NOT_FOUND.as_u16()
        );
    }
}
