use moonleaf::protocol::{
    ChatCompletionChunk, ChatCompletionRequest, ChunkChoice, Delta, FinishReason, Message, Role,
    StreamOptions, Usage,
};
use moonleaf::stream::{
    draw_response_id, length_and_reason, response_id, response_rng, usage_fits, StreamPlan,
};
use moonleaf::routes::chat::validate;
use moonleaf::tokenizer::prompt_tokens;
use moonleaf::MODEL_ID;

const CREATED: u64 = 1_700_000_000;

/// Milliseconds as the plan's nanosecond delays.
fn ms(millis: u64) -> u64 {
    millis * 1_000_000
}

fn request() -> ChatCompletionRequest {
    ChatCompletionRequest {
        model: MODEL_ID.to_owned(),
        messages: vec![Message {
            role: Role::User,
            content: "hi".to_owned(),
        }],
        stream: true,
        stream_options: None,
        max_tokens: None,
        seed: None,
        ignore_eos: None,
    }
}

/// The plan a fixed injector (200 ms TTFT, 25 ms gaps, 4-token outputs)
/// samples, with the id drawn from a generator seeded with 7.
fn plan(request: &ChatCompletionRequest) -> StreamPlan {
    plan_with(request, 4)
}

fn plan_with(request: &ChatCompletionRequest, sampled: u32) -> StreamPlan {
    let mut rng = response_rng(Some(7)).unwrap();
    let id = draw_response_id(&mut rng);
    let (count, _) = length_and_reason(request, sampled);
    let gaps = vec![ms(25); count.saturating_sub(1) as usize];
    StreamPlan::from_samples(request, &id, CREATED, sampled, ms(200), &gaps)
}

/// The chunks that carry completion text, in order.
fn contents(plan: &StreamPlan) -> Vec<&str> {
    plan.chunks
        .iter()
        .filter_map(|planned| planned.chunk.content())
        .collect()
}

#[test]
fn plan_runs_role_content_finish() {
    let plan = plan(&request());

    // Role + 4 content + finish, no usage chunk without the opt-in.
    assert_eq!(plan.chunks.len(), 6);

    let role = &plan.chunks[0].chunk;
    assert_eq!(role.choices[0].delta.role, Some(Role::Assistant));
    assert_eq!(role.choices[0].delta.content, None);

    assert_eq!(contents(&plan).len(), 4);

    let finish = &plan.chunks[5].chunk;
    assert_eq!(finish.choices[0].delta, Delta::default());
    assert_eq!(finish.choices[0].finish_reason, Some(FinishReason::Stop));
}

#[test]
fn every_chunk_shares_the_response_identity() {
    let plan = plan(&request());

    for planned in &plan.chunks {
        assert_eq!(planned.chunk.id, plan.chunks[0].chunk.id);
        assert_eq!(planned.chunk.object, "chat.completion.chunk");
        assert_eq!(planned.chunk.created, CREATED);
        assert_eq!(planned.chunk.model, MODEL_ID);
    }
    assert!(plan.chunks[0].chunk.id.starts_with("chatcmpl-"));
}

#[test]
fn delays_replay_the_injected_distributions() {
    let plan = plan(&request());

    let delays: Vec<u64> = plan.chunks.iter().map(|planned| planned.delay_nanos).collect();

    // TTFT before the role chunk, nothing before the first content chunk,
    // one inter-chunk gap before each later token, free bookkeeping.
    assert_eq!(delays, vec![ms(200), 0, ms(25), ms(25), ms(25), 0]);
}

#[test]
fn each_content_chunk_is_one_four_char_token() {
    for content in contents(&plan(&request())) {
        assert_eq!(content.len(), 4);
        assert!(content.is_ascii());
    }
}

#[test]
fn sampled_length_past_max_tokens_cuts_to_length() {
    let request = ChatCompletionRequest {
        max_tokens: Some(2),
        ..request()
    };

    let plan = plan(&request);

    assert_eq!(contents(&plan).len(), 2);
    let finish = &plan.chunks[plan.chunks.len() - 1].chunk;
    assert_eq!(finish.choices[0].finish_reason, Some(FinishReason::Length));
}

#[test]
fn sampled_length_within_max_tokens_stops_naturally() {
    let request = ChatCompletionRequest {
        max_tokens: Some(100),
        ..request()
    };

    let plan = plan(&request);

    assert_eq!(contents(&plan).len(), 4);
    let finish = &plan.chunks[plan.chunks.len() - 1].chunk;
    assert_eq!(finish.choices[0].finish_reason, Some(FinishReason::Stop));
}

#[test]
fn ignore_eos_runs_to_exactly_max_tokens() {
    let request = ChatCompletionRequest {
        max_tokens: Some(16),
        ignore_eos: Some(true),
        ..request()
    };

    let plan = plan(&request);

    assert_eq!(contents(&plan).len(), 16);
    let finish = &plan.chunks[plan.chunks.len() - 1].chunk;
    assert_eq!(finish.choices[0].finish_reason, Some(FinishReason::Length));
}

#[test]
fn usage_reports_truthfully_when_opted_in() {
    let request = ChatCompletionRequest {
        stream_options: Some(StreamOptions {
            include_usage: true,
        }),
        ..request()
    };

    let plan = plan(&request);

    let usage_chunk = &plan.chunks[plan.chunks.len() - 1];
    assert_eq!(usage_chunk.delay_nanos, 0);
    assert!(usage_chunk.chunk.choices.is_empty());
    // "hi" is 2 chars -> 1 prompt token under the 4-chars/token rule.
    assert_eq!(
        usage_chunk.chunk.usage,
        Some(Usage {
            prompt_tokens: 1,
            completion_tokens: 4,
            total_tokens: 5,
        })
    );

    // Every earlier chunk leaves usage unset.
    for planned in &plan.chunks[..plan.chunks.len() - 1] {
        assert_eq!(planned.chunk.usage, None);
    }
}

#[test]
fn no_usage_chunk_without_the_opt_in() {
    for planned in &plan(&request()).chunks {
        assert_eq!(planned.chunk.usage, None);
    }
}

#[test]
fn same_seed_and_samples_reproduce_the_whole_plan() {
    let first = plan_with(&request(), 37);
    let second = plan_with(&request(), 37);

    assert_eq!(first, second);
}

// --- beyond the original suite ------------------------------------------

#[test]
fn streamed_text_counts_back_as_completion_tokens() {
    let request = ChatCompletionRequest {
        stream_options: Some(StreamOptions {
            include_usage: true,
        }),
        ..request()
    };
    let plan = plan_with(&request, 30);

    let text: String = contents(&plan).concat();
    let usage = plan.chunks.last().unwrap().chunk.usage.unwrap();
    let measured = prompt_tokens(&[Message {
        role: Role::Assistant,
        content: text,
    }]);

    assert_eq!(usage.completion_tokens, 30);
    assert_eq!(measured, usage.completion_tokens);
}

#[test]
fn zero_sampled_tokens_plan_has_no_content() {
    let plan = plan_with(&request(), 0);

    assert_eq!(plan.chunks.len(), 2);
    assert!(contents(&plan).is_empty());
}

#[test]
fn length_and_reason_cases() {
    let plain = request();
    assert_eq!(length_and_reason(&plain, 9), (9, FinishReason::Stop));

    let capped = ChatCompletionRequest {
        max_tokens: Some(5),
        ..request()
    };
    assert_eq!(length_and_reason(&capped, 9), (5, FinishReason::Length));
    assert_eq!(length_and_reason(&capped, 5), (5, FinishReason::Stop));

    let ignore = ChatCompletionRequest {
        ignore_eos: Some(true),
        ..request()
    };
    assert_eq!(length_and_reason(&ignore, 9), (9, FinishReason::Length));

    let ignore_capped = ChatCompletionRequest {
        ignore_eos: Some(true),
        max_tokens: Some(50),
        ..request()
    };
    assert_eq!(length_and_reason(&ignore_capped, 9), (50, FinishReason::Length));

    let explicit_false = ChatCompletionRequest {
        ignore_eos: Some(false),
        max_tokens: Some(5),
        ..request()
    };
    assert_eq!(length_and_reason(&explicit_false, 3), (3, FinishReason::Stop));
}

#[test]
fn response_ids_are_32_zero_padded_lowercase_hex_digits() {
    assert_eq!(response_id(0), format!("chatcmpl-{}", "0".repeat(32)));
    assert_eq!(response_id(u128::MAX), format!("chatcmpl-{}", "f".repeat(32)));
    let raw: u128 = 0x0123_4567_89ab_cdef_fedc_ba98_7654_3210;
    assert_eq!(response_id(raw), format!("chatcmpl-{raw:032x}"));
    assert_eq!(response_id(0xbeef), format!("chatcmpl-{:032x}", 0xbeef));
}

#[test]
fn seeded_generators_draw_the_same_id() {
    let a = draw_response_id(&mut response_rng(Some(99)).unwrap());
    let b = draw_response_id(&mut response_rng(Some(99)).unwrap());
    let c = draw_response_id(&mut response_rng(Some(100)).unwrap());

    assert_eq!(a, b);
    assert_ne!(a, c);
    assert_eq!(a.len(), "chatcmpl-".len() + 32);
}

#[test]
fn content_reads_the_first_choice() {
    let with_text = ChatCompletionChunk {
        id: String::new(),
        object: String::new(),
        created: 0,
        model: String::new(),
        choices: vec![ChunkChoice {
            index: 0,
            delta: Delta {
                role: None,
                content: Some("hi".to_owned()),
            },
            finish_reason: None,
        }],
        usage: None,
    };
    assert_eq!(with_text.content(), Some("hi"));

    let role_only = ChatCompletionChunk {
        choices: vec![ChunkChoice {
            index: 0,
            delta: Delta {
                role: Some(Role::Assistant),
                content: None,
            },
            finish_reason: None,
        }],
        ..with_text.clone()
    };
    assert_eq!(role_only.content(), None);

    let usage_only = ChatCompletionChunk {
        choices: Vec::new(),
        ..with_text.clone()
    };
    assert_eq!(usage_only.content(), None);
}

#[test]
fn validated_requests_with_a_sampled_token_stream_content() {
    for max_tokens in [None, Some(1), Some(7)] {
        for ignore_eos in [None, Some(false), Some(true)] {
            let request = ChatCompletionRequest {
                max_tokens,
                ignore_eos,
                ..request()
            };
            assert!(validate(&request).is_ok());
            let (count, _) = length_and_reason(&request, 1);
            assert!(count >= 1);
            assert!(!contents(&plan_with(&request, 1)).is_empty());
        }
    }
}

#[test]
fn unseeded_generator_is_available() {
    assert!(response_rng(None).is_some());
}

#[test]
fn seeded_generators_stay_in_step_across_draws() {
    let mut a = response_rng(Some(5)).unwrap();
    let mut b = response_rng(Some(5)).unwrap();
    assert_eq!(draw_response_id(&mut a), draw_response_id(&mut b));
    // Equal states after the first draw, so the second draws agree too.
    assert_eq!(draw_response_id(&mut a), draw_response_id(&mut b));
    let first = draw_response_id(&mut response_rng(Some(5)).unwrap());
    assert_ne!(draw_response_id(&mut a), first);
}

#[test]
fn usage_fits_tracks_the_u32_bound() {
    let plain = request();
    assert!(usage_fits(&plain, u32::MAX));

    let with_usage = ChatCompletionRequest {
        stream_options: Some(StreamOptions {
            include_usage: true,
        }),
        ..request()
    };
    // "hi" is one prompt token.
    assert!(usage_fits(&with_usage, u32::MAX - 1));
    assert!(!usage_fits(&with_usage, u32::MAX));

    let opted_out = ChatCompletionRequest {
        stream_options: Some(StreamOptions {
            include_usage: false,
        }),
        ..request()
    };
    assert!(usage_fits(&opted_out, u32::MAX));
}
