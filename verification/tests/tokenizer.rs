use moonleaf::protocol::{Message, Role};
use moonleaf::tokenizer::{prompt_tokens, token_text, FILLER};

fn message(content: &str) -> Message {
    Message {
        role: Role::User,
        content: content.to_owned(),
    }
}

#[test]
fn every_filler_entry_is_four_ascii_chars() {
    for entry in FILLER {
        assert!(entry.is_ascii(), "not ASCII: {entry:?}");
        assert_eq!(entry.len(), 4, "not 4 chars: {entry:?}");
    }
}

#[test]
fn token_text_cycles_through_the_vocabulary() {
    assert_eq!(token_text(0), FILLER[0]);
    assert_eq!(token_text(1), FILLER[1]);
    assert_eq!(token_text(FILLER.len()), FILLER[0]);
    assert_eq!(token_text(FILLER.len() + 1), FILLER[1]);
}

#[test]
fn four_characters_count_as_one_token() {
    assert_eq!(prompt_tokens(&[message("abcd")]), 1);
}

#[test]
fn a_partial_token_rounds_up() {
    assert_eq!(prompt_tokens(&[message("abcde")]), 2);
}

#[test]
fn characters_sum_across_messages_before_dividing() {
    // Two 2-char messages are one 4-char prompt, not two rounded-up ones.
    assert_eq!(prompt_tokens(&[message("ab"), message("cd")]), 1);
}

#[test]
fn multi_byte_characters_count_as_single_characters() {
    // Three chars but six bytes: the rule counts chars, so one token.
    assert_eq!(prompt_tokens(&[message("ééé")]), 1);
}

#[test]
fn empty_content_counts_nothing() {
    assert_eq!(prompt_tokens(&[message("")]), 0);
}

#[test]
fn synthesized_completions_count_back_exactly() {
    // The truthful-usage invariant: n filler tokens measure as n tokens.
    // 30 also wraps the 12-entry vocabulary more than twice.
    let text: String = (0..30).map(token_text).collect();
    assert_eq!(prompt_tokens(&[message(&text)]), 30);
}

#[test]
fn no_messages_count_nothing() {
    assert_eq!(prompt_tokens(&[]), 0);
}

#[test]
fn token_text_wraps_at_exact_multiples() {
    assert_eq!(token_text(11), "our ");
    assert_eq!(token_text(24), "the ");
    assert_eq!(token_text(usize::MAX), FILLER[usize::MAX % 12]);
}
