//! The deterministic ~4-chars/token rule.
//!
//! There is no real tokenizer here on purpose. The simulator needs token
//! counts that are simple, seed-free, and exactly reproducible, so one rule
//! covers both directions: incoming text counts 4 characters per token, and
//! synthesized completions emit exactly 4 ASCII characters per token.

use vstd::prelude::*;

use crate::protocol::Message;

verus! {

/// Filler vocabulary for synthesized completions. Every entry is exactly 4
/// ASCII characters, the invariant the truthful `usage` story rests on.
pub const FILLER: [&'static str; 12] = [
    "the ",
    "and ",
    "for ",
    "but ",
    "not ",
    "you ",
    "all ",
    "can ",
    "her ",
    "was ",
    "one ",
    "our ",
];

/// The `k`-th filler word, for `0 <= k < 12`.
pub open spec fn filler_word(k: int) -> Seq<char> {
    FILLER@[k]@
}

/// The text of the `index`-th token of a synthesized completion.
pub open spec fn token_word(index: int) -> Seq<char> {
    filler_word(index % 12)
}

/// Every filler word is 4 ASCII characters.
pub proof fn lemma_filler_word_shape(k: int)
    requires
        0 <= k < 12,
    ensures
        filler_word(k).len() == 4,
        forall|j: int| 0 <= j < 4 ==> (#[trigger] filler_word(k)[j] as u32) < 128,
{
    reveal_strlit("the ");
    reveal_strlit("and ");
    reveal_strlit("for ");
    reveal_strlit("but ");
    reveal_strlit("not ");
    reveal_strlit("you ");
    reveal_strlit("all ");
    reveal_strlit("can ");
    reveal_strlit("her ");
    reveal_strlit("was ");
    reveal_strlit("one ");
    reveal_strlit("our ");
}

/// The `index`-th filler token of a synthesized completion.
///
/// Indexes past the vocabulary wrap around, so any completion length works.
pub fn token_text(index: usize) -> (text: &'static str)
    ensures
        text@ == token_word(index as int),
        text@.len() == 4,
        forall|j: int| 0 <= j < 4 ==> (#[trigger] text@[j] as u32) < 128,
{
    proof {
        lemma_filler_word_shape(index as int % 12);
    }
    FILLER[index % FILLER.len()]
}

/// Total characters (not bytes) across `texts`.
pub open spec fn total_chars(texts: Seq<Seq<char>>) -> nat
    decreases texts.len(),
{
    if texts.len() == 0 {
        0
    } else {
        total_chars(texts.drop_last()) + texts.last().len()
    }
}

/// The rule: total characters, summed first, then divided by 4, rounded up.
pub open spec fn token_count(texts: Seq<Seq<char>>) -> nat {
    (total_chars(texts) + 3) / 4
}

/// The contents of `messages`, as characters.
pub open spec fn contents(messages: Seq<Message>) -> Seq<Seq<char>> {
    messages.map_values(|m: Message| m.content@)
}

/// Counts the prompt tokens a request's messages amount to.
///
/// The count must fit in `u32`: a prompt past that is a ~17 GB body, far past
/// anything the server would realistically be handed.
pub fn prompt_tokens(messages: &[Message]) -> (tokens: u32)
    requires
        token_count(contents(messages@)) <= u32::MAX,
    ensures
        tokens == token_count(contents(messages@)),
{
    let n = messages.len();
    let mut total: u64 = 0;
    let mut i: usize = 0;
    while i < n
        invariant
            n == messages@.len(),
            i <= n,
            token_count(contents(messages@)) <= u32::MAX,
            total == total_chars(contents(messages@).take(i as int)),
        decreases n - i,
    {
        let count = messages[i].content.as_str().unicode_len();
        proof {
            let all = contents(messages@);
            assert(all.take(i + 1).drop_last() =~= all.take(i as int));
            lemma_total_chars_prefix(all, i + 1);
        }
        total = total + count as u64;
        i = i + 1;
    }
    proof {
        assert(contents(messages@).take(n as int) =~= contents(messages@));
    }
    ((total + 3) / 4) as u32
}

/// Characters of a prefix never exceed characters of the whole.
pub proof fn lemma_total_chars_prefix(texts: Seq<Seq<char>>, k: int)
    requires
        0 <= k <= texts.len(),
    ensures
        total_chars(texts.take(k)) <= total_chars(texts),
    decreases texts.len() - k,
{
    if k < texts.len() {
        lemma_total_chars_prefix(texts, k + 1);
        assert(texts.take(k + 1).drop_last() =~= texts.take(k));
    } else {
        assert(texts.take(k) =~= texts);
    }
}

/// The text of a synthesized completion of `n` tokens.
pub open spec fn synthesized_text(n: nat) -> Seq<char>
    decreases n,
{
    if n == 0 {
        Seq::empty()
    } else {
        synthesized_text((n - 1) as nat) + token_word(n - 1)
    }
}

/// The truthful-usage invariant: a synthesized completion of `n` filler tokens
/// measures as exactly `n` tokens under the counting rule.
pub proof fn law_synthesized_text_counts_back(n: nat)
    ensures
        synthesized_text(n).len() == 4 * n,
        token_count(seq![synthesized_text(n)]) == n,
    decreases n,
{
    if n > 0 {
        law_synthesized_text_counts_back((n - 1) as nat);
        lemma_filler_word_shape((n - 1) % 12);
    }
    let texts = seq![synthesized_text(n)];
    assert(texts.drop_last() =~= Seq::<Seq<char>>::empty());
    assert(total_chars(texts.drop_last()) == 0);
    assert(texts.last() == synthesized_text(n));
    assert(total_chars(texts) == 4 * n);
}


/// Characters counted one text at a time add up to the characters of all the
/// texts laid end to end.
proof fn lemma_total_chars_flatten(texts: Seq<Seq<char>>)
    ensures
        total_chars(texts) == texts.flatten().len(),
    decreases texts.len(),
{
    if texts.len() > 0 {
        lemma_total_chars_flatten(texts.drop_last());
        assert(texts.drop_last().push(texts.last()) =~= texts);
        texts.drop_last().lemma_flatten_push(texts.last());
    }
}

/// The prompt is counted as a whole: the characters of every message's
/// content, all of them, summed first, then divided by 4 and rounded up. So
/// the count is that of one message holding all the contents laid end to end,
/// and adding a message adds its characters before the division.
pub proof fn law_prompt_tokens_count_every_message(messages: Seq<Message>, added: Message)
    ensures
        token_count(contents(messages)) == (messages.map_values(|m: Message| m.content@).flatten().len()
            + 3) / 4,
        token_count(contents(messages.push(added))) == (messages.map_values(
            |m: Message| m.content@,
        ).flatten().len() + added.content@.len() + 3) / 4,
{
    let texts = messages.map_values(|m: Message| m.content@);
    lemma_total_chars_flatten(texts);
    let more = messages.push(added).map_values(|m: Message| m.content@);
    assert(more =~= texts.push(added.content@));
    lemma_total_chars_flatten(more);
    texts.lemma_flatten_push(added.content@);
}

} // verus!
