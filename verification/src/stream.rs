//! Planning one completion stream before any of it is emitted.
//!
//! A [`StreamPlan`] is the whole response decided up front: every chunk in
//! order, plus the delay to sleep before each one. Planning is pure: the
//! sampled values (output length, TTFT, inter-chunk gaps) come in as
//! arguments, so tests can assert exact chunks and delays, and the route
//! handler only replays the plan against real time.

use vstd::prelude::*;

use rand::rngs::StdRng;
use rand::{Rng, SeedableRng};

use crate::protocol::{
    content_of, ChatCompletionChunk, ChatCompletionRequest, ChunkChoice, Delta, FinishReason, Role, Usage,
};
use crate::routes::chat::is_servable;
use crate::tokenizer::{
    contents, law_synthesized_text_counts_back, lemma_total_chars_prefix, prompt_tokens,
    synthesized_text, token_count, token_text, token_word, total_chars,
};
use crate::MODEL_ID;

verus! {

/// A fully decided completion stream: chunks in emission order.
///
/// The terminating `[DONE]` sentinel is not part of the plan: it is SSE
/// framing, not a chunk, and the emitting layer owns it.
#[derive(Clone, Debug, PartialEq, Eq)]
pub struct StreamPlan {
    pub chunks: Vec<PlannedChunk>,
}

/// One chunk and the pause that precedes it.
#[derive(Clone, Debug, PartialEq, Eq)]
pub struct PlannedChunk {
    /// Sleep before emitting this chunk, relative to the previous one, in
    /// nanoseconds.
    pub delay_nanos: u64,
    pub chunk: ChatCompletionChunk,
}

// ---------------------------------------------------------------------------
// Randomness
// ---------------------------------------------------------------------------

#[verifier::external_type_specification]
#[verifier::external_body]
pub struct ExStdRng(StdRng);

/// The generator `StdRng::seed_from_u64` builds from `seed`.
pub uninterp spec fn seeded_rng(seed: u64) -> StdRng;

/// `StdRng::seed_from_u64`: a generator whose whole output stream is fixed by
/// `seed`. Trusted: the result is the named `seeded_rng` of the seed.
#[verifier::external_body]
fn seed_rng(seed: u64) -> (rng: StdRng)
    ensures
        rng == seeded_rng(seed),
{
    StdRng::seed_from_u64(seed)
}

/// `StdRng::try_from_os_rng`: a generator seeded from operating-system
/// entropy, or `None` when the entropy source fails. Nothing is stated of the
/// generator.
#[verifier::external_body]
fn try_os_rng() -> Option<StdRng> {
    StdRng::try_from_os_rng().ok()
}

/// The `u128` that `Rng::random::<u128>` draws from a generator in state `rng`.
pub uninterp spec fn drawn_u128(rng: StdRng) -> u128;

/// The state a generator in state `rng` is left in by `Rng::random::<u128>`.
pub uninterp spec fn after_u128(rng: StdRng) -> StdRng;

/// `Rng::random::<u128>` on the generator. The draw is a function of the
/// generator's state alone: trusted are that the value is the named
/// `drawn_u128` of the state before, and the state after is the named
/// `after_u128` of it; which value that is, is left to the names.
#[verifier::external_body]
fn random_u128(rng: &mut StdRng) -> (raw: u128)
    ensures
        raw == drawn_u128(*old(rng)),
        *final(rng) == after_u128(*old(rng)),
{
    rng.random::<u128>()
}

/// The generator one response draws from.
///
/// A request-supplied seed pins the generator completely, and with it every
/// draw of the response, the way a seed pins sampling on a real backend.
/// Without one the generator is seeded from the operating system, which is
/// `None` when its entropy source fails.
pub fn response_rng(seed: Option<u64>) -> (rng: Option<StdRng>)
    ensures
        seed matches Some(s) ==> rng == Some(seeded_rng(s)),
{
    match seed {
        Some(s) => Some(seed_rng(s)),
        None => try_os_rng(),
    }
}

// ---------------------------------------------------------------------------
// Response ids
// ---------------------------------------------------------------------------

/// Lowercase hexadecimal digits, by value.
pub const HEX_DIGITS: &'static str = "0123456789abcdef";

/// Prefix of every response id.
pub const ID_PREFIX: &'static str = "chatcmpl-";

/// The `i`-th of the 32 hexadecimal digits of `raw`, most significant first.
pub open spec fn nibble(raw: u128, i: int) -> u128 {
    (raw >> ((124 - 4 * i) as u128)) & 15u128
}

/// `raw` as 32 lowercase hexadecimal digits, zero-padded.
pub open spec fn hex32(raw: u128) -> Seq<char> {
    Seq::new(32, |i: int| HEX_DIGITS@[nibble(raw, i) as int])
}

/// The response id built from `raw`.
pub open spec fn response_id_text(raw: u128) -> Seq<char> {
    ID_PREFIX@ + hex32(raw)
}

/// The response id for `raw`: `chatcmpl-` and `raw` as 32 zero-padded
/// lowercase hexadecimal digits.
pub fn response_id(raw: u128) -> (id: String)
    ensures
        id@ == response_id_text(raw),
{
    proof {
        reveal_strlit("0123456789abcdef");
    }
    let mut id = String::from_str(ID_PREFIX);
    let mut i: u128 = 0;
    while i < 32
        invariant
            i <= 32,
            HEX_DIGITS@.len() == 16,
            id@ == ID_PREFIX@ + hex32(raw).take(i as int),
        decreases 32 - i,
    {
        let shift: u128 = 124 - 4 * i;
        let digit = (raw >> shift) & 15;
        assert(((raw >> shift) & 15u128) < 16) by (bit_vector);
        let d = digit as usize;
        let text = HEX_DIGITS.substring_char(d, d + 1);
        id.append(text);
        assert(hex32(raw).take(i + 1) =~= hex32(raw).take(i as int).push(HEX_DIGITS@[d as int]));
        i = i + 1;
    }
    assert(hex32(raw).take(32) =~= hex32(raw));
    id
}

/// The first draw of a response: its id, from one random `u128`.
pub fn draw_response_id(rng: &mut StdRng) -> (id: String)
    ensures
        id@ == response_id_text(drawn_u128(*old(rng))),
        *final(rng) == after_u128(*old(rng)),
{
    let raw = random_u128(rng);
    response_id(raw)
}

// ---------------------------------------------------------------------------
// Length and finish reason
// ---------------------------------------------------------------------------

/// How long the completion runs and why it stops.
///
/// `ignore_eos` means no stop token ever arrives: the completion runs to
/// `max_tokens` exactly when given (the sampled length is discarded), to the
/// sampled length otherwise, and always finishes as `length`. Otherwise the
/// sampled length is cut to `max_tokens` (finishing as `length`) or runs out
/// naturally (finishing as `stop`).
pub open spec fn completion_spec(ignore_eos: bool, max_tokens: Option<u32>, sampled: u32) -> (
    u32,
    FinishReason,
) {
    if ignore_eos {
        match max_tokens {
            Some(max) => (max, FinishReason::Length),
            None => (sampled, FinishReason::Length),
        }
    } else {
        match max_tokens {
            Some(max) => if sampled > max {
                (max, FinishReason::Length)
            } else {
                (sampled, FinishReason::Stop)
            },
            None => (sampled, FinishReason::Stop),
        }
    }
}

/// The completion length and finish reason for `request` given a sampled
/// length.
pub open spec fn request_completion(request: ChatCompletionRequest, sampled: u32) -> (
    u32,
    FinishReason,
) {
    completion_spec(request.ignore_eos == Some(true), request.max_tokens, sampled)
}

/// How long the completion runs and why it stops; see `completion_spec`.
pub fn length_and_reason(request: &ChatCompletionRequest, sampled: u32) -> (decided: (
    u32,
    FinishReason,
))
    ensures
        decided == request_completion(*request, sampled),
{
    let ignore_eos = match request.ignore_eos {
        Some(flag) => flag,
        None => false,
    };
    match (ignore_eos, request.max_tokens) {
        (true, Some(max)) => (max, FinishReason::Length),
        (true, None) => (sampled, FinishReason::Length),
        (false, Some(max)) => {
            if sampled > max {
                (max, FinishReason::Length)
            } else {
                (sampled, FinishReason::Stop)
            }
        },
        (false, None) => (sampled, FinishReason::Stop),
    }
}

// ---------------------------------------------------------------------------
// Chunks
// ---------------------------------------------------------------------------

/// The characters of an optional string.
pub open spec fn opt_chars(s: Option<String>) -> Option<Seq<char>> {
    match s {
        Some(t) => Some(t@),
        None => None,
    }
}

/// `chunk` belongs to the response `id` created at `created`.
pub open spec fn is_framed(chunk: ChatCompletionChunk, id: Seq<char>, created: u64) -> bool {
    &&& chunk.id@ == id
    &&& chunk.object@ == "chat.completion.chunk"@
    &&& chunk.created == created
    &&& chunk.model@ == MODEL_ID@
}

/// `chunk` carries one choice (index 0) with this delta and finish reason, and
/// no usage.
pub open spec fn has_single_choice(
    chunk: ChatCompletionChunk,
    role: Option<Role>,
    content: Option<Seq<char>>,
    finish_reason: Option<FinishReason>,
) -> bool {
    &&& chunk.choices@.len() == 1
    &&& chunk.choices@[0].index == 0
    &&& chunk.choices@[0].delta.role == role
    &&& opt_chars(chunk.choices@[0].delta.content) == content
    &&& chunk.choices@[0].finish_reason == finish_reason
    &&& chunk.usage is None
}

fn chunk(id: &str, created: u64, choices: Vec<ChunkChoice>, usage: Option<Usage>) -> (c:
    ChatCompletionChunk)
    ensures
        is_framed(c, id@, created),
        c.choices@ == choices@,
        c.usage == usage,
{
    ChatCompletionChunk {
        id: id.to_owned(),
        object: "chat.completion.chunk".to_owned(),
        created,
        model: MODEL_ID.to_owned(),
        choices,
        usage,
    }
}

fn choice(delta: Delta, finish_reason: Option<FinishReason>) -> (c: ChunkChoice)
    ensures
        c.index == 0,
        c.delta == delta,
        c.finish_reason == finish_reason,
{
    ChunkChoice { index: 0, delta, finish_reason }
}

fn single_choice_chunk(
    id: &str,
    created: u64,
    role: Option<Role>,
    content: Option<String>,
    finish_reason: Option<FinishReason>,
) -> (c: ChatCompletionChunk)
    ensures
        is_framed(c, id@, created),
        has_single_choice(c, role, opt_chars(content), finish_reason),
{
    let delta = Delta { role, content };
    let mut choices: Vec<ChunkChoice> = Vec::new();
    choices.push(choice(delta, finish_reason));
    chunk(id, created, choices, None)
}

// ---------------------------------------------------------------------------
// The plan
// ---------------------------------------------------------------------------

/// The request opted into a final usage chunk.
pub open spec fn wants_usage(request: ChatCompletionRequest) -> bool {
    request.stream_options matches Some(options) && options.include_usage
}

/// How many inter-chunk gaps a completion of `count` tokens needs: one before
/// each content chunk after the first.
pub open spec fn gap_count(count: u32) -> int {
    if count == 0 {
        0
    } else {
        count - 1
    }
}

/// The content chunk `k` (0-based) of a plan: one filler token, preceded by
/// no delay for the first and by the `k`-th sampled gap for the others.
pub open spec fn is_content_chunk(
    planned: PlannedChunk,
    id: Seq<char>,
    created: u64,
    k: int,
    gaps: Seq<u64>,
) -> bool {
    &&& planned.delay_nanos == (if k == 0 {
        0
    } else {
        gaps[k - 1]
    })
    &&& is_framed(planned.chunk, id, created)
    &&& has_single_choice(planned.chunk, None, Some(token_word(k)), None)
}

/// `plan` is the stream for `request` under response `id`, creation time
/// `created`, sampled length `sampled`, TTFT `ttft_nanos` and inter-chunk gaps
/// `gaps`.
///
/// The emitted sequence: a role-only delta after the TTFT delay, the first
/// content chunk immediately behind it (so client-observed TTFT is the
/// injected TTFT), one 4-char token per content chunk with its gap before
/// each later one, then a `finish_reason` chunk and, only under
/// `stream_options.include_usage`, a choice-less usage chunk reporting the
/// prompt and completion token counts truthfully, both with zero delay so
/// bookkeeping never distorts inter-chunk timing.
pub open spec fn is_stream_plan(
    plan: Seq<PlannedChunk>,
    request: ChatCompletionRequest,
    id: Seq<char>,
    created: u64,
    sampled: u32,
    ttft_nanos: u64,
    gaps: Seq<u64>,
) -> bool {
    let (count, reason) = request_completion(request, sampled);
    let n = count as int;
    let prompt = token_count(contents(request.messages@));
    &&& plan.len() == n + 2 + (if wants_usage(request) {
        1int
    } else {
        0int
    })
    &&& plan[0].delay_nanos == ttft_nanos
    &&& is_framed(plan[0].chunk, id, created)
    &&& has_single_choice(plan[0].chunk, Some(Role::Assistant), None, None)
    &&& forall|j: int| 1 <= j <= n ==> is_content_chunk(#[trigger] plan[j], id, created, j - 1, gaps)
    &&& plan[n + 1].delay_nanos == 0
    &&& is_framed(plan[n + 1].chunk, id, created)
    &&& has_single_choice(plan[n + 1].chunk, None, None, Some(reason))
    &&& wants_usage(request) ==> {
        &&& plan[n + 2].delay_nanos == 0
        &&& is_framed(plan[n + 2].chunk, id, created)
        &&& plan[n + 2].chunk.choices@.len() == 0
        &&& plan[n + 2].chunk.usage == Some(
            Usage {
                prompt_tokens: prompt as u32,
                completion_tokens: count,
                total_tokens: (prompt + count) as u32,
            },
        )
    }
}

/// Whether the usage counts of the completion fit in `u32`: the condition
/// `from_samples` needs on top of the gap count. Always true when the request
/// did not opt into usage.
pub fn usage_fits(request: &ChatCompletionRequest, sampled: u32) -> (fits: bool)
    ensures
        fits == (wants_usage(*request) ==> token_count(contents(request.messages@))
            + request_completion(*request, sampled).0 <= u32::MAX),
{
    let include_usage = match request.stream_options {
        Some(options) => options.include_usage,
        None => false,
    };
    if !include_usage {
        return true;
    }
    assert(wants_usage(*request));
    let (count, _) = length_and_reason(request, sampled);
    let cap: u64 = 0x4_0000_0000;
    let n = request.messages.len();
    let mut total: u64 = 0;
    let mut i: usize = 0;
    while i < n
        invariant
            n == request.messages@.len(),
            i <= n,
            wants_usage(*request),
            cap == 0x4_0000_0000u64,
            total <= cap,
            total == total_chars(contents(request.messages@).take(i as int)),
        decreases n - i,
    {
        let chars = request.messages[i].content.as_str().unicode_len() as u64;
        proof {
            let all = contents(request.messages@);
            assert(all.take(i + 1).drop_last() =~= all.take(i as int));
            lemma_total_chars_prefix(all, i + 1);
        }
        if chars > cap - total {
            proof {
                let all = contents(request.messages@);
                assert(all.take(i + 1).last() == request.messages@[i as int].content@);
                assert(total_chars(all.take(i + 1)) == total + chars);
                assert(total_chars(all) > 0x4_0000_0000);
                assert(token_count(all) > u32::MAX);
            }
            return false;
        }
        total = total + chars;
        i = i + 1;
    }
    proof {
        assert(contents(request.messages@).take(n as int) =~= contents(request.messages@));
    }
    (total + 3) / 4 + count as u64 <= 0xffff_ffff
}

impl StreamPlan {
    /// Builds the complete plan for one validated request from its sampled
    /// values: output length `sampled`, TTFT `ttft_nanos`, and one gap per
    /// content chunk after the first.
    ///
    /// Under `include_usage` the prompt and total token counts must fit in
    /// `u32`.
    pub fn from_samples(
        request: &ChatCompletionRequest,
        id: &str,
        created: u64,
        sampled: u32,
        ttft_nanos: u64,
        gaps: &[u64],
    ) -> (plan: Self)
        requires
            gaps@.len() == gap_count(request_completion(*request, sampled).0),
            wants_usage(*request) ==> token_count(contents(request.messages@))
                + request_completion(*request, sampled).0 <= u32::MAX,
        ensures
            is_stream_plan(plan.chunks@, *request, id@, created, sampled, ttft_nanos, gaps@),
    {
        let (count, finish_reason) = length_and_reason(request, sampled);
        let ghost reason = finish_reason;
        let mut chunks: Vec<PlannedChunk> = Vec::new();

        chunks.push(
            PlannedChunk {
                delay_nanos: ttft_nanos,
                chunk: single_choice_chunk(id, created, Some(Role::Assistant), None, None),
            },
        );

        let mut index: u32 = 0;
        while index < count
            invariant
                (count, reason) == request_completion(*request, sampled),
                finish_reason == reason,
                gaps@.len() == gap_count(count),
                index <= count,
                chunks@.len() == index + 1,
                chunks@[0].delay_nanos == ttft_nanos,
                is_framed(chunks@[0].chunk, id@, created),
                has_single_choice(chunks@[0].chunk, Some(Role::Assistant), None, None),
                forall|j: int|
                    1 <= j <= index ==> is_content_chunk(#[trigger] chunks@[j], id@, created, j - 1, gaps@),
            decreases count - index,
        {
            let delay_nanos = if index == 0 {
                0
            } else {
                gaps[(index - 1) as usize]
            };
            let text = token_text(index as usize);
            let planned = PlannedChunk {
                delay_nanos,
                chunk: single_choice_chunk(id, created, None, Some(text.to_owned()), None),
            };
            chunks.push(planned);
            index = index + 1;
        }

        chunks.push(
            PlannedChunk {
                delay_nanos: 0,
                chunk: single_choice_chunk(id, created, None, None, Some(finish_reason)),
            },
        );

        let include_usage = match request.stream_options {
            Some(options) => options.include_usage,
            None => false,
        };
        if include_usage {
            let prompt = prompt_tokens(request.messages.as_slice());
            let usage = Usage {
                prompt_tokens: prompt,
                completion_tokens: count,
                total_tokens: prompt + count,
            };
            chunks.push(
                PlannedChunk { delay_nanos: 0, chunk: chunk(id, created, Vec::new(), Some(usage)) },
            );
        }
        StreamPlan { chunks }
    }
}


// ---------------------------------------------------------------------------
// Laws
// ---------------------------------------------------------------------------

/// The completion text a client reassembles from a stream: every chunk's
/// content, in order.
pub open spec fn plan_text(plan: Seq<PlannedChunk>) -> Seq<char>
    decreases plan.len(),
{
    if plan.len() == 0 {
        Seq::empty()
    } else {
        plan_text(plan.drop_last()) + match content_of(plan.last().chunk) {
            Some(text) => text,
            None => Seq::empty(),
        }
    }
}

/// The first `j + 1` chunks of a plan carry the first `j` synthesized tokens.
proof fn lemma_plan_text_prefix(
    plan: Seq<PlannedChunk>,
    request: ChatCompletionRequest,
    id: Seq<char>,
    created: u64,
    sampled: u32,
    ttft_nanos: u64,
    gaps: Seq<u64>,
    j: int,
)
    requires
        is_stream_plan(plan, request, id, created, sampled, ttft_nanos, gaps),
        0 <= j <= request_completion(request, sampled).0,
    ensures
        plan_text(plan.take(j + 1)) == synthesized_text(j as nat),
    decreases j,
{
    let prefix = plan.take(j + 1);
    assert(prefix.last() == plan[j]);
    if j == 0 {
        assert(prefix.drop_last() =~= Seq::<PlannedChunk>::empty());
        assert(content_of(plan[0].chunk) is None);
        assert(plan_text(prefix.drop_last()) == Seq::<char>::empty());
        assert(plan_text(prefix) =~= Seq::<char>::empty());
    } else {
        lemma_plan_text_prefix(plan, request, id, created, sampled, ttft_nanos, gaps, j - 1);
        assert(prefix.drop_last() =~= plan.take(j));
        assert(is_content_chunk(plan[j], id, created, j - 1, gaps));
        assert(content_of(plan[j].chunk) == Some(token_word(j - 1)));
        assert(plan_text(prefix) == plan_text(plan.take(j)) + token_word(j - 1));
    }
}

/// Usage is truthful: the completion text a client reassembles from a planned
/// stream is exactly the synthesized text of the planned length, so it
/// measures, under the prompt-counting rule, as exactly the
/// `completion_tokens` the usage chunk reports.
pub proof fn law_streamed_text_counts_as_completion_tokens(
    plan: Seq<PlannedChunk>,
    request: ChatCompletionRequest,
    id: Seq<char>,
    created: u64,
    sampled: u32,
    ttft_nanos: u64,
    gaps: Seq<u64>,
)
    requires
        is_stream_plan(plan, request, id, created, sampled, ttft_nanos, gaps),
    ensures
        plan_text(plan) == synthesized_text(request_completion(request, sampled).0 as nat),
        token_count(seq![plan_text(plan)]) == request_completion(request, sampled).0,
{
    let n = request_completion(request, sampled).0 as int;
    lemma_plan_text_prefix(plan, request, id, created, sampled, ttft_nanos, gaps, n);
    let with_finish = plan.take(n + 2);
    assert(with_finish.drop_last() =~= plan.take(n + 1));
    assert(with_finish.last() == plan[n + 1]);
    assert(content_of(plan[n + 1].chunk) is None);
    assert(plan_text(with_finish) =~= plan_text(plan.take(n + 1)));
    if wants_usage(request) {
        assert(plan.drop_last() =~= with_finish);
        assert(content_of(plan[n + 2].chunk) is None);
        assert(plan_text(plan) =~= plan_text(with_finish));
    } else {
        assert(plan =~= with_finish);
    }
    law_synthesized_text_counts_back(n as nat);
}


/// Every response is measurable: a request that passes validation, given a
/// sampled length of at least one token, streams at least one content chunk.
pub proof fn law_servable_requests_stream_content(request: ChatCompletionRequest, sampled: u32)
    requires
        is_servable(request),
        sampled >= 1,
    ensures
        request_completion(request, sampled).0 >= 1,
{
}


/// Seeded reproducibility of the id draw: generators built from equal seeds
/// draw equal response ids and are left in equal states, so every later draw
/// starts from the same place too.
pub proof fn law_equal_seeds_draw_equal_ids(seed1: u64, seed2: u64)
    requires
        seed1 == seed2,
    ensures
        response_id_text(drawn_u128(seeded_rng(seed1))) == response_id_text(
            drawn_u128(seeded_rng(seed2)),
        ),
        after_u128(seeded_rng(seed1)) == after_u128(seeded_rng(seed2)),
{
}


/// How long a completion runs, in terms of the request alone:
/// - `max_tokens` is a hard cap: the completion never runs past it;
/// - under `ignore_eos` with `max_tokens` the completion runs to exactly
///   `max_tokens`, whatever length was sampled, and finishes as `length`;
/// - without `max_tokens` the sampled length is used as is;
/// - without `ignore_eos` the completion runs the sampled length cut to
///   `max_tokens` (never past either), and it stops naturally (`stop`) exactly when it runs the full sampled
///   length, otherwise it is cut (`length`);
/// - under `ignore_eos` it always finishes as `length`.
pub proof fn law_completion_length(request: ChatCompletionRequest, sampled: u32)
    ensures
        ({
            let (count, reason) = request_completion(request, sampled);
            &&& request.max_tokens matches Some(m) ==> count <= m
            &&& request.ignore_eos == Some(true) ==> (request.max_tokens matches Some(m) ==> count
                == m)
            &&& request.max_tokens is None ==> count == sampled
            &&& request.ignore_eos != Some(true) ==> count <= sampled
            &&& request.ignore_eos != Some(true) ==> (request.max_tokens matches Some(m) ==> (count
                == sampled || count == m))
            &&& request.ignore_eos != Some(true) ==> (reason == FinishReason::Stop <==> count
                == sampled)
            &&& request.ignore_eos != Some(true) ==> (reason == FinishReason::Stop || reason
                == FinishReason::Length)
            &&& request.ignore_eos == Some(true) ==> reason == FinishReason::Length
        }),
{
}

} // verus!
