//! OpenAI-compatible chat completions protocol types.
//!
//! The same types serve both directions: the measurement client builds
//! requests and reads streaming chunks, the simulator does the reverse. The
//! JSON encoding of these types lives with the I/O layer; here they are plain
//! values.

use vstd::prelude::*;

verus! {

/// A chat completions request: the fields the simulator acts on.
#[derive(Clone, Debug, PartialEq, Eq)]
pub struct ChatCompletionRequest {
    pub model: String,
    pub messages: Vec<Message>,
    /// Defaulted to false when absent, so a non-streaming request can be
    /// rejected with a real message instead of failing as a malformed body.
    pub stream: bool,
    pub stream_options: Option<StreamOptions>,
    pub max_tokens: Option<u32>,
    pub seed: Option<u64>,
    /// vLLM extension: keep decoding to `max_tokens` instead of stopping at an
    /// end-of-sequence token, so output length is controlled by the workload.
    pub ignore_eos: Option<bool>,
}

/// One message in a request's conversation.
#[derive(Clone, Debug, PartialEq, Eq)]
pub struct Message {
    pub role: Role,
    pub content: String,
}

#[derive(Clone, Copy, Debug, PartialEq, Eq, Structural)]
pub enum Role {
    System,
    User,
    Assistant,
}

/// Opts into a final chunk carrying token counts.
#[derive(Clone, Copy, Debug, PartialEq, Eq, Structural)]
pub struct StreamOptions {
    pub include_usage: bool,
}

/// One SSE frame of a streaming response.
#[derive(Clone, Debug, PartialEq, Eq)]
pub struct ChatCompletionChunk {
    pub id: String,
    pub object: String,
    pub created: u64,
    pub model: String,
    /// Empty on the final usage-only chunk sent under `include_usage`.
    pub choices: Vec<ChunkChoice>,
    /// Absent on content chunks.
    pub usage: Option<Usage>,
}

#[derive(Clone, Debug, PartialEq, Eq)]
pub struct ChunkChoice {
    pub index: u32,
    pub delta: Delta,
    pub finish_reason: Option<FinishReason>,
}

/// The incremental piece of a message carried by one chunk. The first chunk of
/// a choice typically carries the role, the last carries neither field.
#[derive(Clone, Debug, PartialEq, Eq)]
pub struct Delta {
    pub role: Option<Role>,
    pub content: Option<String>,
}

impl Default for Delta {
    fn default() -> (delta: Self)
        ensures
            delta.role is None,
            delta.content is None,
    {
        Delta { role: None, content: None }
    }
}

/// Why a choice stopped producing tokens.
///
/// Servers invent values here, so unrecognized reasons are preserved as
/// [`FinishReason::Other`] rather than failing the parse.
#[derive(Clone, Debug, PartialEq, Eq)]
pub enum FinishReason {
    Stop,
    Length,
    ContentFilter,
    ToolCalls,
    Other(String),
}

/// Server-reported token counts. Preferred over client-side estimation.
#[derive(Clone, Copy, Debug, PartialEq, Eq, Structural)]
pub struct Usage {
    pub prompt_tokens: u32,
    pub completion_tokens: u32,
    pub total_tokens: u32,
}

/// The text carried by the first choice's delta, if any.
pub open spec fn content_of(chunk: ChatCompletionChunk) -> Option<Seq<char>> {
    if chunk.choices@.len() == 0 {
        None
    } else {
        match chunk.choices@[0].delta.content {
            Some(text) => Some(text@),
            None => None,
        }
    }
}

impl ChatCompletionChunk {
    /// Content text carried by the first choice's delta, if any.
    ///
    /// Returns `None` for role-only, empty, and usage-only chunks.
    pub fn content(&self) -> (text: Option<&str>)
        ensures
            match text {
                Some(t) => content_of(*self) == Some(t@),
                None => content_of(*self) is None,
            },
    {
        if self.choices.len() == 0 {
            return None;
        }
        match &self.choices[0].delta.content {
            Some(text) => Some(text.as_str()),
            None => None,
        }
    }
}

} // verus!
