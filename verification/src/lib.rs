//! An OpenAI-compatible inference simulator and streaming measurement toolkit.

use vstd::prelude::*;

pub mod error;
pub mod protocol;
pub mod routes;
pub mod sse;
pub mod stream;
pub mod text;
pub mod tokenizer;

verus! {

/// The single model id this simulator serves.
pub const MODEL_ID: &'static str = "moonleaf-sim";

/// Whether this simulator serves `id`.
pub fn serves_model(id: &str) -> (served: bool)
    ensures
        served == (id@ == MODEL_ID@),
{
    text::str_eq(id, MODEL_ID)
}

} // verus!
