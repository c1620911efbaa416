//! `GET /healthz`: liveness.

use vstd::prelude::*;

verus! {

/// The liveness body.
#[derive(Clone, Copy, Debug)]
pub struct Health {
    pub status: &'static str,
}

/// Answers as soon as the server is accepting connections.
pub fn healthz() -> (health: Health)
    ensures
        health.status@ == "ok"@,
{
    Health { status: "ok" }
}

} // verus!
