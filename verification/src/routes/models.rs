//! `GET /v1/models`: discovery.
//!
//! This list is the single source of truth for which model ids the simulator
//! accepts; `/v1/chat/completions` rejects anything not on it.

use vstd::prelude::*;

use crate::MODEL_ID;

verus! {

/// The `/v1/models` body.
#[derive(Clone, Debug)]
pub struct ModelList {
    pub object: &'static str,
    pub data: Vec<Model>,
}

/// One advertised model.
#[derive(Clone, Copy, Debug)]
pub struct Model {
    pub id: &'static str,
    pub object: &'static str,
    pub created: u64,
    pub owned_by: &'static str,
}

/// `list` is the model listing the simulator answers at time `created`: one
/// entry, the served model.
pub open spec fn is_model_listing(list: ModelList, created: u64) -> bool {
    &&& list.object@ == "list"@
    &&& list.data@.len() == 1
    &&& list.data@[0].id@ == MODEL_ID@
    &&& list.data@[0].object@ == "model"@
    &&& list.data@[0].created == created
    &&& list.data@[0].owned_by@ == "moonleaf"@
}

/// `list` advertises a model with this id.
pub open spec fn advertises(list: ModelList, id: Seq<char>) -> bool {
    exists|k: int| 0 <= k < list.data@.len() && (#[trigger] list.data@[k]).id@ == id
}

/// The model listing, stamped with `created` seconds since the Unix epoch.
pub fn list_models(created: u64) -> (list: ModelList)
    ensures
        is_model_listing(list, created),
{
    ModelList {
        object: "list",
        data: vec![Model { id: MODEL_ID, object: "model", created, owned_by: "moonleaf" }],
    }
}

/// Discovery and the request path agree: an id is advertised by the model
/// listing exactly when the simulator serves it.
pub proof fn law_listing_matches_served(list: ModelList, created: u64, id: Seq<char>)
    requires
        is_model_listing(list, created),
    ensures
        advertises(list, id) <==> id == MODEL_ID@,
{
    if id == MODEL_ID@ {
        assert(list.data@[0].id@ == id);
    }
}

} // verus!
