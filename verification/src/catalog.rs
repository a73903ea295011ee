//! Model catalogs: administrator-selected models.dev imports and model
//! discovery from an upstream channel's `/v1/models`.

use vstd::prelude::*;
use vstd::string::{StringExecFns, StringSliceAdditionalSpecFns};

use crate::text::str_eq;
use crate::unicode::{trim, trim_spec};

verus! {

/// The most models a discovery response may list.
pub const MAX_DISCOVERED_MODELS: usize = 10000;

/// The longest model id a discovery response may hold, in bytes.
pub const MAX_MODEL_ID_BYTES: usize = 1024;

/// One catalog entry chosen by an administrator.
pub struct ModelSyncSelection {
    pub provider_id: String,
    pub model_id: String,
}

/// Catalog entries to import or refresh.
pub struct ModelImportRequest {
    pub selections: Vec<ModelSyncSelection>,
}

/// Providers whose catalog is previewed.
pub struct ModelSyncPreviewRequest {
    pub provider_ids: Vec<String>,
}

/// What applying a catalog model does locally.
#[derive(Clone, Copy, PartialEq, Eq, Debug)]
pub enum ModelSyncAction {
    PriceUpdate,
    Import,
}

#[derive(Clone, Copy, PartialEq, Eq, Debug)]
pub enum ModelSyncError {
    InvalidSelection,
    ConflictingSourceModelId,
    Catalog,
    ControlPlane,
}

impl ModelImportRequest {
    /// A request must select at least one and at most `max_selections`
    /// entries.
    pub fn check_selection_count(&self, max_selections: usize) -> (checked: Result<(), ModelSyncError>)
        ensures
            checked == if self.selections@.len() == 0 || self.selections@.len() > max_selections {
                Err(ModelSyncError::InvalidSelection)
            } else {
                Ok::<(), ModelSyncError>(())
            },
    {
        if self.selections.len() == 0 || self.selections.len() > max_selections {
            Err(ModelSyncError::InvalidSelection)
        } else {
            Ok(())
        }
    }

    /// The provider of each selection, in order.
    pub fn provider_ids(&self) -> (ids: Vec<String>)
        ensures
            ids@.len() == self.selections@.len(),
            forall|i: int| 0 <= i < ids@.len() ==> #[trigger] ids@[i]@ == self.selections@[i].provider_id@,
    {
        let mut ids: Vec<String> = Vec::new();
        let mut index: usize = 0;
        while index < self.selections.len()
            invariant
                index <= self.selections@.len(),
                ids@.len() == index,
                forall|i: int| 0 <= i < index ==> #[trigger] ids@[i]@ == self.selections@[i].provider_id@,
            decreases self.selections@.len() - index,
        {
            ids.push(String::from_str(self.selections[index].provider_id.as_str()));
            index += 1;
        }
        ids
    }
}

pub open spec fn has_duplicate(ids: Seq<Seq<char>>) -> bool {
    exists|i: int, j: int| 0 <= i < j < ids.len() && #[trigger] ids[i] == #[trigger] ids[j]
}

pub open spec fn string_views(values: Seq<String>) -> Seq<Seq<char>> {
    values.map_values(|value: String| value@)
}

/// Selected models must have distinct source model ids.
pub fn check_unique_source_ids(model_ids: &[String]) -> (checked: Result<(), ModelSyncError>)
    ensures
        checked == if has_duplicate(string_views(model_ids@)) {
            Err(ModelSyncError::ConflictingSourceModelId)
        } else {
            Ok::<(), ModelSyncError>(())
        },
{
    let ghost ids = string_views(model_ids@);
    let mut j: usize = 0;
    while j < model_ids.len()
        invariant
            j <= model_ids@.len(),
            ids == string_views(model_ids@),
            forall|a: int, b: int| 0 <= a < b < j ==> #[trigger] ids[a] != #[trigger] ids[b],
        decreases model_ids@.len() - j,
    {
        let mut i: usize = 0;
        while i < j
            invariant
                i <= j < model_ids@.len(),
                ids == string_views(model_ids@),
                forall|a: int, b: int| 0 <= a < b < j ==> #[trigger] ids[a] != #[trigger] ids[b],
                forall|a: int| 0 <= a < i ==> #[trigger] ids[a] != ids[j as int],
            decreases j - i,
        {
            if str_eq(model_ids[i].as_str(), model_ids[j].as_str()) {
                assert(ids[i as int] == ids[j as int]);
                return Err(ModelSyncError::ConflictingSourceModelId);
            }
            i += 1;
        }
        j += 1;
    }
    Ok(())
}

/// A catalog model updates the prices of a local model with the same
/// source id, and is imported otherwise.
pub fn sync_action(local_source_ids: &[String], model_id: &str) -> (action: ModelSyncAction)
    ensures
        action == if string_views(local_source_ids@).contains(model_id@) {
            ModelSyncAction::PriceUpdate
        } else {
            ModelSyncAction::Import
        },
{
    let ghost ids = string_views(local_source_ids@);
    let mut index: usize = 0;
    while index < local_source_ids.len()
        invariant
            index <= local_source_ids@.len(),
            ids == string_views(local_source_ids@),
            forall|i: int| 0 <= i < index ==> #[trigger] ids[i] != model_id@,
        decreases local_source_ids@.len() - index,
    {
        if str_eq(local_source_ids[index].as_str(), model_id) {
            assert(ids[index as int] == model_id@);
            return ModelSyncAction::PriceUpdate;
        }
        index += 1;
    }
    ModelSyncAction::Import
}

/// The models an upstream channel offers.
pub struct ChannelModelDiscoveryResponse {
    pub models: Vec<String>,
}

#[derive(Clone, Copy, PartialEq, Eq, Debug)]
pub enum ChannelModelDiscoveryError {
    InvalidConfiguration,
    ResponseHeaderTimeout,
    RequestFailed,
    UpstreamHttpStatus(u16),
    ResponseBodyTimeout,
    ResponseBodyFailed,
    ResponseTooLarge,
    InvalidResponse,
}

/// A listed model id is usable once trimmed when it is not blank and fits
/// the id limit.
pub open spec fn usable_model_id(id: Seq<char>) -> bool {
    trim_spec(id).len() > 0 && vstd::utf8::encode_utf8(trim_spec(id)).len() <= MAX_MODEL_ID_BYTES
}

/// Trimmed ids in first-seen order, each once.
pub open spec fn distinct_trimmed(ids: Seq<Seq<char>>) -> Seq<Seq<char>>
    decreases ids.len(),
{
    if ids.len() == 0 {
        Seq::empty()
    } else {
        let kept = distinct_trimmed(ids.drop_last());
        let id = trim_spec(ids.last());
        if kept.contains(id) {
            kept
        } else {
            kept.push(id)
        }
    }
}

/// The discovered models of a `/v1/models` response's ids: refused when
/// there are too many or one is unusable; otherwise trimmed and
/// deduplicated in order.
pub open spec fn discovered_models_spec(ids: Seq<Seq<char>>) -> Result<Seq<Seq<char>>, ChannelModelDiscoveryError> {
    if ids.len() > MAX_DISCOVERED_MODELS || exists|i: int| 0 <= i < ids.len() && !usable_model_id(#[trigger] ids[i]) {
        Err(ChannelModelDiscoveryError::InvalidResponse)
    } else {
        Ok(distinct_trimmed(ids))
    }
}

pub fn discovered_models(ids: &[String]) -> (models: Result<ChannelModelDiscoveryResponse, ChannelModelDiscoveryError>)
    ensures
        match (models, discovered_models_spec(string_views(ids@))) {
            (Ok(response), Ok(expected)) => string_views(response.models@) == expected,
            (Err(a), Err(b)) => a == b,
            _ => false,
        },
{
    let ghost all = string_views(ids@);
    if ids.len() > MAX_DISCOVERED_MODELS {
        return Err(ChannelModelDiscoveryError::InvalidResponse);
    }
    let mut models: Vec<String> = Vec::new();
    let mut index: usize = 0;
    while index < ids.len()
        invariant
            index <= ids@.len() <= MAX_DISCOVERED_MODELS,
            all == string_views(ids@),
            forall|i: int| 0 <= i < index ==> usable_model_id(#[trigger] all[i]),
            string_views(models@) == distinct_trimmed(all.take(index as int)),
        decreases ids@.len() - index,
    {
        let model = trim(ids[index].as_str());
        if model.as_bytes().len() == 0 || model.as_bytes().len() > MAX_MODEL_ID_BYTES {
            proof {
                assert(!usable_model_id(all[index as int])) by {
                    if trim_spec(all[index as int]).len() > 0 {
                        assert(vstd::utf8::encode_utf8(trim_spec(all[index as int])).len() > 0) by {
                            crate::error_text::lemma_utf8_len_empty(trim_spec(all[index as int]));
                        }
                    }
                }
            }
            return Err(ChannelModelDiscoveryError::InvalidResponse);
        }
        proof {
            crate::error_text::lemma_utf8_len_empty(model@);
            assert(all.take(index + 1).drop_last() =~= all.take(index as int));
            assert(all.take(index + 1).last() == all[index as int]);
        }
        let mut seen = false;
        let mut position: usize = 0;
        while position < models.len()
            invariant
                position <= models@.len(),
                seen == exists|p: int| 0 <= p < position && #[trigger] models@[p]@ == model@,
            decreases models@.len() - position,
        {
            if str_eq(models[position].as_str(), model) {
                seen = true;
            }
            position += 1;
        }
        proof {
            let kept = string_views(models@);
            if seen {
                let p = choose|p: int| 0 <= p < models@.len() && #[trigger] models@[p]@ == model@;
                assert(kept[p] == model@);
            } else {
                assert forall|p: int| 0 <= p < kept.len() implies kept[p] != model@ by {
                    assert(kept[p] == models@[p]@);
                }
            }
        }
        if !seen {
            let ghost before = string_views(models@);
            models.push(String::from_str(model));
            assert(string_views(models@) =~= before.push(model@));
        }
        index += 1;
    }
    assert(all.take(ids@.len() as int) =~= all);
    Ok(ChannelModelDiscoveryResponse { models })
}

/// How many of the committed mutations carry an action.
pub open spec fn action_count(actions: Seq<Seq<char>>, action: Seq<char>) -> nat
    decreases actions.len(),
{
    if actions.len() == 0 {
        0
    } else {
        action_count(actions.drop_last(), action) + if actions.last() == action {
            1nat
        } else {
            0nat
        }
    }
}

/// What a catalog sync committed: its models, the imports among them and
/// the price updates.
#[derive(Clone, Copy, PartialEq, Eq, Debug)]
pub struct ModelSyncCounts {
    pub model_count: usize,
    pub imported_count: usize,
    pub updated_count: usize,
}

/// Counts the committed mutations by action (`import`, `price_sync`).
pub fn sync_result_counts(actions: &[String]) -> (counts: ModelSyncCounts)
    ensures
        counts.model_count == actions@.len(),
        counts.imported_count == action_count(crate::http_rules::text_views(actions@), "import"@),
        counts.updated_count == action_count(crate::http_rules::text_views(actions@), "price_sync"@),
{
    let ghost views = crate::http_rules::text_views(actions@);
    let mut imported: usize = 0;
    let mut updated: usize = 0;
    let mut index: usize = 0;
    while index < actions.len()
        invariant
            index <= actions@.len(),
            views == crate::http_rules::text_views(actions@),
            views.len() == actions@.len(),
            imported == action_count(views.take(index as int), "import"@),
            updated == action_count(views.take(index as int), "price_sync"@),
            imported <= index,
            updated <= index,
        decreases actions@.len() - index,
    {
        assert(views.take(index + 1).drop_last() =~= views.take(index as int));
        assert(views[index as int] == actions@[index as int]@);
        if str_eq(actions[index].as_str(), "import") {
            imported = imported + 1;
        }
        if str_eq(actions[index].as_str(), "price_sync") {
            updated = updated + 1;
        }
        index += 1;
    }
    assert(views.take(actions@.len() as int) =~= views);
    ModelSyncCounts { model_count: actions.len(), imported_count: imported, updated_count: updated }
}

/// The upstream authentication a discovery request uses: none for `none`;
/// the key alone for `bearer`; the configured header and key otherwise.
pub open spec fn discovery_auth_spec(kind: Seq<char>, header_name: Option<Seq<char>>, api_key: Option<Seq<char>>) -> (
    Option<Seq<char>>,
    Option<Seq<char>>,
) {
    if kind == "none"@ {
        (None, None)
    } else if kind == "bearer"@ {
        (None, api_key)
    } else {
        (header_name, api_key)
    }
}

pub open spec fn text_option(value: Option<String>) -> Option<Seq<char>> {
    match value {
        Some(text) => Some(text@),
        None => None,
    }
}

/// The header name and key of the channel a discovery request stands for.
pub fn discovery_auth(kind: &str, header_name: Option<String>, api_key: Option<String>) -> (auth: (
    Option<String>,
    Option<String>,
))
    ensures
        (text_option(auth.0), text_option(auth.1)) == discovery_auth_spec(
            kind@,
            text_option(header_name),
            text_option(api_key),
        ),
{
    if str_eq(kind, "none") {
        (None, None)
    } else if str_eq(kind, "bearer") {
        (None, api_key)
    } else {
        (header_name, api_key)
    }
}

/// A key may list models when, in some API format, it may both proxy and
/// read models.
pub fn can_list_models(permissions: &[(bool, bool)]) -> (allowed: bool)
    ensures
        allowed == exists|i: int| 0 <= i < permissions@.len() && (#[trigger] permissions@[i]).0 && permissions@[i].1,
{
    let mut index: usize = 0;
    while index < permissions.len()
        invariant
            index <= permissions@.len(),
            forall|i: int| 0 <= i < index ==> !((#[trigger] permissions@[i]).0 && permissions@[i].1),
        decreases permissions@.len() - index,
    {
        if permissions[index].0 && permissions[index].1 {
            assert(permissions@[index as int].0 && permissions@[index as int].1);
            return true;
        }
        index += 1;
    }
    false
}

/// The models a key lists: those of every API format, each once, in
/// increasing order.
pub fn listed_models(per_format: &[Vec<String>]) -> (models: Vec<String>)
    ensures
        crate::codex_tokens::sorted_unique(crate::codex_tokens::string_views(models@)),
        forall|x: Seq<char>|
            crate::codex_tokens::string_views(models@).contains(x) <==> exists|f: int, m: int|
                0 <= f < per_format@.len() && 0 <= m < per_format@[f]@.len() && (#[trigger] per_format@[f]@[m])@ == x,
{
    let mut models: Vec<String> = Vec::new();
    let mut f: usize = 0;
    while f < per_format.len()
        invariant
            f <= per_format@.len(),
            crate::codex_tokens::sorted_unique(crate::codex_tokens::string_views(models@)),
            forall|x: Seq<char>|
                crate::codex_tokens::string_views(models@).contains(x) <==> exists|g: int, m: int|
                    0 <= g < f && 0 <= m < per_format@[g]@.len() && (#[trigger] per_format@[g]@[m])@ == x,
        decreases per_format@.len() - f,
    {
        let names = &per_format[f];
        let mut m: usize = 0;
        while m < names.len()
            invariant
                f < per_format@.len(),
                names == per_format@[f as int],
                m <= names@.len(),
                crate::codex_tokens::sorted_unique(crate::codex_tokens::string_views(models@)),
                forall|x: Seq<char>|
                    crate::codex_tokens::string_views(models@).contains(x) <==> ((exists|g: int, k: int|
                        0 <= g < f && 0 <= k < per_format@[g]@.len() && (#[trigger] per_format@[g]@[k])@ == x)
                        || exists|k: int| 0 <= k < m && (#[trigger] names@[k])@ == x),
            decreases names@.len() - m,
        {
            let name = names[m].clone();
            let ghost before = crate::codex_tokens::string_views(models@);
            crate::codex_tokens::insert_sorted(&mut models, name);
            assert forall|x: Seq<char>|
                crate::codex_tokens::string_views(models@).contains(x) <==> ((exists|g: int, k: int|
                    0 <= g < f && 0 <= k < per_format@[g]@.len() && (#[trigger] per_format@[g]@[k])@ == x)
                    || exists|k: int| 0 <= k < m + 1 && (#[trigger] names@[k])@ == x) by {
                if exists|k: int| 0 <= k < m + 1 && (#[trigger] names@[k])@ == x {
                    let k = choose|k: int| 0 <= k < m + 1 && (#[trigger] names@[k])@ == x;
                    if k < m {
                        assert(before.contains(x));
                    }
                }
                if x == names@[m as int]@ {
                    assert(names@[m as int]@ == x);
                }
            }
            m += 1;
        }
        assert forall|x: Seq<char>|
            crate::codex_tokens::string_views(models@).contains(x) <==> exists|g: int, k: int|
                0 <= g < f + 1 && 0 <= k < per_format@[g]@.len() && (#[trigger] per_format@[g]@[k])@ == x by {
            if exists|g: int, k: int| 0 <= g < f + 1 && 0 <= k < per_format@[g]@.len() && (#[trigger] per_format@[g]@[k])@ == x {
                let (g, k) = choose|g: int, k: int|
                    0 <= g < f + 1 && 0 <= k < per_format@[g]@.len() && (#[trigger] per_format@[g]@[k])@ == x;
                if g == f {
                    assert(names@[k]@ == x);
                }
            }
            if exists|k: int| 0 <= k < names@.len() && (#[trigger] names@[k])@ == x {
                let k = choose|k: int| 0 <= k < names@.len() && (#[trigger] names@[k])@ == x;
                assert(per_format@[f as int]@[k]@ == x);
            }
        }
        f += 1;
    }
    models
}

/// One entry of the model list answered to a client.
pub struct ModelResponse {
    pub id: String,
    pub object: &'static str,
    pub owned_by: &'static str,
}

/// The model list answered to a client: `object` is `list`.
pub struct ModelsResponse {
    pub object: &'static str,
    pub data: Vec<ModelResponse>,
}

pub open spec fn model_ids(data: Seq<ModelResponse>) -> Seq<Seq<char>> {
    data.map_values(|model: ModelResponse| model.id@)
}

/// The model list of a key: every model of every API format it may use,
/// each once, in increasing order, each an object `model` owned by
/// `ai-gateway`.
pub fn models_response(per_format: &[Vec<String>]) -> (response: ModelsResponse)
    ensures
        response.object@ == "list"@,
        crate::codex_tokens::sorted_unique(model_ids(response.data@)),
        forall|x: Seq<char>|
            model_ids(response.data@).contains(x) <==> exists|f: int, m: int|
                0 <= f < per_format@.len() && 0 <= m < per_format@[f]@.len() && (#[trigger] per_format@[f]@[m])@ == x,
        forall|i: int|
            0 <= i < response.data@.len() ==> (#[trigger] response.data@[i]).object@ == "model"@
                && response.data@[i].owned_by@ == "ai-gateway"@,
{
    let models = listed_models(per_format);
    let mut data: Vec<ModelResponse> = Vec::new();
    let mut index: usize = 0;
    while index < models.len()
        invariant
            index <= models@.len(),
            model_ids(data@) == crate::codex_tokens::string_views(models@).take(index as int),
            forall|i: int|
                0 <= i < data@.len() ==> (#[trigger] data@[i]).object@ == "model"@ && data@[i].owned_by@
                    == "ai-gateway"@,
        decreases models@.len() - index,
    {
        let ghost before = model_ids(data@);
        data.push(ModelResponse { id: models[index].clone(), object: "model", owned_by: "ai-gateway" });
        assert(model_ids(data@) =~= before.push(models@[index as int]@));
        assert(crate::codex_tokens::string_views(models@).take(index + 1) =~= crate::codex_tokens::string_views(
            models@,
        ).take(index as int).push(models@[index as int]@));
        index += 1;
    }
    assert(crate::codex_tokens::string_views(models@).take(models@.len() as int) =~= crate::codex_tokens::string_views(
        models@,
    ));
    ModelsResponse { object: "list", data }
}

/// A catalog model offered for import, with what importing it would do.
pub struct ModelSyncPreviewModel<Model> {
    pub model: Model,
    pub action: ModelSyncAction,
}

/// Model discovery for draft channels: the runtime configuration whose
/// snapshot compiles a draft, and the registry of upstream clients a
/// discovery request goes through. The request's headers are
/// `connector::discovery_request_headers`, its answer `discovered_models`.
pub struct ChannelModelDiscoveryService<Runtime, Clients> {
    pub runtime: Runtime,
    pub upstream_clients: Clients,
}

impl<Runtime, Clients> ChannelModelDiscoveryService<Runtime, Clients> {
    pub fn new(runtime: Runtime, upstream_clients: Clients) -> (service: Self)
        ensures
            service.runtime == runtime,
            service.upstream_clients == upstream_clients,
    {
        ChannelModelDiscoveryService { runtime, upstream_clients }
    }
}

} // verus!
