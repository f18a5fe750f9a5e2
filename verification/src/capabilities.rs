//! Per-provider and per-model capability metadata. Providers build these
//! records from their model lists; the host only reads them.
use vstd::prelude::*;

use crate::plugin::ProviderId;

verus! {

/// Coarse cost category for a model.
#[derive(Debug, Clone, Copy, PartialEq, Eq, Structural)]
pub enum CostTier {
    /// No usage charge (e.g. local models).
    Free,
    /// Below-average cost per token.
    Cheap,
    /// Typical commercial model pricing.
    Standard,
    /// High-capability frontier model pricing.
    Premium,
}

/// Per-model capability metadata.
#[derive(Debug, Clone, PartialEq, Eq)]
pub struct ModelCapabilities {
    /// Bare model id (e.g. `"opus-4-7"`).
    pub id: String,
    /// Human-readable name for display in the UI.
    pub display_name: String,
    /// Whether the model accepts image inputs.
    pub supports_vision: bool,
    /// Whether the model accepts audio inputs.
    pub supports_audio: bool,
    /// Maximum input context window in tokens.
    pub context_window: usize,
    /// Rough cost category for the model.
    pub cost_tier: CostTier,
}

/// A short alias that maps a bare name to a specific provider + model.
#[derive(Debug, Clone, PartialEq, Eq)]
pub struct ModelAlias {
    /// Short name (e.g. `"opus"`).
    pub alias: String,
    /// Provider that owns this model.
    pub provider: ProviderId,
    /// Fully-qualified model id on that provider.
    pub model: String,
}

/// All capability metadata for one provider.
#[derive(Debug, Clone)]
pub struct ProviderCapabilities {
    /// Ordered list of models offered by the provider.
    pub models: Vec<ModelCapabilities>,
    /// Id of the model to use when none is specified.
    pub default_model: String,
}

/// The ids of a model list, in order.
pub open spec fn model_ids(models: Seq<ModelCapabilities>) -> Seq<Seq<char>> {
    models.map_values(|m: ModelCapabilities| m.id@)
}

/// Index of the first entry of `ids` equal to `id`.
pub open spec fn first_index_of(ids: Seq<Seq<char>>, id: Seq<char>) -> Option<int>
    decreases ids.len(),
{
    if ids.len() == 0 {
        None
    } else {
        match first_index_of(ids.drop_last(), id) {
            Some(i) => Some(i),
            None => if ids.last() == id {
                Some(ids.len() - 1)
            } else {
                None
            },
        }
    }
}

/// `first_index_of` finds the first occurrence, and only fails when there is
/// none.
pub proof fn lemma_first_index_of(ids: Seq<Seq<char>>, id: Seq<char>)
    ensures
        match first_index_of(ids, id) {
            Some(i) => 0 <= i < ids.len() && ids[i] == id && forall|j: int|
                0 <= j < i ==> ids[j] != id,
            None => forall|j: int| 0 <= j < ids.len() ==> ids[j] != id,
        },
    decreases ids.len(),
{
    if ids.len() > 0 {
        lemma_first_index_of(ids.drop_last(), id);
        assert forall|j: int| 0 <= j < ids.len() - 1 implies ids.drop_last()[j] == ids[j] by {}
    }
}

/// Scanning `ids` from the front gives `first_index_of`.
proof fn lemma_first_index_scan(ids: Seq<Seq<char>>, id: Seq<char>, i: int)
    requires
        0 <= i < ids.len(),
        ids[i] == id,
        forall|j: int| 0 <= j < i ==> ids[j] != id,
    ensures
        first_index_of(ids, id) == Some(i),
{
    lemma_first_index_of(ids, id);
}

impl ProviderCapabilities {
    /// Look up a model by id: the first model whose id is `id`, or `None`.
    pub fn model(&self, id: &str) -> (r: Option<&ModelCapabilities>)
        ensures
            match first_index_of(model_ids(self.models@), id@) {
                Some(i) => r == Some(&self.models@[i]),
                None => r is None,
            },
    {
        let target = String::from_str(id);
        let n = self.models.len();
        for i in 0..n
            invariant
                n == self.models@.len(),
                target@ == id@,
                forall|j: int| 0 <= j < i ==> #[trigger] self.models@[j].id@ != id@,
        {
            if self.models[i].id == target {
                proof {
                    let ids = model_ids(self.models@);
                    assert forall|j: int| 0 <= j < i implies ids[j] != id@ by {
                        assert(self.models@[j].id@ != id@);
                    }
                    lemma_first_index_scan(ids, id@, i as int);
                }
                return Some(&self.models[i]);
            }
        }
        proof {
            let ids = model_ids(self.models@);
            lemma_first_index_of(ids, id@);
            if let Some(k) = first_index_of(ids, id@) {
                assert(self.models@[k].id@ != id@);
            }
        }
        None
    }

    /// The default model's capabilities: the first model whose id is
    /// `default_model`. Such a model must be present.
    pub fn default(&self) -> (r: &ModelCapabilities)
        requires
            first_index_of(model_ids(self.models@), self.default_model@) is Some,
        ensures
            r == &self.models@[first_index_of(model_ids(self.models@), self.default_model@)->0],
    {
        self.model(self.default_model.as_str()).expect("default_model must exist in models")
    }
}

} // verus!
