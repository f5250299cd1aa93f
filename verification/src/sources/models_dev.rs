//! The capability source: a catalog of providers, each with its models, as
//! delivered, and the flat row each model becomes in storage.

use vstd::prelude::*;
use crate::number::Double;
use crate::ordered::SortedMap;
use crate::text::{clone_text, join, join_strings, views};

verus! {

/// The whole catalog: provider id to provider, walked in dictionary order of the ids.
pub type ModelsDevResponse = SortedMap<ModelsDevProvider>;

/// One provider and its models, walked in dictionary order of the model ids.
pub struct ModelsDevProvider {
    pub id: String,
    pub name: String,
    pub env: Vec<String>,
    pub npm: Option<String>,
    pub doc: Option<String>,
    pub api: Option<String>,
    pub models: SortedMap<ModelsDevModel>,
}

/// What one model can do, how much it takes, and when it was made.
pub struct ModelsDevModel {
    pub id: String,
    pub name: String,
    pub family: Option<String>,
    pub attachment: Option<bool>,
    pub reasoning: Option<bool>,
    pub tool_call: Option<bool>,
    pub structured_output: Option<bool>,
    pub temperature: Option<bool>,
    pub knowledge: Option<String>,
    pub release_date: Option<String>,
    pub last_updated: Option<String>,
    pub open_weights: Option<bool>,
    pub status: Option<String>,
    pub limit: Option<ModelsDevLimits>,
    pub cost: Option<ModelsDevCost>,
    pub modalities: Option<ModelsDevModalities>,
}

/// Token limits.
#[derive(Debug, Clone, Copy)]
pub struct ModelsDevLimits {
    pub context: Option<u64>,
    pub input: Option<u64>,
    pub output: Option<u64>,
}

/// Prices per million tokens.
#[derive(Debug, Clone, Copy)]
pub struct ModelsDevCost {
    pub input: Option<Double>,
    pub output: Option<Double>,
    pub cache_read: Option<Double>,
    pub cache_write: Option<Double>,
}

/// What a model takes in and gives out, as ordered lists of tokens.
#[derive(Debug, Clone)]
pub struct ModelsDevModalities {
    pub input: Vec<String>,
    pub output: Vec<String>,
}

/// One model of the catalog, with its provider, as a flat row.
#[derive(Debug, Clone)]
pub struct ModelsDevRow {
    pub provider_id: String,
    pub provider_name: String,
    pub provider_env: Option<String>,
    pub provider_npm: Option<String>,
    pub provider_api: Option<String>,
    pub provider_doc: Option<String>,
    pub model_id: String,
    pub model_name: String,
    pub family: Option<String>,
    pub attachment: Option<bool>,
    pub reasoning: Option<bool>,
    pub tool_call: Option<bool>,
    pub structured_output: Option<bool>,
    pub temperature: Option<bool>,
    pub knowledge: Option<String>,
    pub release_date: Option<String>,
    pub last_updated: Option<String>,
    pub open_weights: Option<bool>,
    pub status: Option<String>,
    pub context_window: Option<u64>,
    pub max_input_tokens: Option<u64>,
    pub max_output_tokens: Option<u64>,
    pub cost_input: Option<Double>,
    pub cost_output: Option<Double>,
    pub cost_cache_read: Option<Double>,
    pub cost_cache_write: Option<Double>,
    /// The input tokens with commas between.
    pub input_modalities: Option<String>,
    /// The output tokens with commas between.
    pub output_modalities: Option<String>,
}

/// Whether the optional text `field` reads `text`.
pub open spec fn reads(field: Option<String>, text: Option<Seq<char>>) -> bool {
    match (field, text) {
        (Some(f), Some(t)) => f@ == t,
        (None, None) => true,
        _ => false,
    }
}

/// The list `tokens` as one text, with commas between; a list without tokens has no text.
pub open spec fn comma_joined_or_none(tokens: Seq<String>) -> Option<Seq<char>> {
    if tokens.len() == 0 {
        None
    } else {
        Some(join(views(tokens), ","@))
    }
}

/// Whether `row` is the flat row of `model` under `provider`: every field taken
/// over as it is, limits and costs of a missing group missing, token lists
/// joined with commas.
pub open spec fn is_row_of(row: ModelsDevRow, provider: ModelsDevProvider, model: ModelsDevModel) -> bool {
    &&& row.provider_id == provider.id
    &&& row.provider_name == provider.name
    &&& reads(row.provider_env, comma_joined_or_none(provider.env@))
    &&& row.provider_npm == provider.npm
    &&& row.provider_api == provider.api
    &&& row.provider_doc == provider.doc
    &&& row.model_id == model.id
    &&& row.model_name == model.name
    &&& row.family == model.family
    &&& row.attachment == model.attachment
    &&& row.reasoning == model.reasoning
    &&& row.tool_call == model.tool_call
    &&& row.structured_output == model.structured_output
    &&& row.temperature == model.temperature
    &&& row.knowledge == model.knowledge
    &&& row.release_date == model.release_date
    &&& row.last_updated == model.last_updated
    &&& row.open_weights == model.open_weights
    &&& row.status == model.status
    &&& row.context_window == (match model.limit {
        Some(l) => l.context,
        None => None,
    })
    &&& row.max_input_tokens == (match model.limit {
        Some(l) => l.input,
        None => None,
    })
    &&& row.max_output_tokens == (match model.limit {
        Some(l) => l.output,
        None => None,
    })
    &&& row.cost_input == (match model.cost {
        Some(c) => c.input,
        None => None,
    })
    &&& row.cost_output == (match model.cost {
        Some(c) => c.output,
        None => None,
    })
    &&& row.cost_cache_read == (match model.cost {
        Some(c) => c.cache_read,
        None => None,
    })
    &&& row.cost_cache_write == (match model.cost {
        Some(c) => c.cache_write,
        None => None,
    })
    &&& reads(
        row.input_modalities,
        match model.modalities {
            Some(m) => Some(join(views(m.input@), ","@)),
            None => None,
        },
    )
    &&& reads(
        row.output_modalities,
        match model.modalities {
            Some(m) => Some(join(views(m.output@), ","@)),
            None => None,
        },
    )
}

impl ModelsDevRow {
    /// Creates the flat row of `model` under `provider`.
    pub fn from_provider_model(provider: &ModelsDevProvider, model: &ModelsDevModel) -> (row: Self)
        ensures
            is_row_of(row, *provider, *model),
    {
        ModelsDevRow {
            provider_id: provider.id.clone(),
            provider_name: provider.name.clone(),
            provider_env: if provider.env.len() == 0 {
                None
            } else {
                Some(join_strings(&provider.env, ","))
            },
            provider_npm: clone_text(&provider.npm),
            provider_api: clone_text(&provider.api),
            provider_doc: clone_text(&provider.doc),
            model_id: model.id.clone(),
            model_name: model.name.clone(),
            family: clone_text(&model.family),
            attachment: model.attachment,
            reasoning: model.reasoning,
            tool_call: model.tool_call,
            structured_output: model.structured_output,
            temperature: model.temperature,
            knowledge: clone_text(&model.knowledge),
            release_date: clone_text(&model.release_date),
            last_updated: clone_text(&model.last_updated),
            open_weights: model.open_weights,
            status: clone_text(&model.status),
            context_window: match &model.limit {
                Some(l) => l.context,
                None => None,
            },
            max_input_tokens: match &model.limit {
                Some(l) => l.input,
                None => None,
            },
            max_output_tokens: match &model.limit {
                Some(l) => l.output,
                None => None,
            },
            cost_input: match &model.cost {
                Some(c) => c.input,
                None => None,
            },
            cost_output: match &model.cost {
                Some(c) => c.output,
                None => None,
            },
            cost_cache_read: match &model.cost {
                Some(c) => c.cache_read,
                None => None,
            },
            cost_cache_write: match &model.cost {
                Some(c) => c.cache_write,
                None => None,
            },
            input_modalities: match &model.modalities {
                Some(m) => Some(join_strings(&m.input, ",")),
                None => None,
            },
            output_modalities: match &model.modalities {
                Some(m) => Some(join_strings(&m.output, ",")),
                None => None,
            },
        }
    }
}

/// How many models the first `p` providers of a catalog have together.
pub open spec fn models_before(providers: Seq<ModelsDevProvider>, p: nat) -> nat
    decreases p,
{
    if p == 0 {
        0
    } else {
        models_before(providers, (p - 1) as nat) + providers[p - 1].models.values().len()
    }
}

/// Whether `rows` holds the flat rows of the first `p` providers: provider after
/// provider and, within a provider, model after model, in walking order.
pub open spec fn flattens(rows: Seq<ModelsDevRow>, providers: Seq<ModelsDevProvider>, p: nat) -> bool {
    &&& rows.len() == models_before(providers, p)
    &&& forall|q: int, m: int|
        0 <= q < p && 0 <= m < providers[q].models.values().len() ==> is_row_of(
            #[trigger] rows[models_before(providers, q as nat) + m],
            providers[q],
            #[trigger] providers[q].models.values()[m],
        )
}

/// Flattens the whole catalog into rows for storage.
pub fn flatten_response(response: &ModelsDevResponse) -> (rows: Vec<ModelsDevRow>)
    ensures
        flattens(rows@, response.values(), response.values().len()),
{
    let mut rows: Vec<ModelsDevRow> = Vec::new();
    let count = response.len();
    let ghost providers = response.values();
    let mut p: usize = 0;
    while p < count
        invariant
            p <= count,
            count == response.values().len(),
            providers == response.values(),
            flattens(rows@, providers, p as nat),
        decreases count - p,
    {
        let provider = response.value_at(p);
        let models = provider.models.len();
        let ghost before = rows@;
        let mut m: usize = 0;
        while m < models
            invariant
                m <= models,
                p < count,
                count == response.values().len(),
                providers == response.values(),
                *provider == providers[p as int],
                models == provider.models.values().len(),
                flattens(before, providers, p as nat),
                rows@.len() == before.len() + m,
                forall|i: int| 0 <= i < before.len() ==> rows@[i] == before[i],
                forall|j: int|
                    0 <= j < m ==> is_row_of(
                        #[trigger] rows@[before.len() + j],
                        *provider,
                        provider.models.values()[j],
                    ),
            decreases models - m,
        {
            let model = provider.models.value_at(m);
            rows.push(ModelsDevRow::from_provider_model(provider, model));
            m += 1;
        }
        proof {
            assert forall|q: int, j: int|
                0 <= q < p + 1 && 0 <= j < providers[q].models.values().len() implies is_row_of(
                #[trigger] rows@[models_before(providers, q as nat) + j],
                providers[q],
                #[trigger] providers[q].models.values()[j],
            ) by {
                if q < p {
                    lemma_models_before_rises(providers, q as nat, p as nat);
                    assert(is_row_of(
                        before[models_before(providers, q as nat) + j],
                        providers[q],
                        providers[q].models.values()[j],
                    ));
                }
            }
        }
        p += 1;
    }
    rows
}

/// The rows of a provider end where the rows of a later provider begin, or before.
pub proof fn lemma_models_before_rises(providers: Seq<ModelsDevProvider>, q: nat, p: nat)
    requires
        q < p,
    ensures
        models_before(providers, q) + providers[q as int].models.values().len() <= models_before(
            providers,
            p,
        ),
    decreases p,
{
    if q + 1 < p {
        lemma_models_before_rises(providers, q, (p - 1) as nat);
    }
}

} // verus!
