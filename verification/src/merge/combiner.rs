//! Making unified models: each benchmark record with the capabilities of its
//! counterpart in the catalog, where it has one.

use vstd::prelude::*;
use crate::merge::matcher::{find_match, slug_view, winner, MatchResult};
use crate::models::llm::LlmModel;
use crate::ordered::SortedMap;
use crate::sources::artificial_analysis::AaLlmModel;
use crate::sources::models_dev::{
    is_row_of, ModelsDevModel, ModelsDevProvider, ModelsDevResponse, ModelsDevRow,
};
use crate::text::{clone_text, clone_texts};

verus! {

/// Whether `unified` carries everything the benchmark record `record` has:
/// identity, creator, scores, prices and speed, a score or price of a missing
/// group missing.
pub open spec fn carries(unified: LlmModel, record: AaLlmModel) -> bool {
    &&& unified.id == record.id
    &&& unified.name == record.name
    &&& unified.slug == record.slug
    &&& unified.release_date == record.release_date
    &&& unified.creator == record.model_creator.name
    &&& unified.creator_slug == record.model_creator.slug
    &&& unified.intelligence == (match record.evaluations {
        Some(e) => e.artificial_analysis_intelligence_index,
        None => None,
    })
    &&& unified.coding == (match record.evaluations {
        Some(e) => e.artificial_analysis_coding_index,
        None => None,
    })
    &&& unified.math == (match record.evaluations {
        Some(e) => e.artificial_analysis_math_index,
        None => None,
    })
    &&& unified.mmlu_pro == (match record.evaluations {
        Some(e) => e.mmlu_pro,
        None => None,
    })
    &&& unified.gpqa == (match record.evaluations {
        Some(e) => e.gpqa,
        None => None,
    })
    &&& unified.hle == (match record.evaluations {
        Some(e) => e.hle,
        None => None,
    })
    &&& unified.livecodebench == (match record.evaluations {
        Some(e) => e.livecodebench,
        None => None,
    })
    &&& unified.scicode == (match record.evaluations {
        Some(e) => e.scicode,
        None => None,
    })
    &&& unified.math_500 == (match record.evaluations {
        Some(e) => e.math_500,
        None => None,
    })
    &&& unified.aime == (match record.evaluations {
        Some(e) => e.aime,
        None => None,
    })
    &&& unified.input_price == (match record.pricing {
        Some(p) => p.price_1m_input_tokens,
        None => None,
    })
    &&& unified.output_price == (match record.pricing {
        Some(p) => p.price_1m_output_tokens,
        None => None,
    })
    &&& unified.price == (match record.pricing {
        Some(p) => p.price_1m_blended_3_to_1,
        None => None,
    })
    &&& unified.tps == record.median_output_tokens_per_second
    &&& unified.latency == record.median_time_to_first_token_seconds
}

/// Whether the optional list `list` holds exactly the tokens `tokens`, in order.
pub open spec fn holds(list: Option<Vec<String>>, tokens: Option<Seq<String>>) -> bool {
    match (list, tokens) {
        (Some(l), Some(t)) => l@ == t,
        (None, None) => true,
        _ => false,
    }
}

/// Whether every capability field of `unified` is that of the catalog model
/// `model`, and `unified` is marked as matched.
pub open spec fn takes_from(unified: LlmModel, model: ModelsDevModel) -> bool {
    &&& unified.models_dev_matched
    &&& unified.reasoning == model.reasoning
    &&& unified.tool_call == model.tool_call
    &&& unified.structured_output == model.structured_output
    &&& unified.attachment == model.attachment
    &&& unified.temperature == model.temperature
    &&& unified.context_window == (match model.limit {
        Some(l) => l.context,
        None => None,
    })
    &&& unified.max_input_tokens == (match model.limit {
        Some(l) => l.input,
        None => None,
    })
    &&& unified.max_output_tokens == (match model.limit {
        Some(l) => l.output,
        None => None,
    })
    &&& holds(
        unified.input_modalities,
        match model.modalities {
            Some(m) => Some(m.input@),
            None => None,
        },
    )
    &&& holds(
        unified.output_modalities,
        match model.modalities {
            Some(m) => Some(m.output@),
            None => None,
        },
    )
    &&& unified.knowledge_cutoff == model.knowledge
    &&& unified.open_weights == model.open_weights
    &&& unified.last_updated == model.last_updated
}

/// Whether `unified` has no capability field at all and is marked as unmatched.
pub open spec fn lacks_counterpart(unified: LlmModel) -> bool {
    &&& !unified.models_dev_matched
    &&& unified.reasoning is None
    &&& unified.tool_call is None
    &&& unified.structured_output is None
    &&& unified.attachment is None
    &&& unified.temperature is None
    &&& unified.context_window is None
    &&& unified.max_input_tokens is None
    &&& unified.max_output_tokens is None
    &&& unified.input_modalities is None
    &&& unified.output_modalities is None
    &&& unified.knowledge_cutoff is None
    &&& unified.open_weights is None
    &&& unified.last_updated is None
}

/// The catalog model that belongs to `record`, where there is one.
pub open spec fn counterpart(record: AaLlmModel, catalog: ModelsDevResponse) -> Option<
    ModelsDevModel,
> {
    match winner(
        catalog,
        match record.model_creator.slug {
            Some(s) => Some(s@),
            None => None,
        },
        record.slug@,
    ) {
        Some((p, m)) => Some(catalog.values()[p].models.values()[m]),
        None => None,
    }
}

/// Whether `unified` is the unified model of `record` against `catalog`.
pub open spec fn is_merge_of(unified: LlmModel, record: AaLlmModel, catalog: ModelsDevResponse) -> bool {
    &&& carries(unified, record)
    &&& match counterpart(record, catalog) {
        Some(model) => takes_from(unified, model),
        None => lacks_counterpart(unified),
    }
}

/// A provider that is known by its id alone.
fn bare_provider(id: &str) -> (provider: ModelsDevProvider)
    ensures
        provider.id@ == id@,
{
    ModelsDevProvider {
        id: id.to_owned(),
        name: id.to_owned(),
        env: Vec::new(),
        npm: None,
        doc: None,
        api: None,
        models: SortedMap::new(),
    }
}

/// The flat row of a match, made with the provider the match names; a provider
/// that the catalog does not have is stood in for by its id alone.
fn row_of_match(found: &MatchResult<'_>, providers: &ModelsDevResponse) -> (row: ModelsDevRow)
    ensures
        exists|provider: ModelsDevProvider| is_row_of(row, provider, *found.model),
{
    match providers.get(found.provider_id) {
        Some(provider) => {
            let row = ModelsDevRow::from_provider_model(provider, found.model);
            assert(is_row_of(row, *provider, *found.model));
            row
        },
        None => {
            let provider = bare_provider(found.provider_id);
            let row = ModelsDevRow::from_provider_model(&provider, found.model);
            assert(is_row_of(row, provider, *found.model));
            row
        },
    }
}

/// A copy of an optional list of tokens.
fn clone_list(list: &Vec<String>) -> (r: Option<Vec<String>>)
    ensures
        holds(r, Some(list@)),
{
    Some(clone_texts(list))
}

/// Merges one benchmark record with its counterpart in the catalog, if it has one.
pub fn merge_single_model(aa: &AaLlmModel, providers: &ModelsDevResponse) -> (unified: LlmModel)
    ensures
        is_merge_of(unified, *aa, *providers),
{
    let creator_slug: Option<&str> = match &aa.model_creator.slug {
        Some(s) => Some(s.as_str()),
        None => None,
    };
    let md_match = find_match(creator_slug, aa.slug.as_str(), providers);
    let md_row = match &md_match {
        Some(found) => Some(row_of_match(found, providers)),
        None => None,
    };
    let evaluations = aa.evaluations;
    let pricing = aa.pricing;
    let unified = LlmModel {
        id: aa.id.clone(),
        name: aa.name.clone(),
        slug: aa.slug.clone(),
        release_date: clone_text(&aa.release_date),
        creator: aa.model_creator.name.clone(),
        creator_slug: clone_text(&aa.model_creator.slug),
        intelligence: match evaluations {
            Some(e) => e.artificial_analysis_intelligence_index,
            None => None,
        },
        coding: match evaluations {
            Some(e) => e.artificial_analysis_coding_index,
            None => None,
        },
        math: match evaluations {
            Some(e) => e.artificial_analysis_math_index,
            None => None,
        },
        mmlu_pro: match evaluations {
            Some(e) => e.mmlu_pro,
            None => None,
        },
        gpqa: match evaluations {
            Some(e) => e.gpqa,
            None => None,
        },
        hle: match evaluations {
            Some(e) => e.hle,
            None => None,
        },
        livecodebench: match evaluations {
            Some(e) => e.livecodebench,
            None => None,
        },
        scicode: match evaluations {
            Some(e) => e.scicode,
            None => None,
        },
        math_500: match evaluations {
            Some(e) => e.math_500,
            None => None,
        },
        aime: match evaluations {
            Some(e) => e.aime,
            None => None,
        },
        input_price: match pricing {
            Some(p) => p.price_1m_input_tokens,
            None => None,
        },
        output_price: match pricing {
            Some(p) => p.price_1m_output_tokens,
            None => None,
        },
        price: match pricing {
            Some(p) => p.price_1m_blended_3_to_1,
            None => None,
        },
        tps: aa.median_output_tokens_per_second,
        latency: aa.median_time_to_first_token_seconds,
        reasoning: match &md_row {
            Some(r) => r.reasoning,
            None => None,
        },
        tool_call: match &md_row {
            Some(r) => r.tool_call,
            None => None,
        },
        structured_output: match &md_row {
            Some(r) => r.structured_output,
            None => None,
        },
        attachment: match &md_row {
            Some(r) => r.attachment,
            None => None,
        },
        temperature: match &md_row {
            Some(r) => r.temperature,
            None => None,
        },
        context_window: match &md_row {
            Some(r) => r.context_window,
            None => None,
        },
        max_input_tokens: match &md_row {
            Some(r) => r.max_input_tokens,
            None => None,
        },
        max_output_tokens: match &md_row {
            Some(r) => r.max_output_tokens,
            None => None,
        },
        input_modalities: match &md_match {
            Some(found) => match &found.model.modalities {
                Some(m) => clone_list(&m.input),
                None => None,
            },
            None => None,
        },
        output_modalities: match &md_match {
            Some(found) => match &found.model.modalities {
                Some(m) => clone_list(&m.output),
                None => None,
            },
            None => None,
        },
        knowledge_cutoff: match &md_row {
            Some(r) => clone_text(&r.knowledge),
            None => None,
        },
        open_weights: match &md_row {
            Some(r) => r.open_weights,
            None => None,
        },
        last_updated: match &md_row {
            Some(r) => clone_text(&r.last_updated),
            None => None,
        },
        models_dev_matched: md_match.is_some(),
    };
    proof {
        assert(slug_view(creator_slug) == (match aa.model_creator.slug {
            Some(s) => Some(s@),
            None => None,
        }));
    }
    unified
}

/// Merges the benchmark records with the catalog: one unified model per record,
/// in the order of the records.
pub fn merge_models(aa_models: &Vec<AaLlmModel>, models_dev_providers: &ModelsDevResponse) -> (merged:
    Vec<LlmModel>)
    ensures
        merged@.len() == aa_models@.len(),
        forall|i: int|
            0 <= i < aa_models@.len() ==> is_merge_of(
                #[trigger] merged@[i],
                aa_models@[i],
                *models_dev_providers,
            ),
{
    let mut merged: Vec<LlmModel> = Vec::new();
    let mut i: usize = 0;
    while i < aa_models.len()
        invariant
            i <= aa_models.len(),
            merged@.len() == i,
            forall|j: int|
                0 <= j < i ==> is_merge_of(#[trigger] merged@[j], aa_models@[j], *models_dev_providers),
        decreases aa_models.len() - i,
    {
        merged.push(merge_single_model(&aa_models[i], models_dev_providers));
        i += 1;
    }
    merged
}

/// A unified model is marked as matched exactly when its record has a
/// counterpart in the catalog.
pub proof fn lemma_matched_iff_counterpart(
    unified: LlmModel,
    record: AaLlmModel,
    catalog: ModelsDevResponse,
)
    requires
        is_merge_of(unified, record, catalog),
    ensures
        unified.models_dev_matched <==> counterpart(record, catalog) is Some,
{
}

/// A unified model that is not marked as matched has no capability field.
pub proof fn lemma_unmatched_has_no_capabilities(
    unified: LlmModel,
    record: AaLlmModel,
    catalog: ModelsDevResponse,
)
    requires
        is_merge_of(unified, record, catalog),
        !unified.models_dev_matched,
    ensures
        lacks_counterpart(unified),
{
}

/// The unified models do not depend on the order in which the catalog was
/// filled: two catalogs with the same entries give the same counterparts.
pub proof fn lemma_counterpart_ignores_insertion_order(
    record: AaLlmModel,
    first: ModelsDevResponse,
    second: ModelsDevResponse,
)
    requires
        first.wf(),
        second.wf(),
        first.entries() == second.entries(),
    ensures
        counterpart(record, first) == counterpart(record, second),
{
    crate::merge::matcher::lemma_winner_ignores_insertion_order(
        first,
        second,
        match record.model_creator.slug {
            Some(s) => Some(s@),
            None => None,
        },
        record.slug@,
    );
}

} // verus!
