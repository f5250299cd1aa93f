//! The benchmark source: models with scores, prices and speed, as delivered, and
//! the flat row each becomes in storage.

use vstd::prelude::*;
use crate::number::Double;
use crate::text::clone_text;

verus! {

/// Who made a model.
#[derive(Debug, Clone)]
pub struct AaModelCreator {
    pub id: String,
    pub name: String,
    pub slug: Option<String>,
}

/// Benchmark scores; each may be missing.
#[derive(Debug, Clone, Copy)]
pub struct AaEvaluations {
    pub artificial_analysis_intelligence_index: Option<Double>,
    pub artificial_analysis_coding_index: Option<Double>,
    pub artificial_analysis_math_index: Option<Double>,
    pub mmlu_pro: Option<Double>,
    pub gpqa: Option<Double>,
    pub hle: Option<Double>,
    pub livecodebench: Option<Double>,
    pub scicode: Option<Double>,
    pub math_500: Option<Double>,
    pub aime: Option<Double>,
}

/// Prices per million tokens in USD; each may be missing.
#[derive(Debug, Clone, Copy)]
pub struct AaPricing {
    /// Blended at three input tokens to one output token.
    pub price_1m_blended_3_to_1: Option<Double>,
    pub price_1m_input_tokens: Option<Double>,
    pub price_1m_output_tokens: Option<Double>,
}

/// One model of the benchmark source.
#[derive(Debug, Clone)]
pub struct AaLlmModel {
    pub id: String,
    pub name: String,
    pub slug: String,
    pub release_date: Option<String>,
    pub model_creator: AaModelCreator,
    pub evaluations: Option<AaEvaluations>,
    pub pricing: Option<AaPricing>,
    /// Output speed in tokens per second.
    pub median_output_tokens_per_second: Option<Double>,
    /// Seconds until the first token.
    pub median_time_to_first_token_seconds: Option<Double>,
    /// Seconds until the first token of the answer.
    pub median_time_to_first_answer_token: Option<Double>,
}

/// One model of the benchmark source as a flat row.
#[derive(Debug, Clone)]
pub struct AaLlmRow {
    pub id: String,
    pub name: String,
    pub slug: String,
    pub creator: String,
    pub creator_slug: Option<String>,
    pub release_date: Option<String>,
    pub intelligence: Option<Double>,
    pub coding: Option<Double>,
    pub math: Option<Double>,
    pub mmlu_pro: Option<Double>,
    pub gpqa: Option<Double>,
    pub hle: Option<Double>,
    pub livecodebench: Option<Double>,
    pub scicode: Option<Double>,
    pub math_500: Option<Double>,
    pub aime: Option<Double>,
    pub input_price: Option<Double>,
    pub output_price: Option<Double>,
    pub price: Option<Double>,
    pub tps: Option<Double>,
    pub latency: Option<Double>,
}

impl AaLlmModel {
    /// The intelligence index.
    pub fn intelligence(&self) -> (r: Option<Double>)
        ensures
            r == (match self.evaluations {
                Some(g) => g.artificial_analysis_intelligence_index,
                None => None,
            }),
    {
        match &self.evaluations {
            Some(g) => g.artificial_analysis_intelligence_index,
            None => None,
        }
    }

    /// The price of a million input tokens.
    pub fn input_price(&self) -> (r: Option<Double>)
        ensures
            r == (match self.pricing {
                Some(g) => g.price_1m_input_tokens,
                None => None,
            }),
    {
        match &self.pricing {
            Some(g) => g.price_1m_input_tokens,
            None => None,
        }
    }

    /// The price of a million output tokens.
    pub fn output_price(&self) -> (r: Option<Double>)
        ensures
            r == (match self.pricing {
                Some(g) => g.price_1m_output_tokens,
                None => None,
            }),
    {
        match &self.pricing {
            Some(g) => g.price_1m_output_tokens,
            None => None,
        }
    }

    /// The blended price of a million tokens.
    pub fn blended_price(&self) -> (r: Option<Double>)
        ensures
            r == (match self.pricing {
                Some(g) => g.price_1m_blended_3_to_1,
                None => None,
            }),
    {
        match &self.pricing {
            Some(g) => g.price_1m_blended_3_to_1,
            None => None,
        }
    }

    /// Output speed in tokens per second.
    pub fn tps(&self) -> (r: Option<Double>)
        ensures
            r == self.median_output_tokens_per_second,
    {
        self.median_output_tokens_per_second
    }
}

/// The flat row of `model`: identity and creator as they are, a score or price of
/// a missing group missing.
pub open spec fn row_of(model: AaLlmModel) -> AaLlmRow {
    AaLlmRow {
        id: model.id,
        name: model.name,
        slug: model.slug,
        creator: model.model_creator.name,
        creator_slug: model.model_creator.slug,
        release_date: model.release_date,
        intelligence: match model.evaluations {
            Some(e) => e.artificial_analysis_intelligence_index,
            None => None,
        },
        coding: match model.evaluations {
            Some(e) => e.artificial_analysis_coding_index,
            None => None,
        },
        math: match model.evaluations {
            Some(e) => e.artificial_analysis_math_index,
            None => None,
        },
        mmlu_pro: match model.evaluations {
            Some(e) => e.mmlu_pro,
            None => None,
        },
        gpqa: match model.evaluations {
            Some(e) => e.gpqa,
            None => None,
        },
        hle: match model.evaluations {
            Some(e) => e.hle,
            None => None,
        },
        livecodebench: match model.evaluations {
            Some(e) => e.livecodebench,
            None => None,
        },
        scicode: match model.evaluations {
            Some(e) => e.scicode,
            None => None,
        },
        math_500: match model.evaluations {
            Some(e) => e.math_500,
            None => None,
        },
        aime: match model.evaluations {
            Some(e) => e.aime,
            None => None,
        },
        input_price: match model.pricing {
            Some(p) => p.price_1m_input_tokens,
            None => None,
        },
        output_price: match model.pricing {
            Some(p) => p.price_1m_output_tokens,
            None => None,
        },
        price: match model.pricing {
            Some(p) => p.price_1m_blended_3_to_1,
            None => None,
        },
        tps: model.median_output_tokens_per_second,
        latency: model.median_time_to_first_token_seconds,
    }
}

impl From<&AaLlmModel> for AaLlmRow {
    fn from(model: &AaLlmModel) -> (row: AaLlmRow) {
        let evaluations = model.evaluations;
        let pricing = model.pricing;
        AaLlmRow {
            id: model.id.clone(),
            name: model.name.clone(),
            slug: model.slug.clone(),
            creator: model.model_creator.name.clone(),
            creator_slug: clone_text(&model.model_creator.slug),
            release_date: clone_text(&model.release_date),
            intelligence: match evaluations {
                Some(e) => e.artificial_analysis_intelligence_index,
                None => None,
            },
            coding: match evaluations {
                Some(e) => e.artificial_analysis_coding_index,
                None => None,
            },
            math: match evaluations {
                Some(e) => e.artificial_analysis_math_index,
                None => None,
            },
            mmlu_pro: match evaluations {
                Some(e) => e.mmlu_pro,
                None => None,
            },
            gpqa: match evaluations {
                Some(e) => e.gpqa,
                None => None,
            },
            hle: match evaluations {
                Some(e) => e.hle,
                None => None,
            },
            livecodebench: match evaluations {
                Some(e) => e.livecodebench,
                None => None,
            },
            scicode: match evaluations {
                Some(e) => e.scicode,
                None => None,
            },
            math_500: match evaluations {
                Some(e) => e.math_500,
                None => None,
            },
            aime: match evaluations {
                Some(e) => e.aime,
                None => None,
            },
            input_price: match pricing {
                Some(p) => p.price_1m_input_tokens,
                None => None,
            },
            output_price: match pricing {
                Some(p) => p.price_1m_output_tokens,
                None => None,
            },
            price: match pricing {
                Some(p) => p.price_1m_blended_3_to_1,
                None => None,
            },
            tps: model.median_output_tokens_per_second,
            latency: model.median_time_to_first_token_seconds,
        }
    }
}

impl vstd::std_specs::convert::FromSpecImpl<&AaLlmModel> for AaLlmRow {
    open spec fn obeys_from_spec() -> bool {
        true
    }

    open spec fn from_spec(model: &AaLlmModel) -> AaLlmRow {
        row_of(*model)
    }
}

} // verus!
