//! The unified model: one benchmark record together with the capabilities of
//! its counterpart in the catalog, where one was found.

use vstd::prelude::*;
use crate::number::Double;
use crate::text::{
    chars_of, join, join_strings, lemma_split_join, lower, split, to_lower, vec_equal, views,
};

verus! {

/// A model as every report and the main query table see it.
#[derive(Debug, Clone)]
pub struct LlmModel {
    pub id: String,
    pub name: String,
    pub slug: String,
    pub release_date: Option<String>,
    pub creator: String,
    pub creator_slug: Option<String>,
    pub intelligence: Option<Double>,
    pub coding: Option<Double>,
    pub math: Option<Double>,
    pub mmlu_pro: Option<Double>,
    pub gpqa: Option<Double>,
    pub hle: Option<Double>,
    pub livecodebench: Option<Double>,
    pub scicode: Option<Double>,
    pub math_500: Option<Double>,
    pub aime: Option<Double>,
    pub input_price: Option<Double>,
    pub output_price: Option<Double>,
    pub price: Option<Double>,
    pub tps: Option<Double>,
    pub latency: Option<Double>,
    pub reasoning: Option<bool>,
    pub tool_call: Option<bool>,
    pub structured_output: Option<bool>,
    pub attachment: Option<bool>,
    pub temperature: Option<bool>,
    pub context_window: Option<u64>,
    pub max_input_tokens: Option<u64>,
    pub max_output_tokens: Option<u64>,
    pub input_modalities: Option<Vec<String>>,
    pub output_modalities: Option<Vec<String>>,
    pub knowledge_cutoff: Option<String>,
    pub open_weights: Option<bool>,
    pub last_updated: Option<String>,
    /// Whether a counterpart was found in the catalog.
    pub models_dev_matched: bool,
}

impl Default for LlmModel {
    /// A model without a name and without any value.
    fn default() -> (model: LlmModel)
        ensures
            model.id@.len() == 0,
            model.name@.len() == 0,
            model.slug@.len() == 0,
            model.creator@.len() == 0,
            model.release_date is None,
            model.creator_slug is None,
            model.intelligence is None,
            model.coding is None,
            model.math is None,
            model.mmlu_pro is None,
            model.gpqa is None,
            model.hle is None,
            model.livecodebench is None,
            model.scicode is None,
            model.math_500 is None,
            model.aime is None,
            model.input_price is None,
            model.output_price is None,
            model.price is None,
            model.tps is None,
            model.latency is None,
            model.reasoning is None,
            model.tool_call is None,
            model.structured_output is None,
            model.attachment is None,
            model.temperature is None,
            model.context_window is None,
            model.max_input_tokens is None,
            model.max_output_tokens is None,
            model.input_modalities is None,
            model.output_modalities is None,
            model.knowledge_cutoff is None,
            model.open_weights is None,
            model.last_updated is None,
            !model.models_dev_matched,
    {
        LlmModel {
            id: String::new(),
            name: String::new(),
            slug: String::new(),
            release_date: None,
            creator: String::new(),
            creator_slug: None,
            intelligence: None,
            coding: None,
            math: None,
            mmlu_pro: None,
            gpqa: None,
            hle: None,
            livecodebench: None,
            scicode: None,
            math_500: None,
            aime: None,
            input_price: None,
            output_price: None,
            price: None,
            tps: None,
            latency: None,
            reasoning: None,
            tool_call: None,
            structured_output: None,
            attachment: None,
            temperature: None,
            context_window: None,
            max_input_tokens: None,
            max_output_tokens: None,
            input_modalities: None,
            output_modalities: None,
            knowledge_cutoff: None,
            open_weights: None,
            last_updated: None,
            models_dev_matched: false,
        }
    }
}

/// Whether `a` and `b` are the same text but for the case of ASCII letters.
pub open spec fn same_ignoring_case(a: Seq<char>, b: Seq<char>) -> bool {
    lower(a) == lower(b)
}

/// Whether one of `tokens` is `wanted`, the case of ASCII letters aside.
pub open spec fn has_token(tokens: Seq<String>, wanted: Seq<char>) -> bool {
    exists|i: int| 0 <= i < tokens.len() && same_ignoring_case(#[trigger] tokens[i]@, wanted)
}

/// Whether there is a list and it holds `wanted`, the case of ASCII letters aside.
pub open spec fn lists(tokens: Option<Vec<String>>, wanted: Seq<char>) -> bool {
    match tokens {
        Some(v) => has_token(v@, wanted),
        None => false,
    }
}

/// The tokens as one text with commas between, where there is a list.
pub open spec fn comma_joined(tokens: Option<Vec<String>>) -> Option<Seq<char>> {
    match tokens {
        Some(v) => Some(join(views(v@), ","@)),
        None => None,
    }
}

/// Decides [`lists`].
fn list_has(tokens: &Option<Vec<String>>, wanted: &str) -> (r: bool)
    ensures
        r == lists(*tokens, wanted@),
{
    match tokens {
        Some(v) => {
            let goal = to_lower(&chars_of(wanted));
            let mut i: usize = 0;
            while i < v.len()
                invariant
                    i <= v.len(),
                    *tokens == Some(*v),
                    goal@ == lower(wanted@),
                    forall|j: int| 0 <= j < i ==> !same_ignoring_case(#[trigger] v@[j]@, wanted@),
                decreases v.len() - i,
            {
                let here = to_lower(&chars_of(v[i].as_str()));
                if vec_equal(&here, &goal) {
                    assert(same_ignoring_case(v@[i as int]@, wanted@));
                    return true;
                }
                i += 1;
            }
            false
        },
        None => false,
    }
}

/// Computes [`comma_joined`].
fn list_text(tokens: &Option<Vec<String>>) -> (r: Option<String>)
    ensures
        match r {
            Some(text) => comma_joined(*tokens) == Some(text@),
            None => comma_joined(*tokens) is None,
        },
{
    match tokens {
        Some(v) => Some(join_strings(v, ",")),
        None => None,
    }
}

impl LlmModel {
    /// The name to show.
    pub fn display_name(&self) -> (r: &str)
        ensures
            r@ == self.name@,
    {
        self.name.as_str()
    }

    /// The name of the creator.
    pub fn creator_name(&self) -> (r: &str)
        ensures
            r@ == self.creator@,
    {
        self.creator.as_str()
    }

    /// The intelligence index.
    pub fn get_intelligence(&self) -> (r: Option<Double>)
        ensures
            r == self.intelligence,
    {
        self.intelligence
    }

    /// The price of a million input tokens.
    pub fn get_input_price(&self) -> (r: Option<Double>)
        ensures
            r == self.input_price,
    {
        self.input_price
    }

    /// The price of a million output tokens.
    pub fn get_output_price(&self) -> (r: Option<Double>)
        ensures
            r == self.output_price,
    {
        self.output_price
    }

    /// The blended price of a million tokens.
    pub fn get_blended_price(&self) -> (r: Option<Double>)
        ensures
            r == self.price,
    {
        self.price
    }

    /// Output speed in tokens per second.
    pub fn get_tps(&self) -> (r: Option<Double>)
        ensures
            r == self.tps,
    {
        self.tps
    }

    /// Whether the model reasons, where that is known.
    pub fn supports_reasoning(&self) -> (r: Option<bool>)
        ensures
            r == self.reasoning,
    {
        self.reasoning
    }

    /// Whether the model calls tools, where that is known.
    pub fn supports_tool_call(&self) -> (r: Option<bool>)
        ensures
            r == self.tool_call,
    {
        self.tool_call
    }

    /// Whether the model gives structured output, where that is known.
    pub fn supports_structured_output(&self) -> (r: Option<bool>)
        ensures
            r == self.structured_output,
    {
        self.structured_output
    }

    /// Whether the model takes attachments, where that is known.
    pub fn supports_attachment(&self) -> (r: Option<bool>)
        ensures
            r == self.attachment,
    {
        self.attachment
    }

    /// The size of the context window.
    pub fn get_context_window(&self) -> (r: Option<u64>)
        ensures
            r == self.context_window,
    {
        self.context_window
    }

    /// The intelligence index.
    pub fn intelligence(&self) -> (r: Option<Double>)
        ensures
            r == self.intelligence,
    {
        self.intelligence
    }

    /// The price of a million input tokens.
    pub fn input_price(&self) -> (r: Option<Double>)
        ensures
            r == self.input_price,
    {
        self.input_price
    }

    /// The price of a million output tokens.
    pub fn output_price(&self) -> (r: Option<Double>)
        ensures
            r == self.output_price,
    {
        self.output_price
    }

    /// The blended price of a million tokens.
    pub fn blended_price(&self) -> (r: Option<Double>)
        ensures
            r == self.price,
    {
        self.price
    }

    /// Output speed in tokens per second.
    pub fn tps(&self) -> (r: Option<Double>)
        ensures
            r == self.tps,
    {
        self.tps
    }

    /// The input tokens as one text with commas between.
    pub fn input_modalities_str(&self) -> (r: Option<String>)
        ensures
            match r {
                Some(text) => comma_joined(self.input_modalities) == Some(text@),
                None => comma_joined(self.input_modalities) is None,
            },
    {
        list_text(&self.input_modalities)
    }

    /// The output tokens as one text with commas between.
    pub fn output_modalities_str(&self) -> (r: Option<String>)
        ensures
            match r {
                Some(text) => comma_joined(self.output_modalities) == Some(text@),
                None => comma_joined(self.output_modalities) is None,
            },
    {
        list_text(&self.output_modalities)
    }

    /// Whether the model takes in `modality`, the case of ASCII letters aside.
    pub fn has_input_modality(&self, modality: &str) -> (r: bool)
        ensures
            r == lists(self.input_modalities, modality@),
    {
        list_has(&self.input_modalities, modality)
    }

    /// Whether the model gives out `modality`, the case of ASCII letters aside.
    pub fn has_output_modality(&self, modality: &str) -> (r: bool)
        ensures
            r == lists(self.output_modalities, modality@),
    {
        list_has(&self.output_modalities, modality)
    }
}

/// Whether a list of tokens can be stored as one text with commas between:
/// no token is empty, and none holds a comma.
pub open spec fn is_clean(tokens: Seq<String>) -> bool {
    forall|i: int|
        0 <= i < tokens.len() ==> (#[trigger] tokens[i])@.len() > 0 && !tokens[i]@.contains(',')
}

/// Decides [`is_clean`].
pub fn tokens_are_clean(tokens: &Vec<String>) -> (r: bool)
    ensures
        r == is_clean(tokens@),
{
    let mut i: usize = 0;
    while i < tokens.len()
        invariant
            i <= tokens.len(),
            forall|j: int|
                0 <= j < i ==> (#[trigger] tokens@[j])@.len() > 0 && !tokens@[j]@.contains(','),
        decreases tokens.len() - i,
    {
        let chars = chars_of(tokens[i].as_str());
        if chars.len() == 0 {
            return false;
        }
        let mut k: usize = 0;
        while k < chars.len()
            invariant
                k <= chars.len(),
                i < tokens.len(),
                chars@ == tokens@[i as int]@,
                forall|x: int| 0 <= x < k ==> chars@[x] != ',',
            decreases chars.len() - k,
        {
            if chars[k] == ',' {
                assert(chars@.contains(','));
                return false;
            }
            k += 1;
        }
        i += 1;
    }
    true
}

/// A clean list of tokens, joined with commas and split at the commas again,
/// is the list it was.
pub proof fn lemma_clean_tokens_round_trip(tokens: Seq<String>)
    requires
        is_clean(tokens),
    ensures
        split(join(views(tokens), ","@), ',') == views(tokens),
{
    reveal_strlit(",");
    assert(","@ == seq![',']);
    lemma_split_join(views(tokens), ',');
}

} // verus!
