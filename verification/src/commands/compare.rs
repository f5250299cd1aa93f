//! The comparison of several models, field by field, with the best value of
//! each field marked.
//!
//! Values are measured in millionths for the marking: a value is among the best
//! when it is less than a thousandth away from the best one. A value that is
//! no finite number, or too large to be measured, is never among them.

use vstd::prelude::*;
use crate::error::AppError;
use crate::models::llm::LlmModel;
use crate::number::{fixed_text, is_finite, scaled_magnitude, sign_bit, Double, SCALED_LIMIT};
use crate::output::OutputFormat;
use crate::query::{as_nats, byte_len, padded, push_repeated, repeated, width_at};
use crate::text::{chars_of, contains, join, join_strings, str_contains, views};
use crate::utils::matching::{find_models_by_names, gathered, pointed};

verus! {

/// Which way a field is better.
#[derive(Debug, Clone, Copy, PartialEq, Eq, Structural)]
pub enum FieldType {
    /// A higher value is better.
    HigherBetter,
    /// A lower value is better.
    LowerBetter,
    /// No value is better than another.
    NoWinner,
}

/// Which field of a model a line of the comparison shows.
#[derive(Debug, Clone, Copy, PartialEq, Eq, Structural)]
pub enum FieldKey {
    Creator,
    Intelligence,
    Coding,
    InputPrice,
    OutputPrice,
    BlendedPrice,
    Tps,
    Latency,
    Math,
    MmluPro,
    Gpqa,
    Hle,
    LiveCodeBench,
    SciCode,
    Math500,
    Aime,
}

/// A line of the comparison: its heading, which way it is better, and its field.
#[derive(Debug, Clone, Copy)]
pub struct FieldDef {
    pub name: &'static str,
    pub field_type: FieldType,
    pub key: FieldKey,
}

/// The value of a field.
#[derive(Debug, Clone)]
pub enum FieldValue {
    Number(Double),
    Text(String),
}

/// The lines that every comparison has.
pub open spec fn basic_fields() -> Seq<FieldDef> {
    seq![
        FieldDef { name: "Creator", field_type: FieldType::NoWinner, key: FieldKey::Creator },
        FieldDef {
            name: "Intelligence",
            field_type: FieldType::HigherBetter,
            key: FieldKey::Intelligence,
        },
        FieldDef { name: "Coding", field_type: FieldType::HigherBetter, key: FieldKey::Coding },
        FieldDef {
            name: "Input $/M",
            field_type: FieldType::LowerBetter,
            key: FieldKey::InputPrice,
        },
        FieldDef {
            name: "Output $/M",
            field_type: FieldType::LowerBetter,
            key: FieldKey::OutputPrice,
        },
        FieldDef {
            name: "Blended $/M",
            field_type: FieldType::LowerBetter,
            key: FieldKey::BlendedPrice,
        },
        FieldDef { name: "TPS", field_type: FieldType::HigherBetter, key: FieldKey::Tps },
        FieldDef {
            name: "Latency (s)",
            field_type: FieldType::LowerBetter,
            key: FieldKey::Latency,
        },
    ]
}

/// The lines that a verbose comparison has in addition.
pub open spec fn verbose_fields() -> Seq<FieldDef> {
    seq![
        FieldDef { name: "Math", field_type: FieldType::HigherBetter, key: FieldKey::Math },
        FieldDef { name: "MMLU-Pro", field_type: FieldType::HigherBetter, key: FieldKey::MmluPro },
        FieldDef { name: "GPQA", field_type: FieldType::HigherBetter, key: FieldKey::Gpqa },
        FieldDef { name: "HLE", field_type: FieldType::HigherBetter, key: FieldKey::Hle },
        FieldDef {
            name: "LiveCodeBench",
            field_type: FieldType::HigherBetter,
            key: FieldKey::LiveCodeBench,
        },
        FieldDef { name: "SciCode", field_type: FieldType::HigherBetter, key: FieldKey::SciCode },
        FieldDef { name: "Math 500", field_type: FieldType::HigherBetter, key: FieldKey::Math500 },
        FieldDef { name: "AIME", field_type: FieldType::HigherBetter, key: FieldKey::Aime },
    ]
}

/// The lines of a comparison.
pub open spec fn field_list(verbose: bool) -> Seq<FieldDef> {
    if verbose {
        basic_fields() + verbose_fields()
    } else {
        basic_fields()
    }
}

/// Gets the lines of a comparison.
pub fn get_field_defs(verbose: bool) -> (fields: Vec<FieldDef>)
    ensures
        fields@ == field_list(verbose),
{
    let mut fields: Vec<FieldDef> = Vec::new();
    fields.push(FieldDef { name: "Creator", field_type: FieldType::NoWinner, key: FieldKey::Creator });
    fields.push(
        FieldDef {
            name: "Intelligence",
            field_type: FieldType::HigherBetter,
            key: FieldKey::Intelligence,
        },
    );
    fields.push(
        FieldDef { name: "Coding", field_type: FieldType::HigherBetter, key: FieldKey::Coding },
    );
    fields.push(
        FieldDef {
            name: "Input $/M",
            field_type: FieldType::LowerBetter,
            key: FieldKey::InputPrice,
        },
    );
    fields.push(
        FieldDef {
            name: "Output $/M",
            field_type: FieldType::LowerBetter,
            key: FieldKey::OutputPrice,
        },
    );
    fields.push(
        FieldDef {
            name: "Blended $/M",
            field_type: FieldType::LowerBetter,
            key: FieldKey::BlendedPrice,
        },
    );
    fields.push(FieldDef { name: "TPS", field_type: FieldType::HigherBetter, key: FieldKey::Tps });
    fields.push(
        FieldDef {
            name: "Latency (s)",
            field_type: FieldType::LowerBetter,
            key: FieldKey::Latency,
        },
    );
    assert(fields@ =~= basic_fields());
    if verbose {
        fields.push(
            FieldDef { name: "Math", field_type: FieldType::HigherBetter, key: FieldKey::Math },
        );
        fields.push(
            FieldDef {
                name: "MMLU-Pro",
                field_type: FieldType::HigherBetter,
                key: FieldKey::MmluPro,
            },
        );
        fields.push(
            FieldDef { name: "GPQA", field_type: FieldType::HigherBetter, key: FieldKey::Gpqa },
        );
        fields.push(FieldDef { name: "HLE", field_type: FieldType::HigherBetter, key: FieldKey::Hle });
        fields.push(
            FieldDef {
                name: "LiveCodeBench",
                field_type: FieldType::HigherBetter,
                key: FieldKey::LiveCodeBench,
            },
        );
        fields.push(
            FieldDef {
                name: "SciCode",
                field_type: FieldType::HigherBetter,
                key: FieldKey::SciCode,
            },
        );
        fields.push(
            FieldDef {
                name: "Math 500",
                field_type: FieldType::HigherBetter,
                key: FieldKey::Math500,
            },
        );
        fields.push(
            FieldDef { name: "AIME", field_type: FieldType::HigherBetter, key: FieldKey::Aime },
        );
        assert(fields@ =~= basic_fields() + verbose_fields());
    }
    fields
}

/// The number that a model has in the field `key`; the creator is no number.
pub open spec fn number_of(model: LlmModel, key: FieldKey) -> Option<Double> {
    match key {
        FieldKey::Creator => None,
        FieldKey::Intelligence => model.intelligence,
        FieldKey::Coding => model.coding,
        FieldKey::InputPrice => model.input_price,
        FieldKey::OutputPrice => model.output_price,
        FieldKey::BlendedPrice => model.price,
        FieldKey::Tps => model.tps,
        FieldKey::Latency => model.latency,
        FieldKey::Math => model.math,
        FieldKey::MmluPro => model.mmlu_pro,
        FieldKey::Gpqa => model.gpqa,
        FieldKey::Hle => model.hle,
        FieldKey::LiveCodeBench => model.livecodebench,
        FieldKey::SciCode => model.scicode,
        FieldKey::Math500 => model.math_500,
        FieldKey::Aime => model.aime,
    }
}

/// What `model` has in the field `key`: the creator as a text, anything else as
/// a number where there is one.
pub open spec fn value_of(model: LlmModel, key: FieldKey) -> Option<FieldValue> {
    match key {
        FieldKey::Creator => Some(FieldValue::Text(model.creator)),
        _ => match number_of(model, key) {
            Some(d) => Some(FieldValue::Number(d)),
            None => None,
        },
    }
}

/// Gets what `model` has in the field `key`.
pub fn extract(model: &LlmModel, key: FieldKey) -> (value: Option<FieldValue>)
    ensures
        value == value_of(*model, key),
{
    let number = match key {
        FieldKey::Creator => {
            return Some(FieldValue::Text(model.creator.clone()));
        },
        FieldKey::Intelligence => model.intelligence,
        FieldKey::Coding => model.coding,
        FieldKey::InputPrice => model.input_price,
        FieldKey::OutputPrice => model.output_price,
        FieldKey::BlendedPrice => model.price,
        FieldKey::Tps => model.tps,
        FieldKey::Latency => model.latency,
        FieldKey::Math => model.math,
        FieldKey::MmluPro => model.mmlu_pro,
        FieldKey::Gpqa => model.gpqa,
        FieldKey::Hle => model.hle,
        FieldKey::LiveCodeBench => model.livecodebench,
        FieldKey::SciCode => model.scicode,
        FieldKey::Math500 => model.math_500,
        FieldKey::Aime => model.aime,
    };
    match number {
        Some(d) => Some(FieldValue::Number(d)),
        None => None,
    }
}

impl FieldValue {
    /// How the value is shown: a number with one fractional digit, a text as it is.
    pub open spec fn shown(self) -> Seq<char> {
        match self {
            FieldValue::Number(d) => fixed_text(d.bits, 1),
            FieldValue::Text(s) => s@,
        }
    }

    /// Shows the value.
    pub fn to_display(&self) -> (text: String)
        ensures
            text@ == self.shown(),
    {
        match self {
            FieldValue::Number(d) => d.render_fixed(1),
            FieldValue::Text(s) => s.clone(),
        }
    }
}

/// Formats a price for display: a dollar sign and two fractional digits.
pub fn format_price(value: Double) -> (text: String)
    ensures
        text@ == seq!['$'] + fixed_text(value.bits, 2),
{
    let mut text = String::new();
    text.push('$');
    text.append(value.render_fixed(2).as_str());
    text
}

/// The measure of a value in millionths, where it is a finite number that can
/// be measured.
pub open spec fn measure(value: Option<FieldValue>) -> Option<int> {
    match value {
        Some(FieldValue::Number(d)) => if is_finite(d.bits) && scaled_magnitude(
            d.bits,
            1_000_000,
        ) <= SCALED_LIMIT {
            let m = scaled_magnitude(d.bits, 1_000_000) as int;
            Some(
                if sign_bit(d.bits) {
                    -m
                } else {
                    m
                },
            )
        } else {
            None
        },
        _ => None,
    }
}

/// The best measure among the first `n` values: the highest when `higher`, else
/// the lowest; nothing where none of them has a measure.
pub open spec fn best_measure(values: Seq<Option<FieldValue>>, higher: bool, n: nat) -> Option<int>
    decreases n,
{
    if n == 0 {
        None
    } else {
        let before = best_measure(values, higher, (n - 1) as nat);
        match (before, measure(values[n - 1])) {
            (Some(b), Some(m)) => if (higher && m > b) || (!higher && m < b) {
                Some(m)
            } else {
                Some(b)
            },
            (Some(b), None) => Some(b),
            (None, m) => m,
        }
    }
}

/// Whether the `i`-th value is among the best of its line.
pub open spec fn wins(values: Seq<Option<FieldValue>>, field_type: FieldType, i: int) -> bool {
    match field_type {
        FieldType::NoWinner => false,
        _ => match (
            measure(values[i]),
            best_measure(values, field_type == FieldType::HigherBetter, values.len()),
        ) {
            (Some(m), Some(b)) => -1000 < m - b < 1000,
            _ => false,
        },
    }
}

/// Computes [`measure`].
fn measure_of(value: &Option<FieldValue>) -> (r: Option<i128>)
    ensures
        match r {
            Some(m) => measure(*value) == Some(m as int),
            None => measure(*value) is None,
        },
{
    match value {
        Some(FieldValue::Number(d)) => match d.scaled(1_000_000) {
            Some(m) => Some(
                if d.is_negative() {
                    -(m as i128)
                } else {
                    m as i128
                },
            ),
            None => None,
        },
        _ => None,
    }
}

/// Finds the winners of a line: for each value whether it is among the best.
pub fn find_winners(values: &Vec<Option<FieldValue>>, field_type: FieldType) -> (winners: Vec<bool>)
    ensures
        winners@.len() == values@.len(),
        forall|i: int| 0 <= i < values@.len() ==> winners@[i] == wins(values@, field_type, i),
{
    let higher = match field_type {
        FieldType::HigherBetter => true,
        _ => false,
    };
    let open = match field_type {
        FieldType::NoWinner => false,
        _ => true,
    };
    let mut best: Option<i128> = None;
    let mut measures: Vec<Option<i128>> = Vec::new();
    let mut i: usize = 0;
    while i < values.len()
        invariant
            i <= values.len(),
            measures@.len() == i,
            forall|j: int|
                0 <= j < i ==> match #[trigger] measures@[j] {
                    Some(m) => measure(values@[j]) == Some(m as int),
                    None => measure(values@[j]) is None,
                },
            match best {
                Some(b) => best_measure(values@, higher, i as nat) == Some(b as int),
                None => best_measure(values@, higher, i as nat) is None,
            },
        decreases values.len() - i,
    {
        let m = measure_of(&values[i]);
        best = match (best, m) {
            (Some(b), Some(x)) => if (higher && x > b) || (!higher && x < b) {
                Some(x)
            } else {
                Some(b)
            },
            (Some(b), None) => Some(b),
            (None, x) => x,
        };
        measures.push(m);
        i += 1;
    }
    let mut winners: Vec<bool> = Vec::new();
    let mut k: usize = 0;
    while k < values.len()
        invariant
            k <= values.len(),
            winners@.len() == k,
            measures@.len() == values@.len(),
            higher == (field_type == FieldType::HigherBetter),
            open == (field_type != FieldType::NoWinner),
            forall|j: int|
                0 <= j < values@.len() ==> match #[trigger] measures@[j] {
                    Some(m) => measure(values@[j]) == Some(m as int),
                    None => measure(values@[j]) is None,
                },
            match best {
                Some(b) => best_measure(values@, higher, values@.len()) == Some(b as int),
                None => best_measure(values@, higher, values@.len()) is None,
            },
            forall|j: int| 0 <= j < k ==> winners@[j] == wins(values@, field_type, j),
        decreases values.len() - k,
    {
        let won = open && match (measures[k], best) {
            (Some(m), Some(b)) => near(m, b),
            _ => false,
        };
        winners.push(won);
        k += 1;
    }
    winners
}

/// Whether two measures are less than a thousand apart.
fn near(a: i128, b: i128) -> (r: bool)
    ensures
        r == (-1000 < a - b < 1000),
{
    if a >= b {
        match a.checked_sub(b) {
            Some(d) => d < 1000,
            None => false,
        }
    } else {
        match b.checked_sub(a) {
            Some(d) => d < 1000,
            None => false,
        }
    }
}

/// One line of a comparison: its heading, what is shown for each model, and
/// which of the models are among the best.
#[derive(Debug, Clone)]
pub struct CompareField {
    pub name: String,
    pub values: Vec<String>,
    pub winners: Vec<bool>,
}

/// A comparison: the names of the models, and the lines.
#[derive(Debug, Clone)]
pub struct CompareResult {
    pub models: Vec<String>,
    pub fields: Vec<CompareField>,
}

/// The values of all of `models` in the field `key`.
pub open spec fn line_values(models: Seq<LlmModel>, key: FieldKey) -> Seq<Option<FieldValue>> {
    Seq::new(models.len(), |i: int| value_of(models[i], key))
}

/// What is shown for a value in the line `def`: a price with a dollar sign and
/// two fractional digits, another number with one, a text as it is, a hyphen
/// where there is no value; and an asterisk behind it where it wins.
pub open spec fn cell_text(value: Option<FieldValue>, def: FieldDef, winner: bool) -> Seq<char> {
    let base = match value {
        Some(FieldValue::Number(d)) => if contains(def.name@, "$/M"@) {
            seq!['$'] + fixed_text(d.bits, 2)
        } else {
            fixed_text(d.bits, 1)
        },
        Some(FieldValue::Text(s)) => s@,
        None => "-"@,
    };
    if winner {
        base + " *"@
    } else {
        base
    }
}

/// Whether `field` is the line `def` of the comparison of `models`.
pub open spec fn is_line_of(field: CompareField, def: FieldDef, models: Seq<LlmModel>) -> bool {
    let values = line_values(models, def.key);
    &&& field.name@ == def.name@
    &&& field.winners@.len() == models.len()
    &&& field.values@.len() == models.len()
    &&& forall|i: int|
        0 <= i < models.len() ==> {
            &&& #[trigger] field.winners@[i] == wins(values, def.field_type, i)
            &&& (#[trigger] field.values@[i])@ == cell_text(
                values[i],
                def,
                wins(values, def.field_type, i),
            )
        }
}

/// Whether `result` is the comparison of `models`, verbose or not.
pub open spec fn is_comparison_of(result: CompareResult, models: Seq<LlmModel>, verbose: bool) -> bool {
    &&& result.models@.len() == models.len()
    &&& forall|i: int| 0 <= i < models.len() ==> (#[trigger] result.models@[i]) == models[i].name
    &&& result.fields@.len() == field_list(verbose).len()
    &&& forall|j: int|
        0 <= j < field_list(verbose).len() ==> is_line_of(
            #[trigger] result.fields@[j],
            field_list(verbose)[j],
            models,
        )
}

/// Builds one line of a comparison.
fn compare_line(def: &FieldDef, models: &Vec<&LlmModel>) -> (field: CompareField)
    ensures
        is_line_of(field, *def, pointed(models@)),
{
    let ghost all = pointed(models@);
    let ghost expected = line_values(all, def.key);
    let mut values: Vec<Option<FieldValue>> = Vec::new();
    let mut i: usize = 0;
    while i < models.len()
        invariant
            i <= models.len(),
            all == pointed(models@),
            values@.len() == i,
            forall|j: int| 0 <= j < i ==> #[trigger] values@[j] == value_of(all[j], def.key),
        decreases models.len() - i,
    {
        assert(all[i as int] == *models@[i as int]);
        values.push(extract(models[i], def.key));
        i += 1;
    }
    assert(values@ =~= expected);
    let winners = find_winners(&values, def.field_type);
    let price = str_contains(def.name, "$/M");
    let mut shown: Vec<String> = Vec::new();
    let mut k: usize = 0;
    while k < values.len()
        invariant
            k <= values.len(),
            values@ == expected,
            values@.len() == all.len(),
            winners@.len() == values@.len(),
            price == contains(def.name@, "$/M"@),
            forall|j: int|
                0 <= j < values@.len() ==> winners@[j] == wins(values@, def.field_type, j),
            shown@.len() == k,
            forall|j: int|
                0 <= j < k ==> (#[trigger] shown@[j])@ == cell_text(
                    values@[j],
                    *def,
                    wins(values@, def.field_type, j),
                ),
        decreases values.len() - k,
    {
        let mut cell = match &values[k] {
            Some(FieldValue::Number(d)) => {
                if price {
                    format_price(*d)
                } else {
                    d.render_fixed(1)
                }
            },
            Some(FieldValue::Text(s)) => s.clone(),
            None => "-".to_owned(),
        };
        if winners[k] {
            cell.append(" *");
        }
        shown.push(cell);
        k += 1;
    }
    CompareField { name: def.name.to_owned(), values: shown, winners }
}

/// Builds the comparison of `models`.
pub fn compare_models(models: &Vec<&LlmModel>, verbose: bool) -> (result: CompareResult)
    ensures
        is_comparison_of(result, pointed(models@), verbose),
{
    let ghost all = pointed(models@);
    let defs = get_field_defs(verbose);
    let mut names: Vec<String> = Vec::new();
    let mut i: usize = 0;
    while i < models.len()
        invariant
            i <= models.len(),
            all == pointed(models@),
            names@.len() == i,
            forall|j: int| 0 <= j < i ==> (#[trigger] names@[j]) == all[j].name,
        decreases models.len() - i,
    {
        assert(all[i as int] == *models@[i as int]);
        names.push(models[i].name.clone());
        i += 1;
    }
    let mut fields: Vec<CompareField> = Vec::new();
    let mut f: usize = 0;
    while f < defs.len()
        invariant
            f <= defs.len(),
            all == pointed(models@),
            defs@ == field_list(verbose),
            fields@.len() == f,
            forall|j: int| 0 <= j < f ==> is_line_of(#[trigger] fields@[j], defs@[j], all),
        decreases defs.len() - f,
    {
        fields.push(compare_line(&defs[f], models));
        f += 1;
    }
    CompareResult { models: names, fields }
}

/// A cell of a comma-separated line: in double quotes, with every double quote
/// in it doubled, where it holds a comma, a double quote or a line feed; else
/// as it is.
pub open spec fn csv_cell(value: Seq<char>) -> Seq<char> {
    if value.contains(',') || value.contains('"') || value.contains('\n') {
        seq!['"'] + quotes_doubled(value, value.len()) + seq!['"']
    } else {
        value
    }
}

/// The first `n` characters of `value`, with every double quote doubled.
pub open spec fn quotes_doubled(value: Seq<char>, n: nat) -> Seq<char>
    decreases n,
{
    if n == 0 {
        Seq::empty()
    } else if value[n - 1] == '"' {
        quotes_doubled(value, (n - 1) as nat) + seq!['"', '"']
    } else {
        quotes_doubled(value, (n - 1) as nat).push(value[n - 1])
    }
}

/// Appends [`csv_cell`].
fn push_csv_cell(out: &mut String, value: &str)
    ensures
        final(out)@ == old(out)@ + csv_cell(value@),
{
    let chars = chars_of(value);
    let mut special = false;
    let mut i: usize = 0;
    while i < chars.len()
        invariant
            i <= chars.len(),
            special == (chars@.take(i as int).contains(',') || chars@.take(i as int).contains(
                '"',
            ) || chars@.take(i as int).contains('\n')),
        decreases chars.len() - i,
    {
        let c = chars[i];
        proof {
            let head = chars@.take(i as int);
            let grown = chars@.take(i + 1);
            assert(grown == head.push(c));
            assert forall|x: char| grown.contains(x) <==> (head.contains(x) || x == c) by {
                if grown.contains(x) {
                    let k = grown.index_of(x);
                    if k < i {
                        assert(head[k] == x);
                    }
                }
                if head.contains(x) {
                    let k = head.index_of(x);
                    assert(grown[k] == x);
                }
                if x == c {
                    assert(grown[i as int] == x);
                }
            }
        }
        if c == ',' || c == '"' || c == '\n' {
            special = true;
        }
        i += 1;
    }
    assert(chars@.take(chars.len() as int) == chars@);
    if !special {
        out.append(value);
        return ;
    }
    let mut cell = String::new();
    cell.push('"');
    let mut k: usize = 0;
    while k < chars.len()
        invariant
            k <= chars.len(),
            cell@ == seq!['"'] + quotes_doubled(chars@, k as nat),
        decreases chars.len() - k,
    {
        if chars[k] == '"' {
            cell.push('"');
        }
        cell.push(chars[k]);
        k += 1;
    }
    cell.push('"');
    out.append(cell.as_str());
}

/// The first `n` cells of a line, each behind the separator `sep`, through `cell`.
pub open spec fn cells_behind(
    cells: Seq<Seq<char>>,
    sep: Seq<char>,
    quoted: bool,
    n: nat,
) -> Seq<char>
    decreases n,
{
    if n == 0 {
        Seq::empty()
    } else {
        cells_behind(cells, sep, quoted, (n - 1) as nat) + sep + (if quoted {
            csv_cell(cells[n - 1])
        } else {
            cells[n - 1]
        })
    }
}

/// A line of separated values: the heading, then each cell behind a separator,
/// and a line feed; with commas the heading and the cells are quoted where needed.
pub open spec fn separated_line(
    heading: Seq<char>,
    cells: Seq<Seq<char>>,
    sep: Seq<char>,
    quoted: bool,
) -> Seq<char> {
    (if quoted {
        csv_cell(heading)
    } else {
        heading
    }) + cells_behind(cells, sep, quoted, cells.len()) + "\n"@
}

/// The lines of the first `n` fields as separated values.
pub open spec fn separated_lines(fields: Seq<CompareField>, sep: Seq<char>, quoted: bool, n: nat) -> Seq<
    char,
>
    decreases n,
{
    if n == 0 {
        Seq::empty()
    } else {
        separated_lines(fields, sep, quoted, (n - 1) as nat) + separated_line(
            fields[n - 1].name@,
            views(fields[n - 1].values@),
            sep,
            quoted,
        )
    }
}

/// Appends [`separated_line`].
fn push_separated_line(out: &mut String, heading: &str, cells: &Vec<String>, sep: &str, quoted: bool)
    ensures
        final(out)@ == old(out)@ + separated_line(heading@, views(cells@), sep@, quoted),
{
    let mut line = String::new();
    if quoted {
        push_csv_cell(&mut line, heading);
    } else {
        line.append(heading);
    }
    let ghost head = line@;
    let mut i: usize = 0;
    while i < cells.len()
        invariant
            i <= cells.len(),
            line@ == head + cells_behind(views(cells@), sep@, quoted, i as nat),
        decreases cells.len() - i,
    {
        line.append(sep);
        if quoted {
            push_csv_cell(&mut line, cells[i].as_str());
        } else {
            line.append(cells[i].as_str());
        }
        i += 1;
    }
    line.append("\n");
    out.append(line.as_str());
}

/// A comparison as separated values: a line of the model names under the
/// heading `Field`, then a line per field.
pub open spec fn separated_text(result: CompareResult, sep: Seq<char>, quoted: bool) -> Seq<char> {
    separated_line("Field"@, views(result.models@), sep, quoted) + separated_lines(
        result.fields@,
        sep,
        quoted,
        result.fields@.len(),
    )
}

/// Writes [`separated_text`].
fn write_separated(result: &CompareResult, sep: &str, quoted: bool) -> (out: String)
    ensures
        out@ == separated_text(*result, sep@, quoted),
{
    let mut out = String::new();
    push_separated_line(&mut out, "Field", &result.models, sep, quoted);
    let ghost head = out@;
    let mut f: usize = 0;
    while f < result.fields.len()
        invariant
            f <= result.fields.len(),
            out@ == head + separated_lines(result.fields@, sep@, quoted, f as nat),
        decreases result.fields.len() - f,
    {
        let field = &result.fields[f];
        push_separated_line(&mut out, field.name.as_str(), &field.values, sep, quoted);
        f += 1;
    }
    out
}

/// The width of the heading column over the first `n` fields: the byte length
/// of the longest field name, or 15 without any field.
pub open spec fn heading_width(fields: Seq<CompareField>, n: nat) -> nat
    decreases n,
{
    if n == 0 {
        15
    } else if n == 1 {
        byte_len(fields[0].name@)
    } else {
        let before = heading_width(fields, (n - 1) as nat);
        if byte_len(fields[n - 1].name@) > before {
            byte_len(fields[n - 1].name@)
        } else {
            before
        }
    }
}

/// The byte length of what field `field` shows for model `i`, or 0 where it
/// shows nothing for it.
pub open spec fn shown_len(field: CompareField, i: int) -> nat {
    if 0 <= i < field.values@.len() {
        byte_len(field.values@[i]@)
    } else {
        0
    }
}

/// The width of the column of model `i` over the first `n` fields: the byte
/// length of the longest of its name and what is shown for it.
pub open spec fn model_width(result: CompareResult, i: int, n: nat) -> nat
    decreases n,
{
    if n == 0 {
        byte_len(result.models@[i]@)
    } else {
        let before = model_width(result, i, (n - 1) as nat);
        if shown_len(result.fields@[n - 1], i) > before {
            shown_len(result.fields@[n - 1], i)
        } else {
            before
        }
    }
}

/// The widths of the columns of all models.
pub open spec fn model_widths(result: CompareResult) -> Seq<nat> {
    Seq::new(result.models@.len(), |i: int| model_width(result, i, result.fields@.len()))
}

/// The first `n` cells of a line of the table, each padded to the width of its column.
pub open spec fn padded_cells(cells: Seq<Seq<char>>, widths: Seq<nat>, n: nat) -> Seq<char>
    decreases n,
{
    if n == 0 {
        Seq::empty()
    } else {
        padded_cells(cells, widths, (n - 1) as nat) + " "@ + padded(
            cells[n - 1],
            width_at(widths, n - 1),
        ) + " |"@
    }
}

/// A line of the table: the heading and the cells, each padded to its column.
pub open spec fn table_line(
    heading: Seq<char>,
    cells: Seq<Seq<char>>,
    first: nat,
    widths: Seq<nat>,
) -> Seq<char> {
    "| "@ + padded(heading, first) + " |"@ + padded_cells(cells, widths, cells.len()) + "\n"@
}

/// The rule under the headings, up to the column of model `n - 1`.
pub open spec fn rule_upto(widths: Seq<nat>, n: nat) -> Seq<char>
    decreases n,
{
    if n == 0 {
        Seq::empty()
    } else {
        rule_upto(widths, (n - 1) as nat) + repeated('-', widths[n - 1] + 2) + "|"@
    }
}

/// The lines of the first `n` fields of the table.
pub open spec fn table_lines(fields: Seq<CompareField>, first: nat, widths: Seq<nat>, n: nat) -> Seq<
    char,
>
    decreases n,
{
    if n == 0 {
        Seq::empty()
    } else {
        table_lines(fields, first, widths, (n - 1) as nat) + table_line(
            fields[n - 1].name@,
            views(fields[n - 1].values@),
            first,
            widths,
        )
    }
}

/// A comparison as a table: headings, a rule, a line per field, and a note on
/// the asterisk.
pub open spec fn table_text(result: CompareResult) -> Seq<char> {
    let first = heading_width(result.fields@, result.fields@.len());
    let widths = model_widths(result);
    table_line("Field"@, views(result.models@), first, widths) + "|"@ + repeated('-', first + 2)
        + "|"@ + rule_upto(widths, widths.len()) + "\n"@ + table_lines(
        result.fields@,
        first,
        widths,
        result.fields@.len(),
    ) + "\n* = best in category\n"@
}

/// Computes [`heading_width`] over all fields.
fn measure_heading(fields: &Vec<CompareField>) -> (w: usize)
    ensures
        w == heading_width(fields@, fields@.len()),
{
    if fields.len() == 0 {
        return 15;
    }
    let mut w: usize = fields[0].name.as_str().as_bytes().len();
    let mut j: usize = 1;
    while j < fields.len()
        invariant
            1 <= j <= fields.len(),
            w == heading_width(fields@, j as nat),
        decreases fields.len() - j,
    {
        let len = fields[j].name.as_str().as_bytes().len();
        if len > w {
            w = len;
        }
        j += 1;
    }
    w
}

/// Computes [`model_widths`].
fn measure_models(result: &CompareResult) -> (widths: Vec<usize>)
    ensures
        as_nats(widths@) == model_widths(*result),
{
    let mut widths: Vec<usize> = Vec::new();
    let mut i: usize = 0;
    while i < result.models.len()
        invariant
            i <= result.models.len(),
            widths@.len() == i,
            forall|k: int|
                0 <= k < i ==> widths@[k] == model_width(*result, k, result.fields@.len()),
        decreases result.models.len() - i,
    {
        let mut w: usize = result.models[i].as_str().as_bytes().len();
        let mut j: usize = 0;
        while j < result.fields.len()
            invariant
                j <= result.fields.len(),
                i < result.models.len(),
                w == model_width(*result, i as int, j as nat),
            decreases result.fields.len() - j,
        {
            let field = &result.fields[j];
            let len: usize = if i < field.values.len() {
                field.values[i].as_str().as_bytes().len()
            } else {
                0
            };
            if len > w {
                w = len;
            }
            j += 1;
        }
        widths.push(w);
        i += 1;
    }
    assert(as_nats(widths@) =~= model_widths(*result));
    widths
}

/// Appends `text`, filled up with blanks to `width` characters.
fn push_padded(out: &mut String, text: &str, width: usize)
    ensures
        final(out)@ == old(out)@ + padded(text@, width as nat),
{
    let len = text.unicode_len();
    out.append(text);
    if len < width {
        push_repeated(out, ' ', width - len);
    }
}

/// Appends [`table_line`].
fn push_table_line(out: &mut String, heading: &str, cells: &Vec<String>, first: usize, widths: &Vec<usize>)
    ensures
        final(out)@ == old(out)@ + table_line(
            heading@,
            views(cells@),
            first as nat,
            as_nats(widths@),
        ),
{
    let mut line = String::new();
    line.append("| ");
    push_padded(&mut line, heading, first);
    line.append(" |");
    let ghost head = line@;
    let mut i: usize = 0;
    while i < cells.len()
        invariant
            i <= cells.len(),
            line@ == head + padded_cells(views(cells@), as_nats(widths@), i as nat),
        decreases cells.len() - i,
    {
        let w: usize = if i < widths.len() {
            widths[i]
        } else {
            0
        };
        line.append(" ");
        push_padded(&mut line, cells[i].as_str(), w);
        line.append(" |");
        i += 1;
    }
    line.append("\n");
    out.append(line.as_str());
}

/// Appends `n + 2` hyphens.
fn push_rule_part(out: &mut String, n: usize)
    ensures
        final(out)@ == old(out)@ + repeated('-', (n + 2) as nat),
{
    let ghost before = out@;
    push_repeated(out, '-', n);
    out.push('-');
    out.push('-');
    assert(out@ =~= before + repeated('-', (n + 2) as nat));
}

/// Appends the rule under the headings.
fn push_rule(out: &mut String, first: usize, widths: &Vec<usize>)
    ensures
        final(out)@ == old(out)@ + "|"@ + repeated('-', (first + 2) as nat) + "|"@ + rule_upto(
            as_nats(widths@),
            widths@.len(),
        ) + "\n"@,
{
    let mut line = String::new();
    line.append("|");
    push_rule_part(&mut line, first);
    line.append("|");
    let ghost head = line@;
    let mut i: usize = 0;
    while i < widths.len()
        invariant
            i <= widths.len(),
            line@ == head + rule_upto(as_nats(widths@), i as nat),
        decreases widths.len() - i,
    {
        push_rule_part(&mut line, widths[i]);
        line.append("|");
        i += 1;
    }
    line.append("\n");
    out.append(line.as_str());
}

/// Writes [`table_text`].
fn write_table(result: &CompareResult) -> (out: String)
    ensures
        out@ == table_text(*result),
{
    let first = measure_heading(&result.fields);
    let widths = measure_models(result);
    let mut out = String::new();
    push_table_line(&mut out, "Field", &result.models, first, &widths);
    push_rule(&mut out, first, &widths);
    let ghost head = out@;
    let mut f: usize = 0;
    while f < result.fields.len()
        invariant
            f <= result.fields.len(),
            out@ == head + table_lines(
                result.fields@,
                first as nat,
                as_nats(widths@),
                f as nat,
            ),
        decreases result.fields.len() - f,
    {
        let field = &result.fields[f];
        push_table_line(&mut out, field.name.as_str(), &field.values, first, &widths);
        f += 1;
    }
    out.append("\n* = best in category\n");
    out
}

/// What the compare command hands back: the comparison itself where JSON was
/// asked for, else the text to show.
pub enum CompareOutput {
    Json(CompareResult),
    Text(String),
}

/// The text of a comparison in a rendering other than JSON: comma-separated
/// values, tab-separated values with a note on the asterisk, or a table.
pub open spec fn comparison_text(result: CompareResult, format: OutputFormat) -> Seq<char> {
    match format {
        OutputFormat::Csv => separated_text(result, ","@, true),
        OutputFormat::Plain => separated_text(result, "\t"@, false) + "\n* = best in category\n"@,
        _ => table_text(result),
    }
}

/// What is reported when no model is found.
pub open spec fn none_found_text(searches: Seq<String>) -> Seq<char> {
    "No models found matching: "@ + join(views(searches), ", "@)
}

/// Runs the compare command: finds the models and compares them field by field.
///
/// Fails where no model is found, and where only one is.
pub fn run(models: &[LlmModel], model_searches: &[String], verbose: bool, format: OutputFormat) -> (r:
    Result<CompareOutput, AppError>)
    ensures
        match r {
            Err(e) => {
                let found = gathered(models@, model_searches@, model_searches@.len(), 0);
                if found.len() == 0 {
                    e matches AppError::NotFound(text) && text@ == none_found_text(model_searches@)
                } else {
                    &&& found.len() == 1
                    &&& e matches AppError::Config(text)
                    &&& text@ == "Need at least 2 models to compare. Try broader search terms."@
                }
            },
            Ok(output) => {
                let found = gathered(models@, model_searches@, model_searches@.len(), 0);
                &&& found.len() >= 2
                &&& match output {
                    CompareOutput::Json(result) => format == OutputFormat::Json
                        && is_comparison_of(result, found, verbose),
                    CompareOutput::Text(text) => format != OutputFormat::Json && exists|
                        result: CompareResult,
                    |
                        is_comparison_of(result, found, verbose) && text@ == comparison_text(
                            result,
                            format,
                        ),
                }
            },
        },
{
    let matched = find_models_by_names(models, model_searches);
    assert(pointed(matched@).len() == matched@.len());
    if matched.len() == 0 {
        let mut text = String::new();
        text.append("No models found matching: ");
        let mut list: Vec<String> = Vec::new();
        let mut i: usize = 0;
        while i < model_searches.len()
            invariant
                i <= model_searches.len(),
                list@ == model_searches@.take(i as int),
            decreases model_searches.len() - i,
        {
            list.push(model_searches[i].clone());
            i += 1;
            assert(model_searches@.take(i as int) == model_searches@.take(i - 1).push(
                model_searches@[i - 1],
            ));
        }
        assert(model_searches@.take(model_searches@.len() as int) == model_searches@);
        text.append(join_strings(&list, ", ").as_str());
        return Err(AppError::NotFound(text));
    }
    if matched.len() < 2 {
        return Err(
            AppError::Config(
                "Need at least 2 models to compare. Try broader search terms.".to_owned(),
            ),
        );
    }
    let result = compare_models(&matched, verbose);
    let text = match format {
        OutputFormat::Json => {
            return Ok(CompareOutput::Json(result));
        },
        OutputFormat::Csv => write_separated(&result, ",", true),
        OutputFormat::Plain => {
            let mut text = write_separated(&result, "\t", false);
            text.append("\n* = best in category\n");
            text
        },
        OutputFormat::Markdown => write_table(&result),
        OutputFormat::Table => write_table(&result),
    };
    proof {
        reveal_strlit(",");
        reveal_strlit("\t");
        assert(text@ == comparison_text(result, format));
    }
    Ok(CompareOutput::Text(text))
}

} // verus!
