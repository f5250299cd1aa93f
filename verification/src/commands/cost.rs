//! The cost calculator: what a number of tokens costs with one or more models.
//!
//! Prices are per million tokens, so a number of tokens times a price is an
//! amount in millionths of a dollar. Amounts are whole numbers of millionths;
//! the cost of tokens is rounded half to even on its exact value, and costs,
//! sums and products stop at the largest amount that can be held. Wherever
//! there is a price there is a cost.

use vstd::prelude::*;
use crate::bindings::{lowercase, unicode_lower};
use crate::error::AppError;
use crate::models::llm::LlmModel;
use crate::number::{
    divide_half_even, fixed_digits, is_finite, is_nan, power_of_ten, rounded_half_even,
    scaled_magnitude, sign_bit, ten_to, Double,
};
use crate::output::OutputFormat;
use crate::query::{
    csv_lines, format_ascii_table, format_csv, format_markdown, format_plain, markdown_text,
    plain_lines, row_views, table_text, QueryResult,
};
use crate::bindings::csv_record_text;
use crate::text::{decimal, join, join_strings, push_decimal, str_equal, views};
use crate::utils::matching::{find_models_by_names, gathered, pointed};
use crate::utils::tokens::{capped, fault_text, parse_tokens, token_count};

verus! {

/// For which span of time costs are projected.
#[derive(Debug, Clone, Copy, PartialEq, Eq, Structural)]
pub enum Period {
    Once,
    Daily,
    Monthly,
}

/// The period that a lower-case word names.
pub open spec fn period_named(word: Seq<char>) -> Option<Period> {
    if word == "once"@ {
        Some(Period::Once)
    } else if word == "daily"@ || word == "day"@ {
        Some(Period::Daily)
    } else if word == "monthly"@ || word == "month"@ {
        Some(Period::Monthly)
    } else {
        None
    }
}

/// What is reported for a word that names no period.
pub open spec fn bad_period_text(s: Seq<char>) -> Seq<char> {
    "Invalid period '"@ + s + "'. Use 'once', 'daily', or 'monthly'."@
}

impl Period {
    /// The period that the lower-case word `word` names, if it names one.
    pub fn named(word: &str) -> (r: Option<Self>)
        ensures
            r == period_named(word@),
    {
        if str_equal(word, "once") {
            Some(Period::Once)
        } else if str_equal(word, "daily") || str_equal(word, "day") {
            Some(Period::Daily)
        } else if str_equal(word, "monthly") || str_equal(word, "month") {
            Some(Period::Monthly)
        } else {
            None
        }
    }

    /// Reads a period from its name, in any letter case.
    pub fn from_str(s: &str) -> (r: Result<Self, AppError>)
        ensures
            match r {
                Ok(p) => period_named(unicode_lower(s@)) == Some(p),
                Err(e) => {
                    &&& period_named(unicode_lower(s@)) is None
                    &&& e matches AppError::Config(text)
                    &&& text@ == bad_period_text(s@)
                },
            },
    {
        match Period::named(lowercase(s).as_str()) {
            Some(p) => Ok(p),
            None => {
                let mut text = String::new();
                text.append("Invalid period '");
                text.append(s);
                text.append("'. Use 'once', 'daily', or 'monthly'.");
                Err(AppError::Config(text))
            },
        }
    }

    /// The name of the period.
    pub open spec fn name(self) -> Seq<char> {
        match self {
            Period::Once => "once"@,
            Period::Daily => "daily"@,
            Period::Monthly => "monthly"@,
        }
    }
}

/// An amount of money in millionths of a dollar.
#[derive(Debug, Clone, Copy, PartialEq, Eq, Structural)]
pub struct Amount {
    pub micros: i128,
}

/// `x`, or the nearest amount that can be held.
pub open spec fn clamped(x: int) -> Amount {
    if x > i128::MAX {
        Amount { micros: i128::MAX }
    } else if x < i128::MIN {
        Amount { micros: i128::MIN }
    } else {
        Amount { micros: x as i128 }
    }
}

/// What `tokens` tokens cost at the price with the bit pattern `bits` per
/// million: the exact product rounded half to even, or the nearest amount that
/// can be held where the product is beyond it; an infinite price costs the
/// largest amount of its sign, and a price that is no number costs nothing.
pub open spec fn price_times(bits: u64, tokens: u64) -> Amount {
    if is_nan(bits) {
        Amount { micros: 0 }
    } else if !is_finite(bits) {
        if sign_bit(bits) {
            Amount { micros: i128::MIN }
        } else {
            Amount { micros: i128::MAX }
        }
    } else {
        let m = scaled_magnitude(bits, tokens as nat) as int;
        clamped(
            if sign_bit(bits) {
                -m
            } else {
                m
            },
        )
    }
}

/// What `tokens` tokens cost at `price` per million: an amount whenever there
/// is a price, nothing where there is none.
pub open spec fn priced(price: Option<Double>, tokens: u64) -> Option<Amount> {
    match price {
        Some(p) => Some(price_times(p.bits, tokens)),
        None => None,
    }
}

/// The sum of two costs; a missing one counts as nothing, two missing ones are missing.
pub open spec fn total_of(input: Option<Amount>, output: Option<Amount>) -> Option<Amount> {
    match (input, output) {
        (Some(i), Some(o)) => Some(clamped(i.micros + o.micros)),
        (Some(i), None) => Some(i),
        (None, Some(o)) => Some(o),
        (None, None) => None,
    }
}

/// `n` times a cost.
pub open spec fn times(cost: Option<Amount>, n: nat) -> Option<Amount> {
    match cost {
        Some(c) => Some(clamped(c.micros * n)),
        None => None,
    }
}

/// Computes [`priced`].
pub fn token_cost(price: Option<Double>, tokens: u64) -> (r: Option<Amount>)
    ensures
        r == priced(price, tokens),
{
    match price {
        Some(p) => {
            let micros: i128 = if p.is_nan() {
                0
            } else {
                match p.scaled(tokens) {
                    Some(m) => if p.is_negative() {
                        -(m as i128)
                    } else {
                        m as i128
                    },
                    None => if p.is_negative() {
                        i128::MIN
                    } else {
                        i128::MAX
                    },
                }
            };
            Some(Amount { micros })
        },
        None => None,
    }
}

/// Computes the sum of two amounts, stopping at the largest or smallest amount.
pub fn add_amounts(a: Amount, b: Amount) -> (r: Amount)
    ensures
        r == clamped(a.micros + b.micros),
{
    match a.micros.checked_add(b.micros) {
        Some(x) => Amount { micros: x },
        None => if a.micros > 0 {
            Amount { micros: i128::MAX }
        } else {
            Amount { micros: i128::MIN }
        },
    }
}

/// Computes `n` times an amount, stopping at the largest or smallest amount.
pub fn multiply_amount(a: Amount, n: u64) -> (r: Amount)
    ensures
        r == clamped(a.micros * n),
{
    match a.micros.checked_mul(n as i128) {
        Some(x) => Amount { micros: x },
        None => {
            proof {
                if a.micros > 0 {
                    assert(a.micros * n >= 0) by (nonlinear_arith)
                        requires
                            a.micros > 0,
                            n >= 0,
                    ;
                } else {
                    assert(a.micros * n <= 0) by (nonlinear_arith)
                        requires
                            a.micros <= 0,
                            n >= 0,
                    ;
                }
            }
            if a.micros > 0 {
                Amount { micros: i128::MAX }
            } else {
                Amount { micros: i128::MIN }
            }
        },
    }
}

/// Computes [`times`].
fn scale_cost(cost: Option<Amount>, n: u64) -> (r: Option<Amount>)
    ensures
        r == times(cost, n as nat),
{
    match cost {
        Some(c) => Some(multiply_amount(c, n)),
        None => None,
    }
}

/// What a request costs with one model, and what that comes to over a period.
#[derive(Debug, Clone)]
pub struct CostResult {
    pub name: String,
    pub input_tokens: u64,
    pub output_tokens: u64,
    pub input_cost: Option<Amount>,
    pub output_cost: Option<Amount>,
    pub total_cost: Option<Amount>,
    pub requests: u64,
    pub period: String,
    pub period_cost: Option<Amount>,
    pub monthly_cost: Option<Amount>,
}

/// Whether `result` is the cost of `requests` requests of `input_tokens` and
/// `output_tokens` tokens with `model`, projected over `period`: a month has
/// thirty days.
pub open spec fn is_cost_of(
    result: CostResult,
    model: LlmModel,
    input_tokens: u64,
    output_tokens: u64,
    requests: u64,
    period: Period,
) -> bool {
    let input = priced(model.input_price, input_tokens);
    let output = priced(model.output_price, output_tokens);
    let total = total_of(input, output);
    let all = times(total, requests as nat);
    &&& result.name == model.name
    &&& result.input_tokens == input_tokens
    &&& result.output_tokens == output_tokens
    &&& result.input_cost == input
    &&& result.output_cost == output
    &&& result.total_cost == total
    &&& result.requests == requests
    &&& result.period@ == period.name()
    &&& result.period_cost == (match period {
        Period::Once => all,
        Period::Daily => all,
        Period::Monthly => times(all, 30),
    })
    &&& result.monthly_cost == (match period {
        Period::Once => None,
        Period::Daily => times(all, 30),
        Period::Monthly => times(all, 30),
    })
}

/// Calculates the cost for a model.
pub fn calculate_cost(
    model: &LlmModel,
    input_tokens: u64,
    output_tokens: u64,
    requests: u64,
    period: Period,
) -> (result: CostResult)
    ensures
        is_cost_of(result, *model, input_tokens, output_tokens, requests, period),
        result.total_cost is None <==> model.input_price is None && model.output_price is None,
{
    let input_cost = token_cost(model.input_price, input_tokens);
    let output_cost = token_cost(model.output_price, output_tokens);
    let total_cost = match (input_cost, output_cost) {
        (Some(i), Some(o)) => Some(add_amounts(i, o)),
        (Some(i), None) => Some(i),
        (None, Some(o)) => Some(o),
        (None, None) => None,
    };
    let request_cost = scale_cost(total_cost, requests);
    let (period_str, period_cost, monthly_cost) = match period {
        Period::Once => ("once", request_cost, None),
        Period::Daily => ("daily", request_cost, scale_cost(request_cost, 30)),
        Period::Monthly => {
            let monthly = scale_cost(request_cost, 30);
            ("monthly", monthly, monthly)
        },
    };
    CostResult {
        name: model.name.clone(),
        input_tokens,
        output_tokens,
        input_cost,
        output_cost,
        total_cost,
        requests,
        period: period_str.to_owned(),
        period_cost,
        monthly_cost,
    }
}

/// The lowest total among the first `n` results, where any of them has a total.
pub open spec fn lowest_total(results: Seq<CostResult>, n: nat) -> Option<Amount>
    decreases n,
{
    if n == 0 {
        None
    } else {
        let before = lowest_total(results, (n - 1) as nat);
        match (before, results[n - 1].total_cost) {
            (Some(b), Some(t)) => if t.micros < b.micros {
                Some(t)
            } else {
                Some(b)
            },
            (Some(b), None) => Some(b),
            (None, t) => t,
        }
    }
}

/// Finds the lowest total among the results.
pub fn find_min_cost(results: &Vec<CostResult>) -> (r: Option<Amount>)
    ensures
        r == lowest_total(results@, results@.len()),
{
    let mut lowest: Option<Amount> = None;
    let mut i: usize = 0;
    while i < results.len()
        invariant
            i <= results.len(),
            lowest == lowest_total(results@, i as nat),
        decreases results.len() - i,
    {
        lowest = match (lowest, results[i].total_cost) {
            (Some(b), Some(t)) => if t.micros < b.micros {
                Some(t)
            } else {
                Some(b)
            },
            (Some(b), None) => Some(b),
            (None, t) => t,
        };
        i += 1;
    }
    lowest
}

/// No total is below the lowest total, and the lowest total is one of the totals.
pub proof fn lemma_lowest_total(results: Seq<CostResult>, n: nat)
    requires
        n <= results.len(),
    ensures
        match lowest_total(results, n) {
            Some(low) => (exists|i: int| 0 <= i < n && results[i].total_cost == Some(low))
                && forall|i: int|
                0 <= i < n ==> (#[trigger] results[i].total_cost matches Some(t) ==> low.micros
                    <= t.micros),
            None => forall|i: int| 0 <= i < n ==> #[trigger] results[i].total_cost is None,
        },
    decreases n,
{
    if n > 0 {
        lemma_lowest_total(results, (n - 1) as nat);
        match lowest_total(results, (n - 1) as nat) {
            Some(b) => {
                let w = choose|i: int| 0 <= i < n - 1 && results[i].total_cost == Some(b);
                assert(results[w].total_cost == Some(b));
                assert(results[n - 1].total_cost == results[n - 1].total_cost);
            },
            None => {
                assert(results[n - 1].total_cost == results[n - 1].total_cost);
            },
        }
    }
}

/// The magnitude of an amount.
pub open spec fn magnitude(micros: i128) -> nat {
    if micros < 0 {
        (-micros) as nat
    } else {
        micros as nat
    }
}

/// An amount in dollars with `places` fractional digits, rounded half to even,
/// with a minus sign before a negative one.
pub open spec fn dollars(micros: i128, places: nat) -> Seq<char> {
    let units = rounded_half_even(magnitude(micros) * ten_to(places), 1_000_000);
    (if micros < 0 {
        seq!['-']
    } else {
        Seq::empty()
    }) + fixed_digits(units, places)
}

/// A cost for display: with four fractional digits below a cent, with three
/// below a dollar, else with two; `N/A` where there is none.
pub open spec fn cost_text(cost: Option<Amount>) -> Seq<char> {
    match cost {
        Some(c) => if c.micros < 10_000 {
            seq!['$'] + dollars(c.micros, 4)
        } else if c.micros < 1_000_000 {
            seq!['$'] + dollars(c.micros, 3)
        } else {
            seq!['$'] + dollars(c.micros, 2)
        },
        None => "N/A"@,
    }
}

/// Appends [`fixed_digits`].
pub fn push_fixed_digits(out: &mut String, units: u128, places: u32)
    requires
        places <= 18,
    ensures
        final(out)@ == old(out)@ + fixed_digits(units as nat, places as nat),
{
    if places == 0 {
        push_decimal(out, units);
    } else {
        let unit = power_of_ten(places) as u128;
        push_decimal(out, units / unit);
        out.push('.');
        crate::number::push_last_digits(out, units % unit, places);
    }
}

/// Rounding a scaled amount can be done on its whole dollars and on the rest
/// apart, as long as the scale is even.
pub proof fn lemma_round_in_parts(whole: nat, rest: nat, scale: nat)
    requires
        rest < 1_000_000,
        scale % 2 == 0,
    ensures
        rounded_half_even((whole * 1_000_000 + rest) * scale, 1_000_000) == whole * scale
            + rounded_half_even(rest * scale, 1_000_000),
{
    let x = (rest * scale) as int;
    let q2 = x / 1_000_000;
    let r2 = x % 1_000_000;
    let all = ((whole * 1_000_000 + rest) * scale) as int;
    assert(all == (whole * scale) * 1_000_000 + x) by (nonlinear_arith)
        requires
            all == (whole * 1_000_000 + rest) * scale,
            x == rest * scale,
    ;
    assert(all == (whole * scale + q2) * 1_000_000 + r2);
    vstd::arithmetic::div_mod::lemma_fundamental_div_mod_converse(
        all,
        1_000_000,
        whole * scale + q2,
        r2,
    );
    let half = scale / 2;
    assert(scale == 2 * half);
    assert(whole * scale == 2 * (whole * half)) by (nonlinear_arith)
        requires
            scale == 2 * half,
    ;
    assert((whole * scale + q2) % 2 == q2 % 2);
}

/// Appends [`dollars`].
fn push_dollars(out: &mut String, micros: i128, places: u32)
    requires
        1 <= places <= 4,
    ensures
        final(out)@ == old(out)@ + dollars(micros, places as nat),
{
    let size: u128 = if micros < 0 {
        (-(micros + 1)) as u128 + 1
    } else {
        micros as u128
    };
    assert(size == magnitude(micros));
    if micros < 0 {
        out.push('-');
    }
    let scale = power_of_ten(places) as u128;
    let whole: u128 = size / 1_000_000;
    let rest: u128 = size % 1_000_000;
    proof {
        assert(ten_to(4) == 10_000) by {
            reveal_with_fuel(ten_to, 5);
        }
        lemma_ten_to_rises(places as nat, 4);
        assert(scale % 2 == 0) by {
            assert(ten_to(places as nat) == 10 * ten_to((places - 1) as nat));
        }
        lemma_round_in_parts(whole as nat, rest as nat, scale as nat);
        assert(whole * scale <= whole * 10_000) by (nonlinear_arith)
            requires
                scale <= 10_000,
                whole >= 0,
        ;
        assert(rest * scale <= 1_000_000 * 10_000) by (nonlinear_arith)
            requires
                scale <= 10_000,
                0 <= rest <= 1_000_000,
        ;
        assert(rounded_half_even((rest * scale) as nat, 1_000_000) <= rest * scale + 1);
    }
    let units = whole * scale + divide_half_even(rest * scale, 1_000_000);
    push_fixed_digits(out, units, places);
}

/// A higher power of ten is a larger number.
pub proof fn lemma_ten_to_rises(a: nat, b: nat)
    requires
        a <= b,
    ensures
        ten_to(a) <= ten_to(b),
    decreases b,
{
    if a < b {
        lemma_ten_to_rises(a, (b - 1) as nat);
    }
}

/// Formats a cost for display.
pub fn format_cost(cost: Option<Amount>) -> (text: String)
    ensures
        text@ == cost_text(cost),
{
    match cost {
        Some(c) => {
            let mut text = String::new();
            text.push('$');
            if c.micros < 10_000 {
                push_dollars(&mut text, c.micros, 4);
            } else if c.micros < 1_000_000 {
                push_dollars(&mut text, c.micros, 3);
            } else {
                push_dollars(&mut text, c.micros, 2);
            }
            text
        },
        None => "N/A".to_owned(),
    }
}

/// Formats a cost, with an asterisk behind the cost of the winner.
pub fn format_cost_with_winner(cost: Option<Amount>, is_winner: bool) -> (text: String)
    ensures
        text@ == if is_winner && cost is Some {
            cost_text(cost) + " *"@
        } else {
            cost_text(cost)
        },
{
    let mut text = format_cost(cost);
    if is_winner && cost.is_some() {
        text.append(" *");
    }
    text
}

/// A number of tokens for display: in millions with one fractional digit from
/// a million on, in thousands from a thousand on, whole where it is a whole
/// number of thousands and with one fractional digit otherwise, else as it is.
pub open spec fn token_count_text(tokens: u64) -> Seq<char> {
    if tokens >= 1_000_000 {
        fixed_digits(rounded_half_even(tokens as nat * 10, 1_000_000), 1) + "M"@
    } else if tokens >= 1_000 {
        if tokens % 1_000 == 0 {
            decimal((tokens / 1_000) as nat) + "K"@
        } else {
            fixed_digits(rounded_half_even(tokens as nat * 10, 1_000), 1) + "K"@
        }
    } else {
        decimal(tokens as nat)
    }
}

/// Formats a number of tokens for display.
pub fn format_token_count(tokens: u64) -> (text: String)
    ensures
        text@ == token_count_text(tokens),
{
    let mut text = String::new();
    if tokens >= 1_000_000 {
        push_fixed_digits(&mut text, divide_half_even(tokens as u128 * 10, 1_000_000), 1);
        text.append("M");
    } else if tokens >= 1_000 {
        if tokens % 1_000 == 0 {
            push_decimal(&mut text, (tokens / 1_000) as u128);
        } else {
            push_fixed_digits(&mut text, divide_half_even(tokens as u128 * 10, 1_000), 1);
        }
        text.append("K");
    } else {
        push_decimal(&mut text, tokens as u128);
    }
    text
}

/// One line of the cost table.
#[derive(Debug, Clone)]
pub struct CostRow {
    pub name: String,
    pub input_cost: String,
    pub output_cost: String,
    pub total_cost: String,
}

impl CostRow {
    /// The headings of the cost table.
    pub fn headers() -> (h: Vec<String>)
        ensures
            h@.len() == 4,
            h@[0]@ == "Model"@,
            h@[1]@ == "Input Cost"@,
            h@[2]@ == "Output Cost"@,
            h@[3]@ == "Total"@,
    {
        let mut h: Vec<String> = Vec::new();
        h.push("Model".to_owned());
        h.push("Input Cost".to_owned());
        h.push("Output Cost".to_owned());
        h.push("Total".to_owned());
        h
    }

    /// The cells of this line, in the order of the headings.
    pub fn to_row(&self) -> (row: Vec<String>)
        ensures
            row@.len() == 4,
            row@[0] == self.name,
            row@[1] == self.input_cost,
            row@[2] == self.output_cost,
            row@[3] == self.total_cost,
    {
        let mut row: Vec<String> = Vec::new();
        row.push(self.name.clone());
        row.push(self.input_cost.clone());
        row.push(self.output_cost.clone());
        row.push(self.total_cost.clone());
        row
    }
}

/// Whether the `i`-th result is marked as the winner: it has the lowest total,
/// and there is more than one result.
pub open spec fn is_winner(results: Seq<CostResult>, i: int) -> bool {
    results.len() > 1 && lowest_total(results, results.len()) is Some && results[i].total_cost
        == lowest_total(results, results.len())
}

/// The cells of the line of the cost table for one result.
pub open spec fn cost_cells(result: CostResult, winner: bool) -> Seq<Seq<char>> {
    seq![
        result.name@,
        cost_text(result.input_cost),
        cost_text(result.output_cost),
        if winner && result.total_cost is Some {
            cost_text(result.total_cost) + " *"@
        } else {
            cost_text(result.total_cost)
        },
    ]
}

/// The lines of the cost table, one per result.
pub open spec fn cost_table(results: Seq<CostResult>) -> Seq<Seq<Seq<char>>> {
    Seq::new(results.len(), |i: int| cost_cells(results[i], is_winner(results, i)))
}

/// The headings of the cost table.
pub open spec fn cost_headings() -> Seq<Seq<char>> {
    seq!["Model"@, "Input Cost"@, "Output Cost"@, "Total"@]
}

/// Whether `results` holds the costs of `matched`, model after model.
pub open spec fn are_costs_of(
    results: Seq<CostResult>,
    matched: Seq<LlmModel>,
    input_tokens: u64,
    output_tokens: u64,
    requests: u64,
    period: Period,
) -> bool {
    &&& results.len() == matched.len()
    &&& forall|i: int|
        0 <= i < matched.len() ==> is_cost_of(
            #[trigger] results[i],
            matched[i],
            input_tokens,
            output_tokens,
            requests,
            period,
        )
}

/// Computes the costs of all of `matched`.
fn cost_results(
    matched: &Vec<&LlmModel>,
    input_tokens: u64,
    output_tokens: u64,
    requests: u64,
    period: Period,
) -> (results: Vec<CostResult>)
    ensures
        are_costs_of(results@, pointed(matched@), input_tokens, output_tokens, requests, period),
{
    let mut results: Vec<CostResult> = Vec::new();
    let mut i: usize = 0;
    while i < matched.len()
        invariant
            i <= matched.len(),
            results@.len() == i,
            forall|j: int|
                0 <= j < i ==> is_cost_of(
                    #[trigger] results@[j],
                    pointed(matched@)[j],
                    input_tokens,
                    output_tokens,
                    requests,
                    period,
                ),
        decreases matched.len() - i,
    {
        assert(pointed(matched@)[i as int] == *matched@[i as int]);
        results.push(calculate_cost(matched[i], input_tokens, output_tokens, requests, period));
        i += 1;
    }
    results
}

/// Builds the cost table of `results`, headings included.
fn cost_table_of(results: &Vec<CostResult>) -> (table: QueryResult)
    ensures
        views(table.columns@) == cost_headings(),
        row_views(table.rows@) == cost_table(results@),
        table.rows@.len() == results@.len(),
{
    let lowest = find_min_cost(results);
    let mut rows: Vec<Vec<String>> = Vec::new();
    let mut i: usize = 0;
    while i < results.len()
        invariant
            i <= results.len(),
            lowest == lowest_total(results@, results@.len()),
            rows@.len() == i,
            forall|j: int|
                0 <= j < i ==> views((#[trigger] rows@[j])@) == cost_cells(
                    results@[j],
                    is_winner(results@, j),
                ),
        decreases results.len() - i,
    {
        let r = &results[i];
        let winner = results.len() > 1 && lowest.is_some() && r.total_cost == lowest;
        let row = CostRow {
            name: r.name.clone(),
            input_cost: format_cost(r.input_cost),
            output_cost: format_cost(r.output_cost),
            total_cost: format_cost_with_winner(r.total_cost, winner),
        };
        let cells = row.to_row();
        assert(views(cells@) =~= cost_cells(*r, is_winner(results@, i as int)));
        rows.push(cells);
        i += 1;
    }
    let columns = CostRow::headers();
    assert(views(columns@) =~= cost_headings());
    assert(row_views(rows@) =~= cost_table(results@));
    QueryResult { columns, rows }
}

/// The part of the full text on one model that gives the cost of a request.
pub open spec fn request_part(result: CostResult) -> Seq<char> {
    "Model: "@ + result.name@ + "\n\nCost per request:\n  Input ("@ + token_count_text(
        result.input_tokens,
    ) + " tokens):    "@ + cost_text(result.input_cost) + "\n  Output ("@ + token_count_text(
        result.output_tokens,
    ) + " tokens):   "@ + cost_text(result.output_cost) + "\n  Total:                  "@
        + cost_text(result.total_cost) + "\n"@
}

/// The part of the full text on one model that gives the cost of all requests,
/// where more than one was asked for.
pub open spec fn volume_part(result: CostResult, requests: u64) -> Seq<char> {
    if requests > 1 {
        "Cost for "@ + decimal(requests as nat) + " requests:    "@ + cost_text(
            result.period_cost,
        ) + "\n"@
    } else {
        Seq::empty()
    }
}

/// The part of the full text on one model that gives the cost over the period.
pub open spec fn period_part(result: CostResult, requests: u64, period: Period) -> Seq<char> {
    match period {
        Period::Once => Seq::empty(),
        Period::Daily => "Daily ("@ + decimal(requests as nat) + " requests):     "@ + cost_text(
            result.period_cost,
        ) + "\nMonthly (30 days):       "@ + cost_text(result.monthly_cost) + "\n"@,
        Period::Monthly => "Monthly:                 "@ + cost_text(result.monthly_cost) + "\n"@,
    }
}

/// What is said of one model in full: the cost of a request, and, where more
/// than one request or a period was asked for, what that comes to.
pub open spec fn detail_text(result: CostResult, requests: u64, period: Period) -> Seq<char> {
    request_part(result) + (if requests > 1 || period != Period::Once {
        "\n"@ + volume_part(result, requests) + period_part(result, requests, period)
    } else {
        Seq::empty()
    })
}

/// Writes [`request_part`].
fn write_request_part(result: &CostResult) -> (out: String)
    ensures
        out@ == request_part(*result),
{
    let mut out = String::new();
    out.append("Model: ");
    out.append(result.name.as_str());
    out.append("\n\nCost per request:\n  Input (");
    out.append(format_token_count(result.input_tokens).as_str());
    out.append(" tokens):    ");
    out.append(format_cost(result.input_cost).as_str());
    out.append("\n  Output (");
    out.append(format_token_count(result.output_tokens).as_str());
    out.append(" tokens):   ");
    out.append(format_cost(result.output_cost).as_str());
    out.append("\n  Total:                  ");
    out.append(format_cost(result.total_cost).as_str());
    out.append("\n");
    out
}

/// Writes [`volume_part`].
fn write_volume_part(result: &CostResult, requests: u64) -> (out: String)
    ensures
        out@ == volume_part(*result, requests),
{
    let mut out = String::new();
    if requests > 1 {
        out.append("Cost for ");
        push_decimal(&mut out, requests as u128);
        out.append(" requests:    ");
        out.append(format_cost(result.period_cost).as_str());
        out.append("\n");
    }
    out
}

/// Writes [`period_part`].
fn write_period_part(result: &CostResult, requests: u64, period: Period) -> (out: String)
    ensures
        out@ == period_part(*result, requests, period),
{
    let mut out = String::new();
    match period {
        Period::Once => {},
        Period::Daily => {
            out.append("Daily (");
            push_decimal(&mut out, requests as u128);
            out.append(" requests):     ");
            out.append(format_cost(result.period_cost).as_str());
            out.append("\nMonthly (30 days):       ");
            out.append(format_cost(result.monthly_cost).as_str());
            out.append("\n");
        },
        Period::Monthly => {
            out.append("Monthly:                 ");
            out.append(format_cost(result.monthly_cost).as_str());
            out.append("\n");
        },
    }
    out
}

/// Writes [`detail_text`].
fn write_detail(result: &CostResult, requests: u64, period: Period) -> (out: String)
    ensures
        out@ == detail_text(*result, requests, period),
{
    let mut out = write_request_part(result);
    let once = match period {
        Period::Once => true,
        _ => false,
    };
    if requests > 1 || !once {
        out.append("\n");
        out.append(write_volume_part(result, requests).as_str());
        out.append(write_period_part(result, requests, period).as_str());
    }
    out
}

/// The lines that name each of the first `n` models with its cost over the
/// period, or, when `monthly`, over a month.
pub open spec fn projection_lines(results: Seq<CostResult>, monthly: bool, n: nat) -> Seq<char>
    decreases n,
{
    if n == 0 {
        Seq::empty()
    } else {
        projection_lines(results, monthly, (n - 1) as nat) + "  "@ + results[n - 1].name@ + ": "@
            + cost_text(
            if monthly {
                results[n - 1].monthly_cost
            } else {
                results[n - 1].period_cost
            },
        ) + "\n"@
    }
}

/// Appends [`projection_lines`] for all results.
fn push_projection(out: &mut String, results: &Vec<CostResult>, monthly: bool)
    ensures
        final(out)@ == old(out)@ + projection_lines(results@, monthly, results@.len()),
{
    let mut i: usize = 0;
    while i < results.len()
        invariant
            i <= results.len(),
            out@ == old(out)@ + projection_lines(results@, monthly, i as nat),
        decreases results.len() - i,
    {
        let r = &results[i];
        out.append("  ");
        out.append(r.name.as_str());
        out.append(": ");
        out.append(
            format_cost(
                if monthly {
                    r.monthly_cost
                } else {
                    r.period_cost
                },
            ).as_str(),
        );
        out.append("\n");
        i += 1;
    }
}

/// The heading of the comparison of several models.
pub open spec fn comparison_heading(input_tokens: u64, output_tokens: u64, requests: u64) -> Seq<
    char,
> {
    "Cost Comparison ("@ + token_count_text(input_tokens) + " input / "@ + token_count_text(
        output_tokens,
    ) + " output tokens per request)\n"@ + (if requests > 1 {
        "Requests: "@ + decimal(requests as nat) + "\n"@
    } else {
        Seq::empty()
    }) + "\n"@
}

/// What the costs of several models come to over the period.
pub open spec fn comparison_projection(results: Seq<CostResult>, requests: u64, period: Period) -> Seq<
    char,
> {
    match period {
        Period::Once => Seq::empty(),
        Period::Daily => "\nDaily costs ("@ + decimal(requests as nat) + " requests):\n"@
            + projection_lines(results, false, results.len())
            + "\nMonthly estimates (30 days):\n"@ + projection_lines(
            results,
            true,
            results.len(),
        ),
        Period::Monthly => "\nMonthly costs ("@ + decimal(requests as nat) + " requests/day):\n"@
            + projection_lines(results, true, results.len()),
    }
}

/// What is said of several models: a heading, the cost table `table`, a note on
/// the asterisk where a winner can be marked, and, where a period was asked
/// for, what the costs come to.
pub open spec fn comparison_text(
    results: Seq<CostResult>,
    table: Seq<char>,
    input_tokens: u64,
    output_tokens: u64,
    requests: u64,
    period: Period,
) -> Seq<char> {
    comparison_heading(input_tokens, output_tokens, requests) + table + "\n"@ + (if lowest_total(
        results,
        results.len(),
    ) is Some {
        "\n* = lowest cost\n"@
    } else {
        Seq::empty()
    }) + comparison_projection(results, requests, period)
}

/// Writes [`comparison_heading`].
fn write_comparison_heading(input_tokens: u64, output_tokens: u64, requests: u64) -> (out: String)
    ensures
        out@ == comparison_heading(input_tokens, output_tokens, requests),
{
    let mut out = String::new();
    out.append("Cost Comparison (");
    out.append(format_token_count(input_tokens).as_str());
    out.append(" input / ");
    out.append(format_token_count(output_tokens).as_str());
    out.append(" output tokens per request)\n");
    if requests > 1 {
        out.append("Requests: ");
        push_decimal(&mut out, requests as u128);
        out.append("\n");
    }
    out.append("\n");
    out
}

/// Writes [`comparison_projection`].
fn write_comparison_projection(results: &Vec<CostResult>, requests: u64, period: Period) -> (out:
    String)
    ensures
        out@ == comparison_projection(results@, requests, period),
{
    let mut out = String::new();
    match period {
        Period::Once => {},
        Period::Daily => {
            out.append("\nDaily costs (");
            push_decimal(&mut out, requests as u128);
            out.append(" requests):\n");
            push_projection(&mut out, results, false);
            out.append("\nMonthly estimates (30 days):\n");
            push_projection(&mut out, results, true);
        },
        Period::Monthly => {
            out.append("\nMonthly costs (");
            push_decimal(&mut out, requests as u128);
            out.append(" requests/day):\n");
            push_projection(&mut out, results, true);
        },
    }
    out
}

/// Writes [`comparison_text`].
fn write_comparison(
    results: &Vec<CostResult>,
    table: &str,
    input_tokens: u64,
    output_tokens: u64,
    requests: u64,
    period: Period,
) -> (out: String)
    ensures
        out@ == comparison_text(results@, table@, input_tokens, output_tokens, requests, period),
{
    let mut out = write_comparison_heading(input_tokens, output_tokens, requests);
    out.append(table);
    out.append("\n");
    if find_min_cost(results).is_some() {
        out.append("\n* = lowest cost\n");
    }
    out.append(write_comparison_projection(results, requests, period).as_str());
    out
}

/// What the cost command hands back: the results themselves where JSON was
/// asked for, else the text to show.
pub enum CostOutput {
    Json(Vec<CostResult>),
    Text(String),
}

/// What is reported when no model is found.
pub open spec fn none_found_text(searches: Seq<String>) -> Seq<char> {
    "No models found matching: "@ + join(views(searches), ", "@)
}

/// The text of the cost report in a rendering other than JSON: the bare table
/// and a line end for CSV and plain text, else the full text for one model or
/// the comparison of several.
pub open spec fn report_text(
    results: Seq<CostResult>,
    input_tokens: u64,
    output_tokens: u64,
    requests: u64,
    period: Period,
    format: OutputFormat,
    table: Seq<char>,
) -> Seq<char> {
    match format {
        OutputFormat::Csv | OutputFormat::Plain => table + "\n"@,
        _ => if results.len() == 1 {
            detail_text(results[0], requests, period)
        } else {
            comparison_text(results, table, input_tokens, output_tokens, requests, period)
        },
    }
}

/// Whether `table` is the cost table of `results` in the rendering `format`.
pub open spec fn is_table_text(table: Seq<char>, results: Seq<CostResult>, format: OutputFormat) -> bool {
    match format {
        OutputFormat::Csv => table == csv_record_text(cost_headings()) + csv_lines(
            cost_table(results),
            results.len(),
        ),
        OutputFormat::Plain => table == plain_lines(cost_table(results), results.len()),
        OutputFormat::Table => table == table_text(cost_headings(), cost_table(results)),
        _ => table == markdown_text(cost_headings(), cost_table(results)),
    }
}

/// Runs the cost command: reads the token counts and the period, finds the
/// models, and computes and renders their costs.
///
/// Fails with the first of these that applies: the input token count is
/// malformed, the output token count is, the period is, no model is found.
pub fn run(
    models: &[LlmModel],
    model_searches: &[String],
    input_tokens_str: &str,
    output_tokens_str: &str,
    requests: u64,
    period_str: &str,
    format: OutputFormat,
) -> (r: Result<CostOutput, AppError>)
    ensures
        match r {
            Err(e) => match token_count(input_tokens_str@) {
                Err(fault) => e matches AppError::Config(text) && text@ == fault_text(
                    input_tokens_str@,
                    fault,
                ),
                Ok(_) => match token_count(output_tokens_str@) {
                    Err(fault) => e matches AppError::Config(text) && text@ == fault_text(
                        output_tokens_str@,
                        fault,
                    ),
                    Ok(_) => match period_named(unicode_lower(period_str@)) {
                        None => e matches AppError::Config(text) && text@ == bad_period_text(
                            period_str@,
                        ),
                        Some(_) => {
                            &&& gathered(models@, model_searches@, model_searches@.len(), 0).len()
                                == 0
                            &&& e matches AppError::NotFound(text)
                            &&& text@ == none_found_text(model_searches@)
                        },
                    },
                },
            },
            Ok(output) => {
                &&& token_count(input_tokens_str@) matches Ok(input)
                &&& token_count(output_tokens_str@) matches Ok(output_count)
                &&& period_named(unicode_lower(period_str@)) matches Some(period)
                &&& gathered(models@, model_searches@, model_searches@.len(), 0).len() > 0
                &&& match output {
                    CostOutput::Json(results) => format == OutputFormat::Json && are_costs_of(
                        results@,
                        gathered(models@, model_searches@, model_searches@.len(), 0),
                        capped(input),
                        capped(output_count),
                        requests,
                        period,
                    ),
                    CostOutput::Text(text) => format != OutputFormat::Json && exists|
                        results: Seq<CostResult>,
                        table: Seq<char>,
                    |
                        {
                            &&& are_costs_of(
                                results,
                                gathered(models@, model_searches@, model_searches@.len(), 0),
                                capped(input),
                                capped(output_count),
                                requests,
                                period,
                            )
                            &&& is_table_text(table, results, format)
                            &&& text@ == report_text(
                                results,
                                capped(input),
                                capped(output_count),
                                requests,
                                period,
                                format,
                                table,
                            )
                        },
                }
            },
        },
{
    let input_tokens = match parse_tokens(input_tokens_str) {
        Ok(n) => n,
        Err(e) => {
            return Err(e);
        },
    };
    let output_tokens = match parse_tokens(output_tokens_str) {
        Ok(n) => n,
        Err(e) => {
            return Err(e);
        },
    };
    let period = match Period::from_str(period_str) {
        Ok(p) => p,
        Err(e) => {
            return Err(e);
        },
    };
    let matched = find_models_by_names(models, model_searches);
    assert(pointed(matched@).len() == matched@.len());
    if matched.len() == 0 {
        let mut text = String::new();
        text.append("No models found matching: ");
        let mut list: Vec<String> = Vec::new();
        let mut i: usize = 0;
        while i < model_searches.len()
            invariant
                i <= model_searches.len(),
                list@ == model_searches@.take(i as int),
            decreases model_searches.len() - i,
        {
            list.push(model_searches[i].clone());
            i += 1;
            assert(model_searches@.take(i as int) == model_searches@.take(i - 1).push(
                model_searches@[i - 1],
            ));
        }
        assert(model_searches@.take(model_searches@.len() as int) == model_searches@);
        text.append(join_strings(&list, ", ").as_str());
        return Err(AppError::NotFound(text));
    }
    let results = cost_results(&matched, input_tokens, output_tokens, requests, period);
    let table = cost_table_of(&results);
    let (text, ghost_table) = match format {
        OutputFormat::Json => {
            return Ok(CostOutput::Json(results));
        },
        OutputFormat::Csv => {
            let mut rendered = format_csv(&table);
            let ghost shown = rendered@;
            rendered.append("\n");
            (rendered, Ghost(shown))
        },
        OutputFormat::Plain => {
            let mut rendered = format_plain(&table);
            let ghost shown = rendered@;
            rendered.append("\n");
            (rendered, Ghost(shown))
        },
        OutputFormat::Table => {
            let rendered = format_ascii_table(&table);
            if results.len() == 1 {
                (write_detail(&results[0], requests, period), Ghost(rendered@))
            } else {
                (
                    write_comparison(
                        &results,
                        rendered.as_str(),
                        input_tokens,
                        output_tokens,
                        requests,
                        period,
                    ),
                    Ghost(rendered@),
                )
            }
        },
        OutputFormat::Markdown => {
            let rendered = format_markdown(&table);
            if results.len() == 1 {
                (write_detail(&results[0], requests, period), Ghost(rendered@))
            } else {
                (
                    write_comparison(
                        &results,
                        rendered.as_str(),
                        input_tokens,
                        output_tokens,
                        requests,
                        period,
                    ),
                    Ghost(rendered@),
                )
            }
        },
    };
    proof {
        assert(is_table_text(ghost_table@, results@, format));
        assert(text@ == report_text(
            results@,
            input_tokens,
            output_tokens,
            requests,
            period,
            format,
            ghost_table@,
        ));
    }
    Ok(CostOutput::Text(text))
}

} // verus!
