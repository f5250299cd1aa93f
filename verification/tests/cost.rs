use which_llm::commands::cost::{
    add_amounts, calculate_cost, find_min_cost, format_cost, format_cost_with_winner,
    format_token_count, multiply_amount, run, token_cost, Amount, CostOutput, CostResult, CostRow,
    Period,
};
use which_llm::error::AppError;
use which_llm::models::llm::LlmModel;
use which_llm::number::Double;
use which_llm::output::OutputFormat;

fn num(x: f64) -> Double {
    Double::from_bits(x.to_bits())
}

fn micros(n: i128) -> Option<Amount> {
    Some(Amount { micros: n })
}

fn model(name: &str, input: Option<f64>, output: Option<f64>) -> LlmModel {
    LlmModel {
        id: format!("id-{name}"),
        name: name.to_string(),
        slug: name.to_lowercase(),
        creator: "Maker".to_string(),
        input_price: input.map(num),
        output_price: output.map(num),
        ..Default::default()
    }
}

#[test]
fn cost_of_one_model() {
    let m = model("One", Some(2.5), Some(10.0));
    let result = calculate_cost(&m, 1000, 500, 1, Period::Once);
    assert_eq!(result.name, "One");
    assert_eq!(result.input_tokens, 1000);
    assert_eq!(result.output_tokens, 500);
    assert_eq!(result.input_cost, micros(2500));
    assert_eq!(result.output_cost, micros(5000));
    assert_eq!(result.total_cost, micros(7500));
    assert_eq!(result.requests, 1);
    assert_eq!(result.period, "once");
    assert_eq!(result.period_cost, micros(7500));
    assert_eq!(result.monthly_cost, None);
    assert_eq!(format_cost(result.total_cost), "$0.0075");
    let expected: f64 = 2.5 * 0.001 + 10.0 * 0.0005;
    assert_eq!(format_cost(result.total_cost), format!("${:.4}", expected));
}

#[test]
fn costs_over_a_period() {
    let m = model("One", Some(2.5), Some(10.0));
    let daily = calculate_cost(&m, 1000, 500, 100, Period::Daily);
    assert_eq!(daily.period, "daily");
    assert_eq!(daily.total_cost, micros(7500));
    assert_eq!(daily.period_cost, micros(750_000));
    assert_eq!(daily.monthly_cost, micros(22_500_000));
    let monthly = calculate_cost(&m, 1000, 500, 100, Period::Monthly);
    assert_eq!(monthly.period, "monthly");
    assert_eq!(monthly.period_cost, micros(22_500_000));
    assert_eq!(monthly.monthly_cost, micros(22_500_000));
    let input_only = calculate_cost(&model("I", Some(3.0), None), 2_000_000, 5, 1, Period::Once);
    assert_eq!(input_only.input_cost, micros(6_000_000));
    assert_eq!(input_only.output_cost, None);
    assert_eq!(input_only.total_cost, micros(6_000_000));
    let output_only = calculate_cost(&model("O", None, Some(3.0)), 5, 1_000_000, 1, Period::Once);
    assert_eq!(output_only.total_cost, micros(3_000_000));
    let none = calculate_cost(&model("N", None, None), 5, 5, 9, Period::Daily);
    assert_eq!(none.total_cost, None);
    assert_eq!(none.period_cost, None);
    assert_eq!(none.monthly_cost, None);
}

#[test]
fn token_costs_are_rounded_half_to_even_on_the_exact_value() {
    assert_eq!(token_cost(Some(num(0.5)), 1), micros(0));
    assert_eq!(token_cost(Some(num(1.5)), 1), micros(2));
    assert_eq!(token_cost(Some(num(2.5)), 1), micros(2));
    assert_eq!(token_cost(Some(num(0.15)), 10), micros(1));
    assert_eq!(token_cost(Some(num(0.1)), 5), micros(1));
    assert_eq!(token_cost(Some(num(-2.5)), 1000), micros(-2500));
    assert_eq!(token_cost(Some(num(-0.0)), 1000), micros(0));
    assert_eq!(token_cost(None, 1000), None);
    assert_eq!(token_cost(Some(num(1.1)), u64::MAX), micros(20291418481080508415));
}

#[test]
fn a_price_always_has_a_cost() {
    assert_eq!(token_cost(Some(num(f64::NAN)), 1000), micros(0));
    assert_eq!(token_cost(Some(num(-f64::NAN)), 1000), micros(0));
    assert_eq!(token_cost(Some(num(f64::INFINITY)), 1000), micros(i128::MAX));
    assert_eq!(token_cost(Some(num(f64::INFINITY)), 0), micros(i128::MAX));
    assert_eq!(
        token_cost(Some(num(f64::NEG_INFINITY)), 1000),
        micros(i128::MIN)
    );
    assert_eq!(token_cost(Some(num(1e300)), 1000), micros(i128::MAX));
    assert_eq!(token_cost(Some(num(-1e300)), 1000), micros(i128::MIN));
    assert_eq!(token_cost(Some(num(1e300)), 0), micros(0));
    assert_eq!(
        token_cost(Some(num(170141183460469231731687303715884105728.0)), 1),
        micros(i128::MAX)
    );
    assert_eq!(
        token_cost(Some(num(-170141183460469231731687303715884105728.0)), 1),
        micros(i128::MIN)
    );
    assert_eq!(
        token_cost(Some(num(85070591730234615865843651857942052864.0)), 1),
        micros(85070591730234615865843651857942052864)
    );
    for input in [None, Some(2.5), Some(f64::INFINITY), Some(f64::NAN), Some(1e300)] {
        for output in [None, Some(10.0), Some(f64::NEG_INFINITY), Some(f64::NAN)] {
            let result = calculate_cost(&model("M", input, output), 1000, 500, 3, Period::Daily);
            assert_eq!(result.input_cost.is_none(), input.is_none());
            assert_eq!(result.output_cost.is_none(), output.is_none());
            assert_eq!(
                result.total_cost.is_none(),
                input.is_none() && output.is_none()
            );
            assert_eq!(result.period_cost.is_none(), result.total_cost.is_none());
            assert_eq!(result.monthly_cost.is_none(), result.total_cost.is_none());
        }
    }
    let endless = calculate_cost(
        &model("E", Some(f64::INFINITY), Some(10.0)),
        1000,
        500,
        2,
        Period::Monthly,
    );
    assert_eq!(endless.input_cost, micros(i128::MAX));
    assert_eq!(endless.output_cost, micros(5000));
    assert_eq!(endless.total_cost, micros(i128::MAX));
    assert_eq!(endless.period_cost, micros(i128::MAX));
    let opposed = calculate_cost(
        &model("O", Some(f64::INFINITY), Some(f64::NEG_INFINITY)),
        1,
        1,
        1,
        Period::Once,
    );
    assert_eq!(opposed.total_cost, micros(-1));
}

#[test]
fn amounts_stop_at_their_ends() {
    let max = Amount { micros: i128::MAX };
    let min = Amount { micros: i128::MIN };
    let one = Amount { micros: 1 };
    assert_eq!(add_amounts(max, one), max);
    assert_eq!(add_amounts(min, Amount { micros: -1 }), min);
    assert_eq!(add_amounts(max, min), Amount { micros: -1 });
    assert_eq!(add_amounts(one, one), Amount { micros: 2 });
    assert_eq!(multiply_amount(max, 2), max);
    assert_eq!(multiply_amount(min, 2), min);
    assert_eq!(multiply_amount(max, 0), Amount { micros: 0 });
    assert_eq!(multiply_amount(Amount { micros: -3 }, 30), Amount { micros: -90 });
    assert_eq!(
        multiply_amount(Amount { micros: 1 << 100 }, u64::MAX),
        max
    );
}

#[test]
fn costs_are_shown_with_more_digits_when_small() {
    assert_eq!(format_cost(None), "N/A");
    assert_eq!(format_cost(micros(0)), "$0.0000");
    assert_eq!(format_cost(micros(7500)), "$0.0075");
    assert_eq!(format_cost(micros(9999)), "$0.0100");
    assert_eq!(format_cost(micros(49)), "$0.0000");
    assert_eq!(format_cost(micros(50)), "$0.0000");
    assert_eq!(format_cost(micros(51)), "$0.0001");
    assert_eq!(format_cost(micros(150)), "$0.0002");
    assert_eq!(format_cost(micros(10_000)), "$0.010");
    assert_eq!(format_cost(micros(12_500)), "$0.012");
    assert_eq!(format_cost(micros(13_500)), "$0.014");
    assert_eq!(format_cost(micros(999_999)), "$1.000");
    assert_eq!(format_cost(micros(1_000_000)), "$1.00");
    assert_eq!(format_cost(micros(1_005_000)), "$1.00");
    assert_eq!(format_cost(micros(1_015_000)), "$1.02");
    assert_eq!(format_cost(micros(22_500_000)), "$22.50");
    assert_eq!(format_cost(micros(-2500)), "$-0.0025");
    assert_eq!(format_cost(micros(-40)), "$-0.0000");
    assert_eq!(
        format_cost(micros(i128::MAX)),
        "$170141183460469231731687303715884.11"
    );
    assert_eq!(
        format_cost(micros(i128::MIN)),
        "$-170141183460469231731687303715884.1057"
    );
    assert_eq!(format_cost_with_winner(micros(7500), true), "$0.0075 *");
    assert_eq!(format_cost_with_winner(micros(7500), false), "$0.0075");
    assert_eq!(format_cost_with_winner(None, true), "N/A");
}

#[test]
fn token_counts_are_shown_by_size() {
    assert_eq!(format_token_count(0), "0");
    assert_eq!(format_token_count(999), "999");
    assert_eq!(format_token_count(1000), "1K");
    assert_eq!(format_token_count(10_000), "10K");
    assert_eq!(format_token_count(1500), "1.5K");
    assert_eq!(format_token_count(1234), "1.2K");
    assert_eq!(format_token_count(1250), "1.2K");
    assert_eq!(format_token_count(1350), "1.4K");
    assert_eq!(format_token_count(999_999), "1000.0K");
    assert_eq!(format_token_count(1_000_000), "1.0M");
    assert_eq!(format_token_count(1_500_000), "1.5M");
    assert_eq!(format_token_count(1_050_000), "1.0M");
    assert_eq!(format_token_count(1_150_000), "1.2M");
    assert_eq!(format_token_count(u64::MAX), "18446744073709.6M");
}

#[test]
fn periods_have_lower_case_names() {
    assert_eq!(Period::named("once"), Some(Period::Once));
    assert_eq!(Period::named("daily"), Some(Period::Daily));
    assert_eq!(Period::named("day"), Some(Period::Daily));
    assert_eq!(Period::named("monthly"), Some(Period::Monthly));
    assert_eq!(Period::named("month"), Some(Period::Monthly));
    assert_eq!(Period::named("Once"), None);
    assert_eq!(Period::named(""), None);
    assert_eq!(Period::named("weekly"), None);
}

#[test]
fn periods_are_read_in_any_case() {
    assert_eq!(Period::from_str("once").unwrap(), Period::Once);
    assert_eq!(Period::from_str("Daily").unwrap(), Period::Daily);
    assert_eq!(Period::from_str("day").unwrap(), Period::Daily);
    assert_eq!(Period::from_str("MONTHLY").unwrap(), Period::Monthly);
    assert_eq!(Period::from_str("month").unwrap(), Period::Monthly);
    for bad in ["", "yearly", " once", "daily "] {
        match Period::from_str(bad) {
            Err(AppError::Config(text)) => assert_eq!(
                text,
                format!("Invalid period '{bad}'. Use 'once', 'daily', or 'monthly'.")
            ),
            _ => panic!("expected a configuration error"),
        }
    }
}

fn result_with(total: Option<i128>) -> CostResult {
    CostResult {
        name: "r".to_string(),
        input_tokens: 0,
        output_tokens: 0,
        input_cost: None,
        output_cost: None,
        total_cost: total.map(|m| Amount { micros: m }),
        requests: 1,
        period: "once".to_string(),
        period_cost: None,
        monthly_cost: None,
    }
}

#[test]
fn the_lowest_total_is_found() {
    assert_eq!(find_min_cost(&vec![]), None);
    assert_eq!(find_min_cost(&vec![result_with(None)]), None);
    assert_eq!(
        find_min_cost(&vec![
            result_with(Some(5)),
            result_with(None),
            result_with(Some(3)),
            result_with(Some(4)),
        ]),
        micros(3)
    );
    assert_eq!(
        find_min_cost(&vec![result_with(None), result_with(Some(-1))]),
        micros(-1)
    );
}

#[test]
fn cost_rows_have_four_cells() {
    assert_eq!(
        CostRow::headers(),
        vec!["Model", "Input Cost", "Output Cost", "Total"]
    );
    let row = CostRow {
        name: "n".to_string(),
        input_cost: "i".to_string(),
        output_cost: "o".to_string(),
        total_cost: "t".to_string(),
    };
    assert_eq!(row.to_row(), vec!["n", "i", "o", "t"]);
}

fn text_of(output: Result<CostOutput, AppError>) -> String {
    match output {
        Ok(CostOutput::Text(text)) => text,
        _ => panic!("expected text"),
    }
}

fn models() -> Vec<LlmModel> {
    vec![
        model("Alpha", Some(2.5), Some(10.0)),
        model("Beta", Some(1.0), Some(4.0)),
        model("Gamma", None, None),
    ]
}

#[test]
fn run_reports_one_model_in_full() {
    let searches = vec!["alpha".to_string()];
    let text = text_of(run(
        &models(),
        &searches,
        "1k",
        "500",
        1,
        "once",
        OutputFormat::Table,
    ));
    assert_eq!(
        text,
        "Model: Alpha\n\nCost per request:\n  Input (1K tokens):    $0.0025\n  Output (500 tokens):   $0.0050\n  Total:                  $0.0075\n"
    );
    let text = text_of(run(
        &models(),
        &searches,
        "1k",
        "500",
        100,
        "daily",
        OutputFormat::Markdown,
    ));
    assert_eq!(
        text,
        "Model: Alpha\n\nCost per request:\n  Input (1K tokens):    $0.0025\n  Output (500 tokens):   $0.0050\n  Total:                  $0.0075\n\nCost for 100 requests:    $0.750\nDaily (100 requests):     $0.750\nMonthly (30 days):       $22.50\n"
    );
    let text = text_of(run(
        &models(),
        &searches,
        "1k",
        "500",
        1,
        "monthly",
        OutputFormat::Markdown,
    ));
    assert!(text.ends_with("$0.0075\n\nMonthly:                 $0.225\n"));
}

#[test]
fn run_compares_several_models() {
    let searches = vec!["a".to_string()];
    let text = text_of(run(
        &models(),
        &searches,
        "1M",
        "1M",
        2,
        "daily",
        OutputFormat::Markdown,
    ));
    assert_eq!(
        text,
        "Cost Comparison (1.0M input / 1.0M output tokens per request)\nRequests: 2\n\n| Model | Input Cost | Output Cost | Total |\n| --- | --- | --- | --- |\n| Alpha | $2.50 | $10.00 | $12.50 |\n| Beta | $1.00 | $4.00 | $5.00 * |\n| Gamma | N/A | N/A | N/A |\n\n\n* = lowest cost\n\nDaily costs (2 requests):\n  Alpha: $25.00\n  Beta: $10.00\n  Gamma: N/A\n\nMonthly estimates (30 days):\n  Alpha: $750.00\n  Beta: $300.00\n  Gamma: N/A\n"
    );
    let csv = text_of(run(
        &models(),
        &searches,
        "1M",
        "1M",
        1,
        "once",
        OutputFormat::Csv,
    ));
    assert_eq!(
        csv,
        "Model,Input Cost,Output Cost,Total\nAlpha,$2.50,$10.00,$12.50\nBeta,$1.00,$4.00,$5.00 *\nGamma,N/A,N/A,N/A\n\n"
    );
    let plain = text_of(run(
        &models(),
        &searches,
        "1M",
        "1M",
        1,
        "once",
        OutputFormat::Plain,
    ));
    assert_eq!(
        plain,
        "Alpha\t$2.50\t$10.00\t$12.50\nBeta\t$1.00\t$4.00\t$5.00 *\nGamma\tN/A\tN/A\tN/A\n\n"
    );
    let table = text_of(run(
        &models(),
        &vec!["gamma".to_string(), "Gam".to_string(), "zzz".to_string(), "alpha".to_string()],
        "1",
        "1",
        1,
        "monthly",
        OutputFormat::Table,
    ));
    assert!(table.starts_with(
        "Cost Comparison (1 input / 1 output tokens per request)\n\n+-------+------------+-------------+-----------+\n"
    ));
    assert!(table.contains("| Alpha | $0.0000    | $0.0000     | $0.0000 * |\n"));
    assert!(table.ends_with(
        "\n* = lowest cost\n\nMonthly costs (1 requests/day):\n  Gamma: N/A\n  Alpha: $0.0004\n"
    ));
}

#[test]
fn run_hands_the_results_back_for_json() {
    match run(
        &models(),
        &vec!["beta".to_string()],
        "10k",
        "2k",
        3,
        "once",
        OutputFormat::Json,
    ) {
        Ok(CostOutput::Json(results)) => {
            assert_eq!(results.len(), 1);
            assert_eq!(results[0].name, "Beta");
            assert_eq!(results[0].input_cost, micros(10_000));
            assert_eq!(results[0].output_cost, micros(8000));
            assert_eq!(results[0].period_cost, micros(54_000));
        }
        _ => panic!("expected results"),
    }
}

#[test]
fn run_fails_in_a_fixed_order() {
    let searches = vec!["nothing".to_string(), "else".to_string()];
    let all = models();
    let fail = |input: &str, output: &str, period: &str| match run(
        &all,
        &searches,
        input,
        output,
        1,
        period,
        OutputFormat::Table,
    ) {
        Err(e) => e,
        Ok(_) => panic!("expected an error"),
    };
    assert!(matches!(
        fail("", "x", "never"),
        AppError::Config(t) if t == "Empty token count"
    ));
    assert!(matches!(
        fail("1", "x", "never"),
        AppError::Config(t) if t == "Invalid token count 'x': could not parse number"
    ));
    assert!(matches!(
        fail("1", "1", "never"),
        AppError::Config(t) if t == "Invalid period 'never'. Use 'once', 'daily', or 'monthly'."
    ));
    assert!(matches!(
        fail("1", "1", "once"),
        AppError::NotFound(t) if t == "No models found matching: nothing, else"
    ));
    assert_eq!(
        fail("1", "1", "once").message(),
        "Not found: No models found matching: nothing, else"
    );
}
