use which_llm::commands::compare::{
    compare_models, extract, find_winners, format_price, get_field_defs, run, CompareOutput,
    FieldKey, FieldType, FieldValue,
};
use which_llm::error::AppError;
use which_llm::models::llm::LlmModel;
use which_llm::number::Double;
use which_llm::output::OutputFormat;

fn num(x: f64) -> Double {
    Double::from_bits(x.to_bits())
}

fn model(name: &str, intelligence: Option<f64>, input: Option<f64>, tps: Option<f64>) -> LlmModel {
    LlmModel {
        id: format!("id-{name}"),
        name: name.to_string(),
        slug: name.to_lowercase(),
        creator: format!("{name} Labs"),
        intelligence: intelligence.map(num),
        input_price: input.map(num),
        tps: tps.map(num),
        ..Default::default()
    }
}

fn numbers(values: &[Option<f64>]) -> Vec<Option<FieldValue>> {
    values
        .iter()
        .map(|v| v.map(|x| FieldValue::Number(num(x))))
        .collect()
}

#[test]
fn the_lines_of_a_comparison() {
    let basic = get_field_defs(false);
    let names: Vec<&str> = basic.iter().map(|d| d.name).collect();
    assert_eq!(
        names,
        vec![
            "Creator",
            "Intelligence",
            "Coding",
            "Input $/M",
            "Output $/M",
            "Blended $/M",
            "TPS",
            "Latency (s)"
        ]
    );
    assert_eq!(basic[0].field_type, FieldType::NoWinner);
    assert_eq!(basic[1].field_type, FieldType::HigherBetter);
    assert_eq!(basic[3].field_type, FieldType::LowerBetter);
    assert_eq!(basic[7].key, FieldKey::Latency);
    let verbose = get_field_defs(true);
    assert_eq!(verbose.len(), 16);
    let more: Vec<&str> = verbose[8..].iter().map(|d| d.name).collect();
    assert_eq!(
        more,
        vec![
            "Math",
            "MMLU-Pro",
            "GPQA",
            "HLE",
            "LiveCodeBench",
            "SciCode",
            "Math 500",
            "AIME"
        ]
    );
    assert!(verbose[8..]
        .iter()
        .all(|d| d.field_type == FieldType::HigherBetter));
}

#[test]
fn values_are_taken_from_their_fields() {
    let mut m = model("A", Some(62.9), Some(2.5), None);
    m.aime = Some(num(0.5));
    m.price = Some(num(5.0));
    match extract(&m, FieldKey::Creator) {
        Some(FieldValue::Text(s)) => assert_eq!(s, "A Labs"),
        _ => panic!("expected a text"),
    }
    for (key, expected) in [
        (FieldKey::Intelligence, Some(62.9)),
        (FieldKey::InputPrice, Some(2.5)),
        (FieldKey::BlendedPrice, Some(5.0)),
        (FieldKey::Aime, Some(0.5)),
        (FieldKey::Tps, None),
        (FieldKey::Coding, None),
    ] {
        match (extract(&m, key), expected) {
            (Some(FieldValue::Number(d)), Some(x)) => assert_eq!(d, num(x)),
            (None, None) => {}
            _ => panic!("unexpected value for {key:?}"),
        }
    }
    assert_eq!(FieldValue::Number(num(62.94)).to_display(), "62.9");
    assert_eq!(FieldValue::Number(num(0.25)).to_display(), "0.2");
    assert_eq!(
        FieldValue::Text("as it is".to_string()).to_display(),
        "as it is"
    );
    assert_eq!(format_price(num(2.5)), "$2.50");
    assert_eq!(format_price(num(1.925)), format!("${:.2}", 1.925f64));
}

#[test]
fn winners_are_within_a_thousandth_of_the_best() {
    let values = numbers(&[Some(10.0), Some(12.0), None, Some(11.9995), Some(11.999)]);
    assert_eq!(
        find_winners(&values, FieldType::HigherBetter),
        vec![false, true, false, true, false]
    );
    assert_eq!(
        find_winners(&values, FieldType::LowerBetter),
        vec![true, false, false, false, false]
    );
    assert_eq!(
        find_winners(&values, FieldType::NoWinner),
        vec![false; 5]
    );
    assert_eq!(
        find_winners(&numbers(&[None, None]), FieldType::HigherBetter),
        vec![false, false]
    );
    assert!(find_winners(&vec![], FieldType::LowerBetter).is_empty());
    let odd = numbers(&[Some(f64::NAN), Some(-1.0), Some(f64::INFINITY), Some(-1.0005)]);
    assert_eq!(
        find_winners(&odd, FieldType::HigherBetter),
        vec![false, true, false, true]
    );
    assert_eq!(
        find_winners(&odd, FieldType::LowerBetter),
        vec![false, true, false, true]
    );
    let texts = vec![
        Some(FieldValue::Text("a".to_string())),
        Some(FieldValue::Number(num(1.0))),
    ];
    assert_eq!(
        find_winners(&texts, FieldType::HigherBetter),
        vec![false, true]
    );
}

fn trio() -> Vec<LlmModel> {
    vec![
        model("Alpha", Some(62.9), Some(2.5), Some(150.0)),
        model("Beta", Some(55.0), Some(1.1), None),
        model("Other", Some(70.0), None, None),
    ]
}

#[test]
fn a_comparison_shows_and_marks_each_value() {
    let all = trio();
    let picked: Vec<&LlmModel> = vec![&all[0], &all[1]];
    let result = compare_models(&picked, false);
    assert_eq!(result.models, vec!["Alpha", "Beta"]);
    assert_eq!(result.fields.len(), 8);
    assert_eq!(result.fields[0].name, "Creator");
    assert_eq!(result.fields[0].values, vec!["Alpha Labs", "Beta Labs"]);
    assert_eq!(result.fields[0].winners, vec![false, false]);
    assert_eq!(result.fields[1].values, vec!["62.9 *", "55.0"]);
    assert_eq!(result.fields[1].winners, vec![true, false]);
    assert_eq!(result.fields[2].values, vec!["-", "-"]);
    assert_eq!(result.fields[3].name, "Input $/M");
    assert_eq!(result.fields[3].values, vec!["$2.50", "$1.10 *"]);
    assert_eq!(result.fields[6].values, vec!["150.0 *", "-"]);
    assert_eq!(compare_models(&picked, true).fields.len(), 16);
}

fn text_of(output: Result<CompareOutput, AppError>) -> String {
    match output {
        Ok(CompareOutput::Text(text)) => text,
        _ => panic!("expected text"),
    }
}

#[test]
fn run_renders_the_comparison() {
    let all = trio();
    let searches = vec!["alpha".to_string(), "beta".to_string()];
    let table = text_of(run(&all, &searches, false, OutputFormat::Markdown));
    assert_eq!(
        table,
        "| Field        | Alpha      | Beta      |\n|--------------|------------|-----------|\n| Creator      | Alpha Labs | Beta Labs |\n| Intelligence | 62.9 *     | 55.0      |\n| Coding       | -          | -         |\n| Input $/M    | $2.50      | $1.10 *   |\n| Output $/M   | -          | -         |\n| Blended $/M  | -          | -         |\n| TPS          | 150.0 *    | -         |\n| Latency (s)  | -          | -         |\n\n* = best in category\n"
    );
    assert_eq!(
        text_of(run(&all, &searches, false, OutputFormat::Table)),
        table
    );
    let plain = text_of(run(&all, &searches, false, OutputFormat::Plain));
    assert_eq!(
        plain,
        "Field\tAlpha\tBeta\nCreator\tAlpha Labs\tBeta Labs\nIntelligence\t62.9 *\t55.0\nCoding\t-\t-\nInput $/M\t$2.50\t$1.10 *\nOutput $/M\t-\t-\nBlended $/M\t-\t-\nTPS\t150.0 *\t-\nLatency (s)\t-\t-\n\n* = best in category\n"
    );
    let csv = text_of(run(&all, &searches, false, OutputFormat::Csv));
    assert!(csv.starts_with("Field,Alpha,Beta\nCreator,Alpha Labs,Beta Labs\n"));
    assert!(csv.ends_with("Latency (s),-,-\n"));
}

#[test]
fn comma_separated_cells_are_quoted_where_needed() {
    let mut first = model("A, the \"first\"", Some(1.0), None, None);
    first.creator = "two\nlines".to_string();
    let second = model("B", Some(2.0), None, None);
    let all = vec![first, second];
    let csv = text_of(run(
        &all,
        &vec!["a".to_string(), "b".to_string()],
        false,
        OutputFormat::Csv,
    ));
    assert!(csv.starts_with(
        "Field,\"A, the \"\"first\"\"\",B\nCreator,\"two\nlines\",B Labs\nIntelligence,1.0,2.0 *\n"
    ));
}

#[test]
fn run_hands_the_comparison_back_for_json() {
    match run(
        &trio(),
        &vec!["a".to_string()],
        true,
        OutputFormat::Json,
    ) {
        Ok(CompareOutput::Json(result)) => {
            assert_eq!(result.models, vec!["Alpha", "Beta"]);
            assert_eq!(result.fields.len(), 16);
        }
        _ => panic!("expected a comparison"),
    }
}

#[test]
fn run_needs_two_models() {
    let all = trio();
    match run(&all, &vec!["zzz".to_string()], false, OutputFormat::Table) {
        Err(AppError::NotFound(text)) => assert_eq!(text, "No models found matching: zzz"),
        _ => panic!("expected nothing to be found"),
    }
    match run(&all, &vec!["other".to_string()], false, OutputFormat::Table) {
        Err(AppError::Config(text)) => assert_eq!(
            text,
            "Need at least 2 models to compare. Try broader search terms."
        ),
        _ => panic!("expected a configuration error"),
    }
    assert!(run(&all, &[], false, OutputFormat::Table).is_err());
}
