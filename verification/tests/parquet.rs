use which_llm::models::llm::LlmModel;
use which_llm::models::media::{MediaCreator, MediaModel};
use which_llm::number::Double;
use which_llm::parquet::{
    llm_row, write_aa_llms_parquet, write_llms_parquet, write_media_parquet,
    write_models_dev_parquet, Cell, MediaRow, WritePlan,
};
use which_llm::schema::{benchmarks, llms, models_dev};
use which_llm::sources::artificial_analysis::AaLlmRow;
use which_llm::sources::models_dev::ModelsDevRow;

fn num(x: f64) -> Double {
    Double::from_bits(x.to_bits())
}

fn make_test_llm_model() -> LlmModel {
    LlmModel {
        id: "test-id".to_string(),
        name: "GPT-4o".to_string(),
        slug: "gpt-4o".to_string(),
        release_date: Some("2024-05-13".to_string()),
        creator: "OpenAI".to_string(),
        creator_slug: Some("openai".to_string()),
        intelligence: Some(num(55.0)),
        coding: Some(num(50.0)),
        math: Some(num(60.0)),
        mmlu_pro: Some(num(0.75)),
        gpqa: Some(num(0.70)),
        input_price: Some(num(2.5)),
        output_price: Some(num(10.0)),
        price: Some(num(5.0)),
        tps: Some(num(150.0)),
        latency: Some(num(0.5)),
        reasoning: Some(false),
        tool_call: Some(true),
        structured_output: Some(true),
        attachment: Some(true),
        temperature: Some(true),
        context_window: Some(128000),
        max_input_tokens: None,
        max_output_tokens: Some(16384),
        input_modalities: Some(vec!["text".to_string(), "image".to_string()]),
        output_modalities: Some(vec!["text".to_string()]),
        knowledge_cutoff: Some("2024-04".to_string()),
        open_weights: Some(false),
        last_updated: Some("2024-11-20".to_string()),
        models_dev_matched: true,
        ..Default::default()
    }
}

fn text(cell: &Cell) -> Option<&str> {
    match cell {
        Cell::Text(s) => Some(s.as_str()),
        _ => None,
    }
}

fn kind(cell: &Cell) -> &'static str {
    match cell {
        Cell::Null => "NULL",
        Cell::Text(_) => "VARCHAR",
        Cell::Real(_) => "DOUBLE",
        Cell::Flag(_) => "BOOLEAN",
        Cell::Whole(_) => "BIGINT",
    }
}

fn assert_frame(plan: &WritePlan, table: &str, create: String, path: &str) {
    assert_eq!(plan.table, table);
    assert_eq!(plan.create_sql, create);
    assert_eq!(plan.target_path, path);
    assert_eq!(plan.staging_path, format!("{path}.tmp"));
    assert_eq!(
        plan.export_sql,
        format!("COPY {table} TO '{path}.tmp' (FORMAT PARQUET)")
    );
}

#[test]
fn unified_models_are_planned_row_by_row() {
    let mut second = make_test_llm_model();
    second.context_window = Some(u64::MAX);
    second.input_modalities = None;
    second.models_dev_matched = false;
    let models = vec![make_test_llm_model(), second];
    let plan = write_llms_parquet(&models, "/cache/llms.parquet");
    assert_frame(&plan, "llms", llms().create_table_sql(), "/cache/llms.parquet");
    assert_eq!(plan.rows.len(), 2);
    let columns = llms().columns;
    for row in &plan.rows {
        assert_eq!(row.len(), columns.len());
        for (cell, column) in row.iter().zip(columns.iter()) {
            match cell {
                Cell::Null => assert!(column.nullable, "{}", column.name),
                _ => assert_eq!(kind(cell), column.sql_type, "{}", column.name),
            }
        }
    }
    let row = &plan.rows[0];
    assert_eq!(text(&row[0]), Some("test-id"));
    assert_eq!(text(&row[3]), Some("OpenAI"));
    assert!(matches!(&row[6], Cell::Real(d) if *d == num(55.0)));
    assert!(matches!(row[11], Cell::Null));
    assert!(matches!(row[22], Cell::Flag(true)));
    assert!(matches!(row[26], Cell::Whole(128000)));
    assert!(matches!(row[27], Cell::Null));
    assert_eq!(text(&row[29]), Some("text,image"));
    assert_eq!(text(&row[30]), Some("text"));
    assert!(matches!(row[34], Cell::Flag(true)));
    assert!(matches!(plan.rows[1][26], Cell::Whole(i64::MAX)));
    assert!(matches!(plan.rows[1][29], Cell::Null));
    assert!(matches!(plan.rows[1][34], Cell::Flag(false)));
    assert_eq!(llm_row(&models[0]).len(), 35);
}

#[test]
fn nothing_to_write_is_a_plan_without_rows() {
    let plan = write_llms_parquet(&vec![], "it's here/llms.parquet");
    assert!(plan.rows.is_empty());
    assert_eq!(
        plan.export_sql,
        "COPY llms TO 'it''s here/llms.parquet.tmp' (FORMAT PARQUET)"
    );
    assert_eq!(plan.staging_path, "it's here/llms.parquet.tmp");
    assert_eq!(plan.target_path, "it's here/llms.parquet");
}

#[test]
fn raw_rows_are_planned_under_their_own_tables() {
    let benchmark = AaLlmRow {
        id: "i".to_string(),
        name: "n".to_string(),
        slug: "s".to_string(),
        creator: "c".to_string(),
        creator_slug: None,
        release_date: Some("2024".to_string()),
        intelligence: Some(num(1.0)),
        coding: None,
        math: None,
        mmlu_pro: None,
        gpqa: None,
        hle: None,
        livecodebench: None,
        scicode: None,
        math_500: None,
        aime: Some(num(2.0)),
        input_price: None,
        output_price: None,
        price: None,
        tps: None,
        latency: Some(num(3.0)),
    };
    let plan = write_aa_llms_parquet(&vec![benchmark], "b.parquet");
    assert_frame(
        &plan,
        "benchmarks",
        benchmarks().create_table_sql(),
        "b.parquet",
    );
    assert_eq!(plan.rows[0].len(), 21);
    assert!(matches!(plan.rows[0][4], Cell::Null));
    assert_eq!(text(&plan.rows[0][5]), Some("2024"));
    assert!(matches!(&plan.rows[0][15], Cell::Real(d) if *d == num(2.0)));
    assert!(matches!(&plan.rows[0][20], Cell::Real(d) if *d == num(3.0)));

    let capability = ModelsDevRow {
        provider_id: "openai".to_string(),
        provider_name: "OpenAI".to_string(),
        provider_env: Some("KEY".to_string()),
        provider_npm: None,
        provider_api: None,
        provider_doc: None,
        model_id: "gpt-4o".to_string(),
        model_name: "GPT-4o".to_string(),
        family: Some("gpt-4".to_string()),
        attachment: Some(true),
        reasoning: Some(false),
        tool_call: Some(true),
        structured_output: Some(true),
        temperature: Some(true),
        knowledge: Some("2024-04".to_string()),
        release_date: Some("2024-05-13".to_string()),
        last_updated: Some("2024-11-20".to_string()),
        open_weights: Some(false),
        status: None,
        context_window: Some(128000),
        max_input_tokens: None,
        max_output_tokens: Some(16384),
        cost_input: Some(num(2.5)),
        cost_output: Some(num(10.0)),
        cost_cache_read: Some(num(1.25)),
        cost_cache_write: None,
        input_modalities: Some("text,image".to_string()),
        output_modalities: Some("text".to_string()),
    };
    let plan = write_models_dev_parquet(&vec![capability], "m.parquet");
    assert_frame(
        &plan,
        "models_dev",
        models_dev().create_table_sql(),
        "m.parquet",
    );
    let row = &plan.rows[0];
    assert_eq!(row.len(), 22);
    assert_eq!(text(&row[0]), Some("openai"));
    assert_eq!(text(&row[2]), Some("gpt-4o"));
    assert_eq!(text(&row[4]), Some("gpt-4"));
    assert!(matches!(row[6], Cell::Flag(false)));
    assert!(matches!(row[14], Cell::Null));
    assert!(matches!(row[15], Cell::Whole(128000)));
    assert!(matches!(&row[19], Cell::Real(d) if *d == num(10.0)));
    assert_eq!(text(&row[20]), Some("text,image"));
}

fn media(rank: Option<u32>) -> MediaModel {
    MediaModel {
        id: "uuid-123".to_string(),
        name: "Midjourney".to_string(),
        slug: "midjourney".to_string(),
        model_creator: MediaCreator {
            id: "mj-id".to_string(),
            name: "Midjourney".to_string(),
            slug: None,
        },
        elo: Some(num(1246.0)),
        rank,
        ci95: None,
        appearances: None,
        release_date: None,
        categories: None,
    }
}

#[test]
fn media_models_are_planned_as_flat_rows() {
    let row = MediaRow::from(&media(Some(1)));
    assert_eq!(row.id, "uuid-123");
    assert_eq!(row.creator, "Midjourney");
    assert_eq!(row.elo, Some(num(1246.0)));
    assert_eq!(row.rank, Some(1));
    assert_eq!(row.release_date, None);
    assert_eq!(MediaRow::from(&media(None)).rank, None);
    assert_eq!(MediaRow::from(&media(Some(u32::MAX))).rank, Some(i32::MAX));
    assert_eq!(
        MediaRow::from(&media(Some(2_147_483_648))).rank,
        Some(i32::MAX)
    );
    for r in [0u32, 7, 2_147_483_647] {
        assert_eq!(MediaRow::from(&media(Some(r))).rank, Some(r as i32));
    }

    let plan = write_media_parquet(&vec![media(Some(3)), media(None)], "/c/text_to_image.parquet");
    assert_eq!(plan.table, "media");
    assert_eq!(
        plan.create_sql,
        "CREATE TABLE media (\n    id VARCHAR NOT NULL,\n    name VARCHAR NOT NULL,\n    slug VARCHAR NOT NULL,\n    creator VARCHAR NOT NULL,\n    elo DOUBLE,\n    rank INTEGER,\n    release_date VARCHAR\n)"
    );
    assert_eq!(
        plan.export_sql,
        "COPY media TO '/c/text_to_image.parquet.tmp' (FORMAT PARQUET)"
    );
    assert_eq!(plan.rows.len(), 2);
    assert_eq!(plan.rows[0].len(), 7);
    assert!(matches!(plan.rows[0][5], Cell::Whole(3)));
    assert!(matches!(plan.rows[1][5], Cell::Null));
    assert!(matches!(plan.rows[1][6], Cell::Null));
}

#[test]
fn test_write_llms_parquet() {
    let models = vec![make_test_llm_model()];
    let plan = write_llms_parquet(&models, "/cache/llms.parquet");

    assert_eq!(plan.target_path, "/cache/llms.parquet");
    assert_eq!(plan.table, "llms");

    // One row is written
    assert_eq!(plan.rows.len(), 1);

    // The capability columns are there
    let columns = llms().columns;
    let tool_call = columns.iter().position(|c| c.name == "tool_call").unwrap();
    assert_eq!(plan.rows[0].len(), columns.len());
    assert!(matches!(plan.rows[0][tool_call], Cell::Flag(true)));
}

#[test]
fn test_write_models_dev_parquet() {
    let rows = vec![ModelsDevRow {
        provider_id: "openai".to_string(),
        provider_name: "OpenAI".to_string(),
        provider_env: None,
        provider_npm: None,
        provider_api: None,
        provider_doc: None,
        model_id: "gpt-4o".to_string(),
        model_name: "GPT-4o".to_string(),
        family: Some("gpt-4".to_string()),
        attachment: Some(true),
        reasoning: Some(false),
        tool_call: Some(true),
        structured_output: Some(true),
        temperature: Some(true),
        knowledge: Some("2024-04".to_string()),
        release_date: Some("2024-05-13".to_string()),
        last_updated: Some("2024-11-20".to_string()),
        open_weights: Some(false),
        status: None,
        context_window: Some(128000),
        max_input_tokens: None,
        max_output_tokens: Some(16384),
        cost_input: Some(num(2.5)),
        cost_output: Some(num(10.0)),
        cost_cache_read: None,
        cost_cache_write: None,
        input_modalities: Some("text,image".to_string()),
        output_modalities: Some("text".to_string()),
    }];

    let plan = write_models_dev_parquet(&rows, "/cache/models_dev.parquet");
    assert_eq!(plan.target_path, "/cache/models_dev.parquet");
    assert_eq!(plan.table, "models_dev");
    assert_eq!(plan.rows.len(), 1);
    assert_eq!(plan.rows[0].len(), models_dev().columns.len());
    assert!(matches!(plan.rows[0][15], Cell::Whole(128000)));
    assert!(matches!(plan.rows[0][17], Cell::Whole(16384)));
}
