use which_llm::number::Double;
use which_llm::output::OutputFormat;
use which_llm::query::{
    format_ascii_table, format_csv, format_json, format_markdown, format_plain,
    format_query_result, format_tables_list, get_schema, materialize, query_failure,
    render_value, ColumnInfo, QueryExecutor, QueryResult, QueryStage, SqlValue, TableInfo,
};

fn two_models() -> QueryResult {
    QueryResult {
        columns: vec!["name".to_string(), "score".to_string()],
        rows: vec![
            vec!["Model A".to_string(), "100".to_string()],
            vec!["Model B".to_string(), "95".to_string()],
        ],
    }
}

#[test]
fn test_format_query_result_markdown() {
    let result = two_models();
    let output = format_query_result(&result, OutputFormat::Markdown);
    assert!(output.contains("| name | score |"));
    assert!(output.contains("| Model A | 100 |"));
}

#[test]
fn test_format_query_result_json() {
    let result = QueryResult {
        columns: vec!["name".to_string()],
        rows: vec![vec!["Test".to_string()]],
    };

    let output = format_query_result(&result, OutputFormat::Json);
    assert!(output.contains("\"name\""));
    assert!(output.contains("\"Test\""));
}

#[test]
fn test_list_tables() {
    let mut executor = QueryExecutor::new("/tmp/cache".to_string());
    executor.mark_cached("llms");
    let tables = executor.list_tables();

    assert_eq!(tables.len(), 6);

    let llms = tables.iter().find(|t| t.name == "llms").unwrap();
    assert!(llms.exists);

    let text_to_image = tables.iter().find(|t| t.name == "text_to_image").unwrap();
    assert!(!text_to_image.exists);

    let columns = text_to_image.schema.as_ref().unwrap();
    assert_eq!(columns.len(), 7);
    assert_eq!(columns[5].name, "rank");
    assert_eq!(columns[5].data_type, "INTEGER");
    assert!(columns[5].nullable);
    assert!(!columns[0].nullable);
    assert_eq!(llms.schema.as_ref().unwrap().len(), 35);
}

#[test]
fn markdown_is_exact() {
    assert_eq!(
        format_markdown(&two_models()),
        "| name | score |\n| --- | --- |\n| Model A | 100 |\n| Model B | 95 |\n"
    );
}

#[test]
fn plain_is_exact() {
    assert_eq!(format_plain(&two_models()), "Model A\t100\nModel B\t95\n");
}

#[test]
fn ascii_table_is_exact() {
    assert_eq!(
        format_ascii_table(&two_models()),
        "+---------+-------+\n| name    | score |\n+---------+-------+\n| Model A | 100   |\n| Model B | 95    |\n+---------+-------+\n"
    );
}

#[test]
fn ascii_table_measures_bytes_and_pads_characters() {
    let result = QueryResult {
        columns: vec!["n".to_string()],
        rows: vec![
            vec!["é".to_string(), "extra".to_string()],
            vec!["ab".to_string()],
        ],
    };
    assert_eq!(
        format_ascii_table(&result),
        "+----+\n| n  |\n+----+\n| é  | extra |\n| ab |\n+----+\n"
    );
}

#[test]
fn json_is_what_the_json_writer_gives_for_the_same_objects() {
    let result = QueryResult {
        columns: vec!["b".to_string(), "a".to_string(), "b".to_string()],
        rows: vec![
            vec!["1".to_string(), "say \"hi\"".to_string(), "3".to_string()],
            vec!["only".to_string()],
        ],
    };
    let mut first = serde_json::Map::new();
    first.insert("a".to_string(), serde_json::Value::String("say \"hi\"".to_string()));
    first.insert("b".to_string(), serde_json::Value::String("3".to_string()));
    let mut second = serde_json::Map::new();
    second.insert("a".to_string(), serde_json::Value::String(String::new()));
    second.insert("b".to_string(), serde_json::Value::String(String::new()));
    let expected = serde_json::to_string_pretty(&vec![first, second]).unwrap();
    assert_eq!(format_json(&result), expected);
    assert_eq!(
        format_json(&result),
        "[\n  {\n    \"a\": \"say \\\"hi\\\"\",\n    \"b\": \"3\"\n  },\n  {\n    \"a\": \"\",\n    \"b\": \"\"\n  }\n]"
    );
}

#[test]
fn csv_quotes_where_needed() {
    let result = QueryResult {
        columns: vec!["name".to_string(), "note".to_string()],
        rows: vec![
            vec!["a,b".to_string(), "say \"hi\"".to_string()],
            vec!["plain".to_string(), "two\nlines".to_string()],
        ],
    };
    assert_eq!(
        format_csv(&result),
        "name,note\n\"a,b\",\"say \"\"hi\"\"\"\nplain,\"two\nlines\"\n"
    );
    let mut writer = csv::Writer::from_writer(vec![]);
    writer.write_record(&result.columns).unwrap();
    for row in &result.rows {
        writer.write_record(row).unwrap();
    }
    let expected = String::from_utf8(writer.into_inner().unwrap()).unwrap();
    assert_eq!(format_csv(&result), expected);
}

#[test]
fn every_rendering_reports_an_empty_result() {
    let result = QueryResult {
        columns: vec!["name".to_string()],
        rows: vec![],
    };
    assert!(result.is_empty());
    assert_eq!(result.len(), 0);
    for format in [
        OutputFormat::Json,
        OutputFormat::Csv,
        OutputFormat::Table,
        OutputFormat::Plain,
        OutputFormat::Markdown,
    ] {
        assert_eq!(format_query_result(&result, format), "No results.");
    }
    assert_eq!(two_models().len(), 2);
    assert!(!two_models().is_empty());
}

#[test]
fn format_query_result_picks_the_rendering() {
    let result = two_models();
    assert_eq!(
        format_query_result(&result, OutputFormat::Plain),
        format_plain(&result)
    );
    assert_eq!(
        format_query_result(&result, OutputFormat::Table),
        format_ascii_table(&result)
    );
    assert_eq!(
        format_query_result(&result, OutputFormat::Csv),
        "name,score\nModel A,100\nModel B,95\n"
    );
}

#[test]
fn tables_list_is_exact() {
    let tables = vec![
        TableInfo {
            name: "llms".to_string(),
            exists: true,
            schema: Some(vec![
                ColumnInfo {
                    name: "id".to_string(),
                    data_type: "VARCHAR".to_string(),
                    nullable: false,
                },
                ColumnInfo {
                    name: "tps".to_string(),
                    data_type: "DOUBLE".to_string(),
                    nullable: true,
                },
            ]),
        },
        TableInfo {
            name: "other".to_string(),
            exists: false,
            schema: None,
        },
    ];
    assert_eq!(
        format_tables_list(&tables),
        "Available tables:\n\n  llms (cached)\n    Columns:\n      - id VARCHAR NOT NULL\n      - tps DOUBLE NULL\n\n  other (not cached)\n\nTo cache a table, run the corresponding command:\n  aa llms           -> llms\n  aa text-to-image  -> text_to_image\n  aa image-editing  -> image_editing\n  aa text-to-speech -> text_to_speech\n  aa text-to-video  -> text_to_video\n  aa image-to-video -> image_to_video\n"
    );
}

#[test]
fn schemas_by_table_name() {
    let llms = get_schema("llms").unwrap();
    assert_eq!(llms.name, "llms");
    assert_eq!(llms.columns.len(), 35);
    for name in [
        "text_to_image",
        "image_editing",
        "text_to_speech",
        "text_to_video",
        "image_to_video",
    ] {
        let media = get_schema(name).unwrap();
        assert_eq!(media.name, "media");
        assert_eq!(media.columns.len(), 7);
        assert_eq!(media.columns[4].name, "elo");
    }
    assert!(get_schema("LLMS").is_none());
    assert!(get_schema("media").is_none());
}

#[test]
fn values_are_shown_by_kind() {
    assert_eq!(render_value(&SqlValue::Null), "");
    assert_eq!(render_value(&SqlValue::Boolean(true)), "true");
    assert_eq!(render_value(&SqlValue::Boolean(false)), "false");
    assert_eq!(render_value(&SqlValue::Integer(0)), "0");
    assert_eq!(render_value(&SqlValue::Integer(-42)), "-42");
    assert_eq!(
        render_value(&SqlValue::Integer(i128::MIN)),
        i128::MIN.to_string()
    );
    assert_eq!(
        render_value(&SqlValue::Integer(i128::MAX)),
        i128::MAX.to_string()
    );
    assert_eq!(
        render_value(&SqlValue::Real(Double::from_bits(62.9f64.to_bits()))),
        "62.90"
    );
    assert_eq!(
        render_value(&SqlValue::Real(Double::from_bits(0.125f64.to_bits()))),
        format!("{:.2}", 0.125f64)
    );
    assert_eq!(render_value(&SqlValue::Text("o3-mini".to_string())), "o3-mini");
    assert_eq!(render_value(&SqlValue::Other("[1, 2]".to_string())), "[1, 2]");
}

#[test]
fn materialize_gives_one_cell_per_column() {
    let rows = vec![
        vec![
            SqlValue::Text("a".to_string()),
            SqlValue::Integer(7),
            SqlValue::Null,
        ],
        vec![SqlValue::Boolean(true)],
    ];
    let result = materialize(vec!["x".to_string(), "y".to_string()], &rows);
    assert_eq!(result.columns, vec!["x".to_string(), "y".to_string()]);
    assert_eq!(
        result.rows,
        vec![
            vec!["a".to_string(), "7".to_string()],
            vec!["true".to_string(), String::new()],
        ]
    );
}

fn failure(stage: QueryStage, msg: &str) -> String {
    match query_failure(stage, msg) {
        which_llm::error::AppError::Query(text) => text,
        _ => panic!("expected a query error"),
    }
}

#[test]
fn engine_failures_are_told_apart() {
    assert_eq!(failure(QueryStage::Connect, "no"), "DuckDB error: no");
    assert_eq!(
        failure(QueryStage::Prepare, "Parser Error: syntax error at end of input"),
        "SQL syntax error: Parser Error: syntax error at end of input"
    );
    assert_eq!(
        failure(QueryStage::Prepare, "Table with name x does not exist!"),
        "Table or column not found. Use 'aa query --tables' to see available tables and columns.\nError: Table with name x does not exist!"
    );
    assert_eq!(
        failure(QueryStage::Prepare, "column not found"),
        "Table or column not found. Use 'aa query --tables' to see available tables and columns.\nError: column not found"
    );
    assert_eq!(
        failure(QueryStage::Prepare, "conversion failed"),
        "SQL error: conversion failed"
    );
    assert_eq!(failure(QueryStage::Run, "boom"), "Query error: boom");
    assert_eq!(failure(QueryStage::Fetch, "boom"), "Row error: boom");
    assert_eq!(
        query_failure(QueryStage::Run, "boom").message(),
        "Query error: Query error: boom"
    );
}
