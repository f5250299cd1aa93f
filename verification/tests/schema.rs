use which_llm::schema::{
    all_tables, benchmarks, get_table_def, image_editing, llms, models_dev, text_to_image,
};

#[test]
fn test_create_table_sql() {
    let sql = llms().create_table_sql();
    assert!(sql.contains("CREATE TABLE llms"));
    assert!(sql.contains("id VARCHAR NOT NULL"));
    assert!(sql.contains("intelligence DOUBLE"));
}

#[test]
fn test_media_tables_share_schema() {
    assert_eq!(text_to_image().columns.len(), image_editing().columns.len());
    assert_eq!(
        text_to_image().columns[0].name,
        image_editing().columns[0].name
    );
}

#[test]
fn test_get_table_def() {
    assert!(get_table_def("llms").is_some());
    assert!(get_table_def("text_to_image").is_some());
    assert!(get_table_def("unknown").is_none());
}

#[test]
fn test_all_tables_count() {
    assert_eq!(all_tables().len(), 6);
}

#[test]
fn create_table_sql_is_exact_for_the_media_schema() {
    assert_eq!(
        image_editing().create_table_sql(),
        "CREATE TABLE image_editing (\n    id VARCHAR NOT NULL,\n    name VARCHAR NOT NULL,\n    slug VARCHAR NOT NULL,\n    creator VARCHAR NOT NULL,\n    elo DOUBLE,\n    rank INTEGER,\n    release_date VARCHAR\n)"
    );
}

#[test]
fn tables_come_in_their_fixed_order_with_command_and_file() {
    let tables = all_tables();
    let names: Vec<&str> = tables.iter().map(|t| t.name).collect();
    assert_eq!(
        names,
        vec![
            "llms",
            "text_to_image",
            "image_editing",
            "text_to_speech",
            "text_to_video",
            "image_to_video"
        ]
    );
    assert_eq!(tables[3].command, "aa text-to-speech");
    assert_eq!(tables[3].parquet_file, "text_to_speech.parquet");
    let def = get_table_def("image_to_video").unwrap();
    assert_eq!(def.command, "aa image-to-video");
    assert_eq!(def.columns.len(), 7);
}

#[test]
fn raw_tables_are_not_queryable() {
    assert!(get_table_def("benchmarks").is_none());
    assert!(get_table_def("models_dev").is_none());
    assert_eq!(benchmarks().columns.len(), 21);
    assert_eq!(models_dev().columns.len(), 22);
    assert_eq!(models_dev().command, "");
    assert_eq!(llms().columns.len(), 35);
    assert!(!llms().columns[34].nullable);
    assert_eq!(llms().columns[34].name, "models_dev_matched");
}
