use which_llm::error::AppError;
use which_llm::query::QueryExecutor;

fn executor_with(tables: &[&str]) -> QueryExecutor {
    let mut executor = QueryExecutor::new("/data/cache".to_string());
    for t in tables {
        assert!(executor.mark_cached(t));
    }
    executor
}

#[test]
fn test_substitute_aliases_basic() {
    let executor = executor_with(&["llms"]);
    let sql = "SELECT * FROM llms WHERE intelligence > 40";
    let result = executor.substitute_aliases(sql).unwrap();

    assert!(result.contains("read_parquet("));
    assert!(result.contains("llms.parquet"));
    assert!(!result.contains("FROM llms"));
    assert_eq!(
        result,
        "SELECT * FROM read_parquet('/data/cache/llms.parquet') WHERE intelligence > 40"
    );
}

#[test]
fn test_substitute_aliases_missing_table() {
    let executor = executor_with(&[]);
    let sql = "SELECT * FROM llms";
    let result = executor.substitute_aliases(sql);

    assert!(result.is_err());
    let err = result.unwrap_err().message();
    assert!(err.contains("not found"));
    assert!(err.contains("aa llms"));
}

#[test]
fn substitute_keeps_columns_and_literals() {
    let executor = executor_with(&["llms"]);
    let sql = "SELECT llms_id, 'from llms' FROM llms WHERE name = 'join llms'";
    let result = executor.substitute_aliases(sql).unwrap();
    assert_eq!(
        result,
        "SELECT llms_id, 'from llms' FROM read_parquet('/data/cache/llms.parquet') WHERE name = 'join llms'"
    );
}

#[test]
fn substitute_is_case_insensitive_and_handles_lists() {
    let executor = executor_with(&["llms", "text_to_image"]);
    let sql = "select a from LLMS l\njoin Text_To_Image t on l.id = t.id, llms";
    let result = executor.substitute_aliases(sql).unwrap();
    assert_eq!(
        result,
        "select a from read_parquet('/data/cache/llms.parquet') l\njoin read_parquet('/data/cache/text_to_image.parquet') t on l.id = t.id, read_parquet('/data/cache/llms.parquet')"
    );
}

#[test]
fn substitute_reports_first_missing_table_in_table_order() {
    let executor = executor_with(&["llms"]);
    let sql = "SELECT * FROM image_to_video JOIN text_to_video JOIN llms";
    match executor.substitute_aliases(sql) {
        Err(AppError::Query(m)) => assert_eq!(
            m,
            "Table 'text_to_video' not found. Run 'aa text-to-video' first to fetch and cache the data."
        ),
        _ => panic!("expected a query error"),
    }
}

#[test]
fn substitute_leaves_other_queries_alone() {
    let executor = executor_with(&[]);
    let sql = "SELECT llms, \"from\" llms FROM other -- text";
    assert_eq!(executor.substitute_aliases(sql).unwrap(), sql);
}

#[test]
fn substitute_doubles_quotes_and_turns_backslashes() {
    let mut executor = QueryExecutor::new("C:\\it's".to_string());
    executor.mark_cached("llms");
    assert_eq!(
        executor.substitute_aliases("SELECT 1 FROM llms").unwrap(),
        "SELECT 1 FROM read_parquet('C:/it''s/llms.parquet')"
    );
}

#[test]
fn mark_cached_rejects_unknown_names() {
    let mut executor = QueryExecutor::new(String::new());
    assert!(!executor.mark_cached("benchmarks"));
    assert!(executor.mark_cached("image_editing"));
    assert_eq!(
        executor.substitute_aliases("x from image_editing").unwrap(),
        "x from read_parquet('image_editing.parquet')"
    );
}
