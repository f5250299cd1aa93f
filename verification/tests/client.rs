use which_llm::cache::Cache;
use which_llm::client::{
    extract_quota, judge_catalog_response, judge_response, parse_count, plan_request, QuotaInfo,
    API_BASE, LLM_MODELS, MODELS_DEV_API, TEXT_TO_IMAGE,
};
use which_llm::error::AppError;

#[test]
fn a_request_looks_into_the_cache_unless_refreshing() {
    let plan = plan_request(LLM_MODELS, &[], false);
    assert!(plan.read_cache);
    assert_eq!(plan.url, "https://artificialanalysis.ai/api/v2/data/llms/models");
    assert_eq!(plan.cache_key, Cache::cache_key("/data/llms/models", &[]));
    assert!(plan.query.is_empty());
    let forced = plan_request(TEXT_TO_IMAGE, &[("a", "b"), ("c", "")], true);
    assert!(!forced.read_cache);
    assert_eq!(
        forced.query,
        vec![
            ("a".to_string(), "b".to_string()),
            ("c".to_string(), String::new())
        ]
    );
    assert_eq!(forced.url, format!("{API_BASE}/data/media/text-to-image"));
    assert_eq!(
        forced.cache_key,
        Cache::cache_key("/data/media/text-to-image", &[("a", "b"), ("c", "")])
    );
    assert_eq!(MODELS_DEV_API, "https://models.dev/api.json");
}

#[test]
fn counts_are_digits_within_sixty_four_bits() {
    for text in [
        "0",
        "7",
        "+7",
        "007",
        "1000",
        "18446744073709551615",
        "18446744073709551616",
        "99999999999999999999999",
        "",
        "+",
        "-1",
        "1 ",
        " 1",
        "1.0",
        "1e3",
        "++1",
        "１",
    ] {
        assert_eq!(parse_count(text), text.parse::<u64>().ok(), "{text:?}");
    }
    assert_eq!(parse_count("1000"), Some(1000));
    assert_eq!(parse_count("18446744073709551615"), Some(u64::MAX));
    assert_eq!(parse_count("18446744073709551616"), None);
}

#[test]
fn the_allowance_needs_limit_and_remainder() {
    let q = extract_quota(Some("1000"), Some("998"), Some("2024-01-01T00:00:00Z"), 17).unwrap();
    assert_eq!(q.limit, 1000);
    assert_eq!(q.remaining, 998);
    assert_eq!(q.reset, "2024-01-01T00:00:00Z");
    assert_eq!(q.updated_at, 17);
    let q = extract_quota(Some("5"), Some("0"), None, -1).unwrap();
    assert_eq!(q.reset, "unknown");
    assert!(extract_quota(None, Some("1"), Some("r"), 0).is_none());
    assert!(extract_quota(Some("1"), None, Some("r"), 0).is_none());
    assert!(extract_quota(Some("x"), Some("1"), None, 0).is_none());
    assert!(extract_quota(Some("1"), Some("1.5"), None, 0).is_none());
}

fn quota(reset: &str) -> Option<QuotaInfo> {
    Some(QuotaInfo {
        limit: 1,
        remaining: 0,
        reset: reset.to_string(),
        updated_at: 0,
    })
}

#[test]
fn answers_are_judged_by_status() {
    for status in [200u16, 201, 204, 299] {
        assert!(judge_response(status, &None, "body").is_ok());
        assert!(judge_catalog_response(status, "body").is_ok());
    }
    assert!(matches!(
        judge_response(401, &None, "b"),
        Err(AppError::InvalidApiKey)
    ));
    assert!(matches!(
        judge_response(429, &quota("soon"), "b"),
        Err(AppError::RateLimited(r)) if r == "soon"
    ));
    assert!(matches!(
        judge_response(429, &None, "b"),
        Err(AppError::RateLimited(r)) if r == "unknown"
    ));
    for status in [500u16, 502, 599] {
        assert!(matches!(
            judge_response(status, &None, "b"),
            Err(AppError::ServerError)
        ));
    }
    for status in [0u16, 199, 300, 404, 600, u16::MAX] {
        assert!(matches!(
            judge_response(status, &quota("r"), "the body"),
            Err(AppError::Api { status: s, message }) if s == status && message == "the body"
        ));
    }
    assert!(matches!(
        judge_catalog_response(503, "down"),
        Err(AppError::Api { status: 503, message }) if message == "models.dev API error: down"
    ));
    assert!(matches!(
        judge_catalog_response(401, ""),
        Err(AppError::Api { status: 401, message }) if message == "models.dev API error: "
    ));
}

#[test]
fn errors_are_reported_by_category() {
    assert_eq!(
        AppError::Config("bad".to_string()).message(),
        "Configuration error: bad"
    );
    assert_eq!(AppError::NotFound("x".to_string()).message(), "Not found: x");
    assert_eq!(AppError::InvalidApiKey.message(), "Invalid API key");
    assert_eq!(
        AppError::RateLimited("soon".to_string()).message(),
        "Rate limited. Resets at: soon"
    );
    assert_eq!(AppError::ServerError.message(), "Server error");
    assert_eq!(
        AppError::Api {
            status: 404,
            message: "gone".to_string()
        }
        .message(),
        "API error (404): gone"
    );
    assert_eq!(
        AppError::Api {
            status: 0,
            message: String::new()
        }
        .message(),
        "API error (0): "
    );
    assert_eq!(AppError::Cache("io".to_string()).message(), "Cache error: io");
    assert_eq!(AppError::Query("q".to_string()).message(), "Query error: q");
}
