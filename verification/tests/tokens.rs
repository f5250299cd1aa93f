use which_llm::error::AppError;
use which_llm::utils::tokens::parse_tokens;

#[test]
fn test_plain_numbers() {
    assert_eq!(parse_tokens("0").unwrap(), 0);
    assert_eq!(parse_tokens("100").unwrap(), 100);
    assert_eq!(parse_tokens("10000").unwrap(), 10000);
    assert_eq!(parse_tokens("1000000").unwrap(), 1000000);
}

#[test]
fn test_thousands() {
    assert_eq!(parse_tokens("1k").unwrap(), 1000);
    assert_eq!(parse_tokens("10k").unwrap(), 10000);
    assert_eq!(parse_tokens("10K").unwrap(), 10000);
    assert_eq!(parse_tokens("100k").unwrap(), 100000);
    assert_eq!(parse_tokens("1.5k").unwrap(), 1500);
}

#[test]
fn test_millions() {
    assert_eq!(parse_tokens("1m").unwrap(), 1000000);
    assert_eq!(parse_tokens("1M").unwrap(), 1000000);
    assert_eq!(parse_tokens("10M").unwrap(), 10000000);
    assert_eq!(parse_tokens("1.5M").unwrap(), 1500000);
    assert_eq!(parse_tokens("0.5M").unwrap(), 500000);
}

#[test]
fn test_billions() {
    assert_eq!(parse_tokens("1b").unwrap(), 1000000000);
    assert_eq!(parse_tokens("1B").unwrap(), 1000000000);
}

#[test]
fn test_whitespace() {
    assert_eq!(parse_tokens(" 10k ").unwrap(), 10000);
    assert_eq!(parse_tokens("  1M  ").unwrap(), 1000000);
}

#[test]
fn test_invalid() {
    assert!(parse_tokens("").is_err());
    assert!(parse_tokens("abc").is_err());
    assert!(parse_tokens("10x").is_err());
    assert!(parse_tokens("-10k").is_err());
}

fn config_text(input: &str) -> String {
    match parse_tokens(input) {
        Err(AppError::Config(text)) => text,
        _ => panic!("expected a configuration error"),
    }
}

#[test]
fn faults_are_reported_by_kind() {
    assert_eq!(config_text(""), "Empty token count");
    assert_eq!(config_text(" \t\n"), "Empty token count");
    assert_eq!(
        config_text(" 10x "),
        "Invalid token count '10x': could not parse number"
    );
    assert_eq!(
        config_text("k"),
        "Invalid token count 'k': could not parse number"
    );
    assert_eq!(
        config_text("."),
        "Invalid token count '.': could not parse number"
    );
    assert_eq!(
        config_text("1.2.3"),
        "Invalid token count '1.2.3': could not parse number"
    );
    assert_eq!(
        config_text("-10k"),
        "Invalid token count '-10k': must be positive"
    );
    assert_eq!(
        config_text("-0.001"),
        "Invalid token count '-0.001': must be positive"
    );
}

#[test]
fn fractions_are_rounded_half_up() {
    assert_eq!(parse_tokens("0.4").unwrap(), 0);
    assert_eq!(parse_tokens("0.5").unwrap(), 1);
    assert_eq!(parse_tokens("2.5").unwrap(), 3);
    assert_eq!(parse_tokens("1.2345k").unwrap(), 1235);
    assert_eq!(parse_tokens("1.2344k").unwrap(), 1234);
    assert_eq!(parse_tokens("0.0000000004b").unwrap(), 0);
    assert_eq!(parse_tokens("0.0000000005b").unwrap(), 1);
    assert_eq!(parse_tokens(".5k").unwrap(), 500);
    assert_eq!(parse_tokens("5.").unwrap(), 5);
    assert_eq!(parse_tokens("+7m").unwrap(), 7000000);
    assert_eq!(parse_tokens("-0").unwrap(), 0);
    assert_eq!(parse_tokens("007").unwrap(), 7);
}

#[test]
fn counts_stop_at_the_largest_number() {
    assert_eq!(
        parse_tokens("18446744073709551615").unwrap(),
        u64::MAX
    );
    assert_eq!(
        parse_tokens("18446744073709551614.5").unwrap(),
        u64::MAX
    );
    assert_eq!(parse_tokens("18446744073709551616").unwrap(), u64::MAX);
    assert_eq!(parse_tokens("99999999999999999999b").unwrap(), u64::MAX);
    assert_eq!(
        parse_tokens("18446744073.709551615b").unwrap(),
        u64::MAX
    );
    assert_eq!(
        parse_tokens("18446744073.709551614b").unwrap(),
        u64::MAX - 1
    );
}

#[test]
fn plain_counts_agree_with_the_arithmetic_of_fractions() {
    for (text, number, unit) in [
        ("10k", 10.0f64, 1_000.0f64),
        ("1.5M", 1.5, 1_000_000.0),
        ("1b", 1.0, 1_000_000_000.0),
        ("0.25k", 0.25, 1_000.0),
        ("123.456k", 123.456, 1_000.0),
    ] {
        assert_eq!(parse_tokens(text).unwrap(), (number * unit).round() as u64);
    }
}
