use which_llm::models::llm::LlmModel;
use which_llm::utils::matching::{
    filter_models_by_creator, filter_models_by_name, find_models_by_names,
};

fn make_model(id: &str, name: &str, slug: &str, creator: &str) -> LlmModel {
    LlmModel {
        id: id.to_string(),
        name: name.to_string(),
        slug: slug.to_string(),
        creator: creator.to_string(),
        creator_slug: Some(creator.to_lowercase()),
        ..Default::default()
    }
}

#[test]
fn test_filter_by_name() {
    let models = vec![
        make_model("1", "GPT-5 (high)", "gpt-5-high", "OpenAI"),
        make_model("2", "GPT-5 (low)", "gpt-5-low", "OpenAI"),
        make_model("3", "Mistral Large 2", "mistral-large-2", "Mistral"),
    ];

    let matches = filter_models_by_name(&models, "gpt-5");
    assert_eq!(matches.len(), 2);

    let matches = filter_models_by_name(&models, "Mistral");
    assert_eq!(matches.len(), 1);
    assert_eq!(matches[0].name, "Mistral Large 2");
}

#[test]
fn test_filter_by_creator() {
    let models = vec![
        make_model("1", "GPT-5", "gpt-5", "OpenAI"),
        make_model("2", "Mistral 4.5", "mistral-4.5", "Mistral"),
        make_model("3", "Gemini 2.5", "gemini-2.5", "Google"),
    ];

    let matches = filter_models_by_creator(&models, "openai");
    assert_eq!(matches.len(), 1);
    assert_eq!(matches[0].creator, "OpenAI");
}

#[test]
fn test_find_by_multiple_names() {
    let models = vec![
        make_model("1", "GPT-5", "gpt-5", "OpenAI"),
        make_model("2", "Mistral 4.5", "mistral-4.5", "Mistral"),
        make_model("3", "Gemini 2.5", "gemini-2.5", "Google"),
    ];

    let searches = vec!["gpt".to_string(), "mistral".to_string()];
    let matches = find_models_by_names(&models, &searches);
    assert_eq!(matches.len(), 2);
}

#[test]
fn slugs_match_as_written_and_names_in_any_case() {
    let models = vec![
        make_model("1", "GPT-5", "gpt-5", "OpenAI"),
        make_model("2", "ÉCLAIR", "eclair", "Pâtisserie"),
    ];
    assert_eq!(filter_models_by_name(&models, "GPT").len(), 1);
    assert_eq!(filter_models_by_name(&models, "Gpt-5").len(), 1);
    assert_eq!(filter_models_by_name(&models, "éclair").len(), 1);
    assert_eq!(filter_models_by_name(&models, "ECLAIR").len(), 0);
    assert_eq!(filter_models_by_name(&models, "").len(), 2);
    assert_eq!(filter_models_by_name(&models, "x").len(), 0);
    assert_eq!(filter_models_by_creator(&models, "PÂT").len(), 1);
    assert_eq!(filter_models_by_creator(&models, "pât").len(), 1);
    let mut nobody = make_model("3", "N", "n", "Nobody");
    nobody.creator_slug = None;
    assert_eq!(filter_models_by_creator(&[nobody], "nobody").len(), 1);
}

#[test]
fn models_are_found_once_in_the_order_first_found() {
    let models = vec![
        make_model("1", "GPT-5", "gpt-5", "OpenAI"),
        make_model("2", "Mistral 4.5", "mistral-4.5", "Mistral"),
        make_model("3", "GPT-5 mini", "gpt-5-mini", "OpenAI"),
        make_model("1", "Copy of GPT-5", "gpt-5-copy", "OpenAI"),
    ];
    let searches = vec![
        "mistral".to_string(),
        "gpt".to_string(),
        "mini".to_string(),
        "nothing".to_string(),
    ];
    let found = find_models_by_names(&models, &searches);
    let names: Vec<&str> = found.iter().map(|m| m.name.as_str()).collect();
    assert_eq!(names, vec!["Mistral 4.5", "GPT-5", "GPT-5 mini"]);
    assert!(find_models_by_names(&models, &[]).is_empty());
    assert!(find_models_by_names(&[], &searches).is_empty());
}
