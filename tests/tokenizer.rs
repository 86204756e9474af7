use bundle_repo::tokenizer::{get_tokenizer_json, BpeTable, Model, TokenizerType};
use std::str::FromStr;

#[test]
fn test_model_from_str_valid() {
    assert!(matches!(Model::from_str("gpt4o"), Ok(Model::GPT4o)));
    assert!(matches!(Model::from_str("gpt4"), Ok(Model::GPT4)));
    assert!(matches!(Model::from_str("gpt3.5"), Ok(Model::GPT3_5)));
    assert!(matches!(Model::from_str("gpt3"), Ok(Model::GPT3)));
    assert!(matches!(Model::from_str("gpt2"), Ok(Model::GPT2)));
    assert!(matches!(Model::from_str("deepseek"), Ok(Model::DeepSeek)));
}

#[test]
fn test_model_from_str_case_insensitive() {
    assert!(matches!(Model::from_str("GPT4O"), Ok(Model::GPT4o)));
    assert!(matches!(Model::from_str("DEEPSEEK"), Ok(Model::DeepSeek)));
}

#[test]
fn test_model_display_names() {
    assert_eq!(Model::DeepSeek.display_name(), "DeepSeek");
}

#[test]
fn test_deepseek_model_conversion() {
    assert!(matches!(Model::from_str("deepseek"), Ok(Model::DeepSeek)));
    assert!(matches!(Model::from_str("DEEPSEEK"), Ok(Model::DeepSeek)));
    assert!(matches!(Model::from_str("DeepSeek"), Ok(Model::DeepSeek)));

    assert_eq!(Model::DeepSeek.display_name(), "DeepSeek");
}

#[test]
fn test_model_parsing() {
    let model = Model::from_str("gpt2").unwrap();
    assert!(matches!(model, Model::GPT2));

    let invalid = Model::from_str("invalid_model");
    assert!(invalid.is_err());
}

#[test]
fn test_model_parsing_error() {
    let result = Model::from_str("invalid_model");
    assert!(result.is_err());
    let err = result.unwrap_err();
    println!("Error: {}", err);
    assert!(err.contains("Unsupported model"));
}

#[test]
fn unsupported_model_message_names_the_input() {
    assert_eq!(
        Model::from_str("llama").unwrap_err(),
        "ERROR: Unsupported model: llama"
    );
}

#[test]
fn display_names_of_all_models() {
    assert_eq!(Model::GPT4o.display_name(), "GPT-4o");
    assert_eq!(Model::GPT4.display_name(), "GPT-4");
    assert_eq!(Model::GPT3_5.display_name(), "GPT-3.5");
    assert_eq!(Model::GPT3.display_name(), "GPT-3");
    assert_eq!(Model::GPT2.display_name(), "GPT-2");
}

#[test]
fn models_share_tables() {
    let gpt4 = Model::GPT4.to_tokenizer(None).unwrap();
    let gpt35 = Model::GPT3_5.to_tokenizer(None).unwrap();
    assert!(matches!(gpt4, TokenizerType::GPT(_, BpeTable::Cl100k)));
    assert!(matches!(gpt35, TokenizerType::GPT(_, BpeTable::Cl100k)));
    let gpt2 = Model::GPT2.to_tokenizer(None).unwrap();
    assert!(matches!(gpt2, TokenizerType::GPT(_, BpeTable::R50k)));
}

#[test]
fn gpt_tokenizer_counts_tokens() {
    let gpt4 = Model::GPT4.to_tokenizer(None).unwrap();
    let count = gpt4.count_tokens("Hello, world!").unwrap();
    assert!(count > 0);
    assert_eq!(gpt4.count_tokens("").unwrap(), 0);
}

#[test]
fn deepseek_without_its_description_fails_to_load() {
    let result = Model::DeepSeek.to_tokenizer(None);
    assert!(result.is_err());
    assert_eq!(
        get_tokenizer_json(None).unwrap_err(),
        "DeepSeek tokenizer.json not found in embedded resources"
    );
    assert_eq!(get_tokenizer_json(Some(vec![1, 2])).unwrap(), vec![1, 2]);
}

#[test]
fn deepseek_with_a_broken_description_reports_it() {
    let result = Model::DeepSeek.to_tokenizer(Some(b"not json".to_vec()));
    match result {
        Err(e) => assert!(e.starts_with("Failed to load DeepSeek tokenizer: ")),
        Ok(_) => panic!("a broken description must not load"),
    }
}

#[test]
fn lower_case_selectors_name_models() {
    assert_eq!(Model::from_lower_name("gpt3.5", "GPT3.5"), Ok(Model::GPT3_5));
    assert_eq!(
        Model::from_lower_name("gpt5", "GPT5"),
        Err("ERROR: Unsupported model: GPT5".to_string())
    );
}
