use std::collections::HashMap;

use hemtt_config::error::Error;
use hemtt_config::hemtt::Features;
use hemtt_config::project::{Configuration, Document};
use hemtt_config::signing;
use hemtt_config::version;

fn pairs(list: &[(&str, &str)]) -> Vec<(String, String)> {
    list.iter().map(|(key, value)| (key.to_string(), value.to_string())).collect()
}

fn bare(name: &str, prefix: Option<&str>) -> Document {
    Document {
        name: name.to_string(),
        prefix: prefix.map(|text| text.to_string()),
        mainprefix: None,
        version: None,
        headers: None,
        files: None,
        hemtt: None,
        signing: None,
    }
}

fn full() -> Document {
    let mut headers = HashMap::new();
    headers.insert("author".to_string(), "ACE Team".to_string());
    headers.insert("url".to_string(), "https://example.org".to_string());
    Document {
        name: "Advanced Banana Environment".to_string(),
        prefix: Some("abe".to_string()),
        mainprefix: Some("z".to_string()),
        version: Some(version::Options::new(pairs(&[("git_hash", "6")]))),
        headers: Some(headers),
        files: Some(vec!["b.txt".to_string(), "a.txt".to_string()]),
        hemtt: Some(Features::new(pairs(&[("pbo_prefix_allow_leading_slash", "true")]))),
        signing: Some(signing::Options::new(pairs(&[("authority", "\"abe\"")]))),
    }
}

#[test]
fn document_with_prefix_loads_with_its_values() {
    let document = full();
    let config = Configuration::load(Ok(document.clone())).unwrap();
    assert_eq!(config.name(), "Advanced Banana Environment");
    assert_eq!(config.prefix(), "abe");
    assert_eq!(config.mainprefix(), Some(&"z".to_string()));
    assert_eq!(config.version(), &document.version.unwrap());
    assert_eq!(config.version().settings(), &pairs(&[("git_hash", "6")]));
    assert_eq!(config.headers(), &document.headers.unwrap());
    assert_eq!(config.headers().len(), 2);
    assert_eq!(config.headers().get("author"), Some(&"ACE Team".to_string()));
    assert_eq!(config.declared_files(), &vec!["b.txt".to_string(), "a.txt".to_string()]);
    assert_eq!(config.hemtt(), &document.hemtt.unwrap());
    assert_eq!(config.hemtt().toggles(), &pairs(&[("pbo_prefix_allow_leading_slash", "true")]));
    assert_eq!(config.signing(), &document.signing.unwrap());
    assert_eq!(config.signing().settings(), &pairs(&[("authority", "\"abe\"")]));
}

#[test]
fn omitted_keys_load_as_defaults() {
    let config = Configuration::load(Ok(bare("Example", Some("ex")))).unwrap();
    assert_eq!(config.name(), "Example");
    assert_eq!(config.prefix(), "ex");
    assert_eq!(config.mainprefix(), None);
    assert_eq!(config.version(), &version::Options::default());
    assert!(config.version().settings().is_empty());
    assert!(config.headers().is_empty());
    assert!(config.declared_files().is_empty());
    assert_eq!(config.hemtt(), &Features::default());
    assert!(config.hemtt().toggles().is_empty());
    assert_eq!(config.signing(), &signing::Options::default());
    assert!(config.signing().settings().is_empty());
}

#[test]
fn empty_prefix_is_refused() {
    let result = Configuration::load(Ok(bare("Example", Some(""))));
    assert_eq!(result.unwrap_err(), Error::Validation("prefix cannot be empty".to_string()));
}

#[test]
fn missing_prefix_is_refused() {
    let result = Configuration::load(Ok(bare("Example", None)));
    assert_eq!(result.unwrap_err(), Error::Validation("prefix cannot be empty".to_string()));
}

#[test]
fn full_document_without_prefix_is_refused() {
    let mut document = full();
    document.prefix = Some(String::new());
    let error = Configuration::load(Ok(document)).unwrap_err();
    assert!(matches!(error, Error::Validation(_)));
    assert_eq!(error.message(), "prefix cannot be empty");
}

#[test]
fn parse_error_is_handed_on() {
    let error = Error::Parse("expected an equals, found a newline at line 1 column 5".to_string());
    let result = Configuration::load(Err(error.clone()));
    assert_eq!(result.unwrap_err(), error);
}

#[test]
fn io_error_is_handed_on() {
    let error = Error::Io("No such file or directory (os error 2)".to_string());
    let result = Configuration::load(Err(error.clone()));
    assert_eq!(result.unwrap_err(), error);
}

#[test]
fn only_the_prefix_is_checked() {
    let mut document = bare("", Some("p"));
    document.mainprefix = Some(String::new());
    let mut headers = HashMap::new();
    headers.insert(String::new(), String::new());
    document.headers = Some(headers);
    let config = Configuration::load(Ok(document)).unwrap();
    assert_eq!(config.name(), "");
    assert_eq!(config.mainprefix(), Some(&String::new()));
    assert_eq!(config.headers().get(""), Some(&String::new()));
}

#[test]
fn from_document_applies_no_rule() {
    let config = Configuration::from_document(bare("Example", None));
    assert_eq!(config.name(), "Example");
    assert_eq!(config.prefix(), "");
    let config = Configuration::from_document(bare("Example", Some("")));
    assert_eq!(config.prefix(), "");
}

#[test]
fn validate_hands_back_a_configuration_with_prefix() {
    let config = Configuration::from_document(full());
    let checked = config.validate().unwrap();
    assert_eq!(checked.name(), "Advanced Banana Environment");
    assert_eq!(checked.prefix(), "abe");
    assert_eq!(checked.headers().len(), 2);
}

#[test]
fn validate_refuses_a_configuration_without_prefix() {
    let config = Configuration::from_document(bare("Example", None));
    assert_eq!(
        config.validate().unwrap_err(),
        Error::Validation("prefix cannot be empty".to_string())
    );
}

#[test]
fn error_message_is_the_diagnostic() {
    assert_eq!(Error::Io("a".to_string()).message(), "a");
    assert_eq!(Error::Parse("b".to_string()).message(), "b");
    assert_eq!(Error::Validation("c".to_string()).message(), "c");
}

#[test]
fn sections_keep_their_settings_in_order() {
    let given = pairs(&[("path", "\"addons/main/script_version.hpp\""), ("git_hash", "8")]);
    assert_eq!(version::Options::new(given.clone()).settings(), &given);
    assert_eq!(signing::Options::new(given.clone()).settings(), &given);
    assert_eq!(Features::new(given.clone()).toggles(), &given);
}
