use performance_mark::config::{parse_config, AttrToken, Config, ConfigError};

fn ident(s: &str) -> AttrToken {
    AttrToken::Ident(s.to_string())
}

fn other(s: &str) -> AttrToken {
    AttrToken::Other(s.to_string())
}

#[test]
fn empty_attribute_is_default_config() {
    let r = parse_config(&vec![]);
    assert_eq!(r, Ok(Config { callback: None, is_async: false }));
}

#[test]
fn single_identifier_is_callback() {
    let r = parse_config(&vec![ident("log_it")]);
    assert_eq!(r, Ok(Config { callback: Some("log_it".to_string()), is_async: false }));
}

#[test]
fn async_marker_alone() {
    let r = parse_config(&vec![ident("async")]);
    assert_eq!(r, Ok(Config { callback: None, is_async: true }));
}

#[test]
fn async_marker_then_callback() {
    let r = parse_config(&vec![ident("async"), ident("log_it")]);
    assert_eq!(r, Ok(Config { callback: Some("log_it".to_string()), is_async: true }));
}

#[test]
fn callback_then_async_marker() {
    let r = parse_config(&vec![ident("log_it"), ident("async")]);
    assert_eq!(r, Ok(Config { callback: Some("log_it".to_string()), is_async: true }));
}

#[test]
fn repeated_async_marker_is_tolerated() {
    let r = parse_config(&vec![ident("async"), ident("async")]);
    assert_eq!(r, Ok(Config { callback: None, is_async: true }));
}

#[test]
fn second_identifier_is_rejected() {
    let r = parse_config(&vec![ident("log_it"), ident("extra")]);
    assert_eq!(r, Err(ConfigError { index: 1 }));
}

#[test]
fn non_identifier_token_is_rejected() {
    let r = parse_config(&vec![other("=")]);
    assert_eq!(r, Err(ConfigError { index: 0 }));
}

#[test]
fn second_identifier_after_async_is_rejected() {
    let r = parse_config(&vec![ident("async"), ident("log_it"), ident("extra")]);
    assert_eq!(r, Err(ConfigError { index: 2 }));
}

#[test]
fn first_offending_token_is_reported() {
    let r = parse_config(&vec![ident("log_it"), other(","), other("=")]);
    assert_eq!(r, Err(ConfigError { index: 1 }));
}
