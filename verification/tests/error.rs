use chetter_app::error::{ChetterError, GraphqlError, GraphqlErrors};
use std::io::Error;

fn graphql(messages: &[&str]) -> GraphqlErrors {
    GraphqlErrors {
        errors: messages
            .iter()
            .map(|m| GraphqlError {
                message: m.to_string(),
            })
            .collect(),
    }
}

#[test]
fn display_error() {
    let err = ChetterError::IOError(Error::from_raw_os_error(2));
    assert_eq!("No such file or directory (os error 2)", err.to_string());
}

#[test]
fn graphql_errors() {
    let err = ChetterError::GithubGraphqlError(graphql(&["msg1", "msg2"]));
    assert_eq!("GraphQL Errors: msg1 | msg2", err.to_string());
}

#[test]
fn graphql_errors_one_message_has_no_bar() {
    let err = ChetterError::GithubGraphqlError(graphql(&["only"]));
    assert_eq!("GraphQL Errors: only", err.to_string());
}

#[test]
fn graphql_errors_without_messages() {
    let err = ChetterError::GithubGraphqlError(graphql(&[]));
    assert_eq!("GraphQL Errors: ", err.to_string());
    assert_eq!("GraphQL Errors: ", graphql(&[]).to_string());
}

#[test]
fn parse_error_is_its_message() {
    let err = ChetterError::GithubParseError("missing .repository".to_string());
    assert_eq!("missing .repository", err.to_string());
}

#[test]
fn io_error_converts() {
    let err: ChetterError = Error::from_raw_os_error(2).into();
    assert!(matches!(err, ChetterError::IOError(_)));
}

#[test]
fn toml_error_converts_and_writes_itself() {
    let inner = toml::from_str::<toml::Value>("a = ").unwrap_err();
    let text = inner.to_string();
    let err: ChetterError = inner.into();
    assert!(matches!(err, ChetterError::TOMLParseError(_)));
    assert_eq!(text, err.to_string());
}

#[test]
fn jwt_error_converts_and_writes_itself() {
    let inner = jsonwebtoken::EncodingKey::from_rsa_pem(b"not a key").err().unwrap();
    let text = inner.to_string();
    let err: ChetterError = inner.into();
    assert!(matches!(err, ChetterError::JSONWebTokenError(_)));
    assert_eq!(text, err.to_string());
}
