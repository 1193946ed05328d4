use myblog::common::{default_host, default_mongodb_uri, default_port, BlogConfig, BusinessError, Resp};

#[test]
fn ok_envelope_has_code_zero_and_message_ok() {
    let resp = Resp::ok(42u32);
    assert_eq!(resp.code, 0);
    assert_eq!(resp.message, "ok");
    assert_eq!(resp.data, Some(42u32));
}

#[test]
fn err_envelope_has_code_message_and_no_data() {
    let resp = Resp::<()>::err(10002, "argument error");
    assert_eq!(resp.code, 10002);
    assert_eq!(resp.message, "argument error");
    assert!(resp.data.is_none());
}

#[test]
fn validation_error_code_and_message() {
    let e = BusinessError::ValidationError { field: "id".to_string() };
    assert_eq!(e.to_code(), 10001);
    assert_eq!(e.to_message(), "Validation error on field: id");
}

#[test]
fn argument_error_code_and_message() {
    let e = BusinessError::ArgumentError;
    assert_eq!(e.to_code(), 10002);
    assert_eq!(e.to_message(), "argument error");
}

#[test]
fn internal_error_code_and_message_hide_the_cause() {
    let e = BusinessError::InternalError { cause: "connection reset".to_string() };
    assert_eq!(e.to_code(), 10000);
    assert_eq!(e.to_message(), "An internal error occurred. Please try again later.");
    assert!(!e.to_message().contains("connection"));
}

#[test]
fn error_response_is_an_error_envelope() {
    let e = BusinessError::ValidationError { field: "id".to_string() };
    let resp = e.error_response();
    assert_eq!(resp.code, 10001);
    assert_eq!(resp.message, "Validation error on field: id");
    assert!(resp.data.is_none());
}

#[test]
fn config_defaults() {
    assert_eq!(default_host(), "0.0.0.0");
    assert_eq!(default_port(), 8000);
    assert_eq!(default_mongodb_uri(), "mongodb://localhost:27017");
    let config = BlogConfig::default();
    assert_eq!(config.host, "0.0.0.0");
    assert_eq!(config.port, 8000);
    assert_eq!(config.mongodb_uri, "mongodb://localhost:27017");
}
