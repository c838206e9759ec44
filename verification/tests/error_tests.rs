use motosan_agent_tool::{Error, ErrorKind};

#[test]
fn from_io_error() {
    let io_err = std::io::Error::new(std::io::ErrorKind::NotFound, "not found");
    let err: Error = io_err.into();
    assert!(matches!(err, Error::Other(_)));
    assert!(err.to_string().contains("not found"));
}

#[test]
fn from_string() {
    let err: Error = "something broke".to_string().into();
    assert!(matches!(err, Error::Other(_)));
    assert_eq!(err.to_string(), "something broke");
}

#[test]
fn from_str() {
    let err: Error = "oops".into();
    assert_eq!(err.to_string(), "oops");
}

#[test]
fn error_new_still_works() {
    let err = Error::new("custom message");
    assert_eq!(err.to_string(), "custom message");
}

#[test]
fn error_messages_name_their_kind() {
    assert_eq!(Error::MissingField("query".to_string()).to_string(), "missing required field: query");
    assert_eq!(Error::Validation("bad".to_string()).to_string(), "validation failed: bad");
    assert_eq!(Error::Parse("eof".to_string()).to_string(), "parse error: eof");
    assert_eq!(Error::Other("x".to_string()).to_string(), "x");
}

#[test]
fn error_kind_is_copyable() {
    let k = ErrorKind::Validation;
    let k2 = k;
    assert_eq!(k, k2);
}

#[test]
fn from_serde_json_error() {
    let json_err = serde_json::from_str::<serde_json::Value>("invalid").unwrap_err();
    let err: Error = json_err.into();
    assert!(matches!(err, Error::Parse(_)));
}
