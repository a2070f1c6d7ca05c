use synarion::Error;

#[test]
fn error_messages() {
    assert_eq!(Error::NotFound(String::from("mesh")).message(), "Resource not found: mesh");
    assert_eq!(Error::InvalidHandle.message(), "Invalid handle");
    assert_eq!(Error::InvalidState(String::from("closed")).message(), "Invalid state: closed");
    assert_eq!(Error::Custom(String::from("boom")).message(), "boom");
    assert_eq!(Error::Custom(String::new()).message(), "");
}

#[test]
fn io_error_message_has_its_prefix_and_text() {
    let inner = std::io::Error::new(std::io::ErrorKind::NotFound, "no such file");
    let error = Error::from(inner);
    assert!(matches!(error, Error::Io(_)));
    assert_eq!(error.message(), "I/O error: no such file");
    assert_eq!(error.message_with("gone"), "I/O error: gone");
}

#[test]
fn message_with_ignores_text_where_no_io_error_is_inside() {
    assert_eq!(Error::InvalidHandle.message_with("unused"), "Invalid handle");
    assert_eq!(Error::NotFound(String::from("a")).message_with("unused"), "Resource not found: a");
}
