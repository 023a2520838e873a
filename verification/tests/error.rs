use api_proxy::error::{Error, Result};

#[test]
fn error_from_str_keeps_the_message() {
    let e = Error::from("nothing works");
    assert_eq!(e, Error::AnyError("nothing works".to_string()));
    assert_eq!(e.message(), "nothing works");
}

#[test]
fn error_from_string_keeps_the_message() {
    let e = Error::from(String::from("still nothing"));
    assert_eq!(e, Error::AnyError("still nothing".to_string()));
    assert_eq!(e.message(), "still nothing");
}

#[test]
fn error_converts_with_into() {
    let e: Error = "short".into();
    assert_eq!(e.message(), "short");
    let r: Result<u8> = Err(String::from("long").into());
    assert_eq!(r, Err(Error::AnyError("long".to_string())));
}

#[test]
fn error_message_may_be_empty() {
    assert_eq!(Error::from("").message(), "");
}
