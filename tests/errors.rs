use gel_point::errors::{ResultExtDisplay, SmallError};

#[test]
fn context_prefixes_error_message() {
    let failed: Result<u8, String> = Err("no such file".to_string());
    let e = failed.context("failed to read").unwrap_err();
    assert_eq!(e.message(), "failed to read: no such file");
}

#[test]
fn context_keeps_success() {
    let ok: Result<u8, String> = Ok(3);
    assert!(matches!(ok.context("unused"), Ok(3)));
}

#[test]
fn context_nests_on_small_errors() {
    let inner: Result<(), SmallError> = Err(SmallError::from("timeout".to_string()));
    let e = inner.context("outer").unwrap_err();
    assert_eq!(e.message(), "outer: timeout");
}
