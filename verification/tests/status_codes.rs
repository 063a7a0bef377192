use native_host::status::{status_code, ApiFailure};

#[test]
fn success_is_zero() {
    assert_eq!(status_code(Ok(())), 0);
}

#[test]
fn failures_have_their_documented_codes() {
    assert_eq!(status_code(Err(ApiFailure::MissingArgument)), 2);
    assert_eq!(status_code(Err(ApiFailure::ValueNotFound)), 6);
    assert_eq!(status_code(Err(ApiFailure::TypeMismatch)), 16);
    assert_eq!(status_code(Err(ApiFailure::MissingKey)), 24);
    assert_eq!(status_code(Err(ApiFailure::BufferSizeMismatch)), 32);
}
