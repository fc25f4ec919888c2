use authentication::database::email_verification::{safe_cast_to_i64, validate_cursor_pagination};
use authentication::error::AuthenticationError;

#[test]
fn safe_cast_to_i64_valid() {
    let result = safe_cast_to_i64(100);
    assert!(result.is_ok());
    assert_eq!(result.unwrap(), 100i64);

    let result = safe_cast_to_i64(0);
    assert!(result.is_ok());
    assert_eq!(result.unwrap(), 0i64);

    let max_valid = i64::MAX as usize;
    let result = safe_cast_to_i64(max_valid);
    assert!(result.is_ok());
    assert_eq!(result.unwrap(), i64::MAX);

    let result = safe_cast_to_i64(1000);
    assert!(result.is_ok());
    assert_eq!(result.unwrap(), 1000i64);
}

#[test]
fn edge_case_numeric_boundaries() {
    let max_valid = i64::MAX as usize;
    let result = safe_cast_to_i64(max_valid);
    assert!(result.is_ok());
    assert_eq!(result.unwrap(), i64::MAX);

    if usize::MAX as u128 > i64::MAX as u128 {
        let overflow_value = (i64::MAX as usize) + 1;
        let result = safe_cast_to_i64(overflow_value);
        assert!(result.is_err());
    }

    let result = safe_cast_to_i64(0);
    assert!(result.is_ok());
    assert_eq!(result.unwrap(), 0);
}

#[test]
fn safe_cast_to_i64_overflow() {
    let result = safe_cast_to_i64(usize::MAX);
    if usize::MAX as u128 > i64::MAX as u128 {
        match result {
            Err(AuthenticationError::ValidationError(message)) => {
                assert_eq!(message, "Pagination value too large")
            }
            _ => panic!("Expected ValidationError with specific message"),
        }
    }
}

#[test]
fn cursor_pagination_valid_cases() {
    assert!(validate_cursor_pagination(10, None, None).is_ok());
    assert!(validate_cursor_pagination(10, Some(1_725_029_869_000_000_000), Some(7)).is_ok());
    assert!(validate_cursor_pagination(1001, None, None).is_ok());
}

#[test]
fn cursor_pagination_invalid_cases() {
    let result = validate_cursor_pagination(10, Some(1_725_029_869_000_000_000), None);
    match result {
        Err(AuthenticationError::ValidationError(message)) => assert_eq!(
            message,
            "Both cursor_created_at and cursor_id must be provided together"
        ),
        _ => panic!("Expected ValidationError with specific message"),
    }
    let result = validate_cursor_pagination(10, None, Some(42));
    match result {
        Err(AuthenticationError::ValidationError(message)) => assert_eq!(
            message,
            "Both cursor_created_at and cursor_id must be provided together"
        ),
        _ => panic!("Expected ValidationError with specific message"),
    }
}

#[test]
fn cursor_pagination_edge_cases() {
    assert!(validate_cursor_pagination(0, None, None).is_ok());
    assert!(validate_cursor_pagination(10000, None, None).is_ok());
}

#[test]
fn validate_cursor_pagination_missing_created_at() {
    let result = validate_cursor_pagination(10, None, Some(1));
    assert!(matches!(result, Err(AuthenticationError::ValidationError(ref m)) if m == "Both cursor_created_at and cursor_id must be provided together"));
}

#[test]
fn validate_cursor_pagination_missing_id() {
    let result = validate_cursor_pagination(10, Some(0), None);
    assert!(matches!(result, Err(AuthenticationError::ValidationError(ref m)) if m == "Both cursor_created_at and cursor_id must be provided together"));
}

#[test]
fn zero_limit_edge_case() {
    assert!(validate_cursor_pagination(0, None, None).is_ok());
}

#[test]
fn extremely_large_but_valid_limit() {
    assert!(validate_cursor_pagination(1000, None, None).is_ok());
    assert!(validate_cursor_pagination(1001, None, None).is_ok());
}
