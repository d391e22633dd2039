//! Model types, defaults, and the error taxonomy.

use raci_core::errors::AppError;
use raci_core::member::default_active;
use raci_core::search::default_limit;
use raci_core::topic::TShirtSize;
use raci_core::topic::TopicValidity;

#[test]
fn test_default_active() {
    assert!(default_active());
}

#[test]
fn test_default_limit() {
    assert_eq!(default_limit(), 20);
}

#[test]
fn test_topic_validity_default() {
    let validity = TopicValidity::default();
    assert!(validity.always_valid);
    assert!(validity.valid_from.is_none());
    assert!(validity.valid_to.is_none());
}

#[test]
fn test_tshirt_size_as_str() {
    assert_eq!(TShirtSize::XXS.as_str(), "XXS");
    assert_eq!(TShirtSize::XS.as_str(), "XS");
    assert_eq!(TShirtSize::S.as_str(), "S");
    assert_eq!(TShirtSize::M.as_str(), "M");
    assert_eq!(TShirtSize::L.as_str(), "L");
    assert_eq!(TShirtSize::XL.as_str(), "XL");
    assert_eq!(TShirtSize::XXL.as_str(), "XXL");
}

#[test]
fn test_tshirt_size_from_str() {
    assert_eq!(TShirtSize::from_str("XXS"), Some(TShirtSize::XXS));
    assert_eq!(TShirtSize::from_str("M"), Some(TShirtSize::M));
    assert_eq!(TShirtSize::from_str("XXL"), Some(TShirtSize::XXL));
    assert_eq!(TShirtSize::from_str("XXXL"), None);
    assert_eq!(TShirtSize::from_str(""), None);
    assert_eq!(TShirtSize::from_str("m"), None);
}

#[test]
fn test_tshirt_size_round_trip() {
    for size in [
        TShirtSize::XXS,
        TShirtSize::XS,
        TShirtSize::S,
        TShirtSize::M,
        TShirtSize::L,
        TShirtSize::XL,
        TShirtSize::XXL,
    ] {
        assert_eq!(TShirtSize::from_str(size.as_str()), Some(size));
    }
}

#[test]
fn test_error_codes_and_status() {
    let cases: Vec<(AppError, &str, u16)> = vec![
        (AppError::Unauthorized("no key".to_string()), "UNAUTHORIZED", 401),
        (AppError::NotFound("missing".to_string()), "NOT_FOUND", 404),
        (AppError::Validation("bad input".to_string()), "VALIDATION_ERROR", 400),
        (
            AppError::Conflict { message: "stale".to_string(), current_version: 7 },
            "VERSION_MISMATCH",
            409,
        ),
        (AppError::Database("disk".to_string()), "DATABASE_ERROR", 500),
        (AppError::Search("index".to_string()), "SEARCH_ERROR", 500),
        (AppError::Internal("bug".to_string()), "INTERNAL_ERROR", 500),
        (AppError::BadRequest("syntax".to_string()), "BAD_REQUEST", 400),
    ];
    for (error, code, status) in cases {
        assert_eq!(error.error_code(), code);
        assert_eq!(error.status_code(), status);
    }
}

#[test]
fn test_error_messages() {
    assert_eq!(AppError::NotFound("missing thing".to_string()).message(), "missing thing");
    assert_eq!(
        AppError::Conflict { message: "stale data".to_string(), current_version: 3 }.message(),
        "stale data"
    );
}
