//! Constant-time key comparison.

use raci_core::auth::constant_time_compare;

#[test]
fn test_constant_time_compare_equal() {
    assert!(constant_time_compare("test-key-123", "test-key-123"));
}

#[test]
fn test_constant_time_compare_not_equal() {
    assert!(!constant_time_compare("test-key-123", "test-key-124"));
}

#[test]
fn test_constant_time_compare_different_lengths() {
    assert!(!constant_time_compare("short", "much-longer-key"));
}

#[test]
fn test_constant_time_compare_empty() {
    assert!(constant_time_compare("", ""));
    assert!(!constant_time_compare("", "not-empty"));
}
