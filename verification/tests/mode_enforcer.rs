use scry_proxy::proxy::mode_enforcer::{ModeEnforcer, PoolingMode};
use scry_proxy::proxy::transaction::{TransactionState, TransactionTracker};

#[test]
fn test_transaction_mode_rejects_set_outside_txn() {
    let enforcer = ModeEnforcer::new(PoolingMode::Transaction);
    let result = enforcer.validate("SET search_path TO public", false);

    assert!(result.is_err());
    assert!(result.unwrap_err().contains("not supported in transaction pooling mode"));
}

#[test]
fn test_transaction_mode_allows_set_inside_txn() {
    let enforcer = ModeEnforcer::new(PoolingMode::Transaction);
    let result = enforcer.validate("SET search_path TO public", true);

    assert!(result.is_ok());
}

#[test]
fn test_transaction_mode_rejects_temp_table() {
    let enforcer = ModeEnforcer::new(PoolingMode::Transaction);
    let result = enforcer.validate("CREATE TEMP TABLE tmp (id int)", false);

    assert!(result.is_err());
    assert!(result.unwrap_err().contains("temporary tables not supported"));
}

#[test]
fn test_transaction_mode_rejects_temp_table_inside_txn() {
    let enforcer = ModeEnforcer::new(PoolingMode::Transaction);
    let result = enforcer.validate("CREATE TEMP TABLE tmp (id int)", true);

    assert!(result.is_err());
}

#[test]
fn test_transaction_mode_rejects_cursor_with_hold() {
    let enforcer = ModeEnforcer::new(PoolingMode::Transaction);
    let result = enforcer.validate("DECLARE c CURSOR WITH HOLD FOR SELECT 1", false);

    assert!(result.is_err());
    assert!(result.unwrap_err().contains("WITH HOLD not supported"));
}

#[test]
fn test_transaction_mode_allows_cursor_without_hold() {
    let enforcer = ModeEnforcer::new(PoolingMode::Transaction);
    let result = enforcer.validate("DECLARE c CURSOR FOR SELECT 1", true);

    assert!(result.is_ok());
}

#[test]
fn test_transaction_mode_rejects_advisory_lock() {
    let enforcer = ModeEnforcer::new(PoolingMode::Transaction);
    let result = enforcer.validate("SELECT pg_advisory_lock(123)", false);

    assert!(result.is_err());
    assert!(result.unwrap_err().contains("advisory locks not supported"));
}

#[test]
fn test_transaction_mode_rejects_advisory_lock_inside_txn() {
    let enforcer = ModeEnforcer::new(PoolingMode::Transaction);
    let result = enforcer.validate("SELECT pg_advisory_lock(123)", true);

    assert!(result.is_err());
}

#[test]
fn test_transaction_mode_allows_prepare() {
    let enforcer = ModeEnforcer::new(PoolingMode::Transaction);
    let result = enforcer.validate("PREPARE stmt AS SELECT $1", false);

    assert!(result.is_ok());
}

#[test]
fn test_transaction_mode_allows_regular_queries() {
    let enforcer = ModeEnforcer::new(PoolingMode::Transaction);

    assert!(enforcer.validate("SELECT * FROM users", false).is_ok());
    assert!(enforcer.validate("INSERT INTO users (name) VALUES ('test')", false).is_ok());
    assert!(enforcer.validate("UPDATE users SET name = 'foo'", false).is_ok());
    assert!(enforcer.validate("DELETE FROM users WHERE id = 1", false).is_ok());
    assert!(enforcer.validate("BEGIN", false).is_ok());
    assert!(enforcer.validate("COMMIT", false).is_ok());
    assert!(enforcer.validate("ROLLBACK", false).is_ok());
}

#[test]
fn test_hybrid_mode_allows_everything() {
    let enforcer = ModeEnforcer::new(PoolingMode::Hybrid);

    assert!(enforcer.validate("SET search_path TO public", false).is_ok());
    assert!(enforcer.validate("CREATE TEMP TABLE tmp (id int)", false).is_ok());
    assert!(enforcer.validate("SELECT pg_advisory_lock(123)", false).is_ok());
    assert!(enforcer.validate("DECLARE c CURSOR WITH HOLD FOR SELECT 1", false).is_ok());
}

#[test]
fn test_session_mode_allows_everything() {
    let enforcer = ModeEnforcer::new(PoolingMode::Session);

    assert!(enforcer.validate("SET search_path TO public", false).is_ok());
    assert!(enforcer.validate("CREATE TEMP TABLE tmp (id int)", false).is_ok());
    assert!(enforcer.validate("SELECT pg_advisory_lock(123)", false).is_ok());
    assert!(enforcer.validate("DECLARE c CURSOR WITH HOLD FOR SELECT 1", false).is_ok());
}

#[test]
fn test_build_error_response_format() {
    let response = ModeEnforcer::build_error_response("test error message");

    // Should start with 'E' (ErrorResponse)
    assert_eq!(response[0], b'E');

    // Should have valid length (4 bytes after type)
    let length = i32::from_be_bytes([response[1], response[2], response[3], response[4]]);
    assert!(length > 0);
    assert_eq!(response.len(), 1 + length as usize);

    // Should contain the message
    let response_str = String::from_utf8_lossy(&response);
    assert!(response_str.contains("test error message"));

    // Should contain ERROR severity
    assert!(response_str.contains("ERROR"));

    // Should contain SQLSTATE 0A000
    assert!(response_str.contains("0A000"));
}

#[test]
fn test_build_error_response_structure() {
    let response = ModeEnforcer::build_error_response("error");

    assert_eq!(response[0], b'E'); // Type

    let length = i32::from_be_bytes([response[1], response[2], response[3], response[4]]) as usize;
    let body = &response[5..5 + length - 4]; // Body without length bytes

    // Should have fields: S (severity), C (code), M (message), and terminator
    assert_eq!(body[0], b'S'); // Severity field
    assert_eq!(body[body.len() - 1], 0); // Terminator
}

#[test]
fn test_case_insensitive_validation() {
    let enforcer = ModeEnforcer::new(PoolingMode::Transaction);

    // Lower case
    assert!(enforcer.validate("set search_path to public", false).is_err());

    // Mixed case
    assert!(enforcer.validate("Set Search_Path TO public", false).is_err());

    // Upper case
    assert!(enforcer.validate("SET SEARCH_PATH TO PUBLIC", false).is_err());
}

#[test]
fn error_response_is_written_byte_by_byte() {
    let mut expected = vec![b'E', 0, 0, 0, 23];
    expected.extend_from_slice(b"SERROR\0C0A000\0Mno\0\0");
    assert_eq!(ModeEnforcer::build_error_response("no"), expected);
}

#[test]
fn test_initial_state_is_idle() {
    let tracker = TransactionTracker::new();
    assert_eq!(tracker.state(), TransactionState::Idle);
}

#[test]
fn test_transition_to_in_transaction() {
    let mut tracker = TransactionTracker::new();
    tracker.update_from_ready_for_query(b'T');
    assert_eq!(tracker.state(), TransactionState::InTransaction);
}

#[test]
fn test_transition_to_error() {
    let mut tracker = TransactionTracker::new();
    tracker.update_from_ready_for_query(b'E');
    assert_eq!(tracker.state(), TransactionState::InError);
}

#[test]
fn test_transition_back_to_idle() {
    let mut tracker = TransactionTracker::new();
    tracker.update_from_ready_for_query(b'T');
    tracker.update_from_ready_for_query(b'I');
    assert_eq!(tracker.state(), TransactionState::Idle);
}

#[test]
fn test_is_in_transaction() {
    let mut tracker = TransactionTracker::new();
    assert!(!tracker.is_in_transaction());
    tracker.update_from_ready_for_query(b'T');
    assert!(tracker.is_in_transaction());
}

#[test]
fn status_that_is_not_known_changes_nothing() {
    let mut tracker = TransactionTracker::default();
    tracker.update_from_ready_for_query(b'T');
    tracker.update_from_ready_for_query(b'?');
    assert_eq!(tracker.state(), TransactionState::InTransaction);
    assert!(!tracker.is_idle());
}

#[test]
fn advisory_lock_in_a_schema_is_refused() {
    let enforcer = ModeEnforcer::new(PoolingMode::Transaction);
    let result = enforcer.validate("SELECT pg_catalog.pg_advisory_lock(1)", true);
    assert_eq!(
        result,
        Err("advisory locks not supported in transaction pooling mode".to_string())
    );
}
