use scry_proxy::protocol::command::{CommandClass, CommandDetector, DetectedCommand};
use scry_proxy::proxy::connection_state::{ConnectionState, PinReason, ReplayableState};

#[test]
fn test_initial_state_unpinned() {
    let state = ConnectionState::new(1000);
    assert!(!state.is_pinned());
    assert!(state.pin_reasons().is_empty());
}

#[test]
fn test_pin_on_prepared_statement() {
    let mut state = ConnectionState::new(1000);
    state.add_prepared_statement("stmt1".to_string(), "SELECT 1".to_string(), vec![]);

    assert!(state.is_pinned());
    assert!(state.pin_reasons().contains(&PinReason::PreparedStatement));
}

#[test]
fn test_pin_on_set_variable() {
    let mut state = ConnectionState::new(1000);
    state.add_session_variable("search_path".to_string(), "public".to_string());

    assert!(state.is_pinned());
    assert!(state.pin_reasons().contains(&PinReason::SessionVariable));
}

#[test]
fn test_pin_on_temp_table() {
    let mut state = ConnectionState::new(1000);
    state.add_temp_table("tmp_users".to_string());

    assert!(state.is_pinned());
    assert!(state.pin_reasons().contains(&PinReason::TempTable));
}

#[test]
fn test_pin_on_cursor() {
    let mut state = ConnectionState::new(1000);
    state.add_cursor("my_cursor".to_string());

    assert!(state.is_pinned());
    assert!(state.pin_reasons().contains(&PinReason::Cursor));
}

#[test]
fn test_pin_on_advisory_lock() {
    let mut state = ConnectionState::new(1000);
    state.add_advisory_lock(12345);

    assert!(state.is_pinned());
    assert!(state.pin_reasons().contains(&PinReason::AdvisoryLock));
}

#[test]
fn test_unpin_on_deallocate() {
    let mut state = ConnectionState::new(1000);
    state.add_prepared_statement("stmt1".to_string(), "SELECT 1".to_string(), vec![]);
    state.remove_prepared_statement("stmt1");

    assert!(!state.is_pinned());
}

#[test]
fn test_multiple_pins() {
    let mut state = ConnectionState::new(1000);
    state.add_prepared_statement("stmt1".to_string(), "SELECT 1".to_string(), vec![]);
    state.add_session_variable("tz".to_string(), "UTC".to_string());

    assert!(state.is_pinned());

    // Remove one, still pinned
    state.remove_prepared_statement("stmt1");
    assert!(state.is_pinned());

    // Remove other, unpinned
    state.remove_session_variable("tz");
    assert!(!state.is_pinned());
}

#[test]
fn test_has_unsafe_state() {
    let mut state = ConnectionState::new(1000);

    // Prepared statements are safe
    state.add_prepared_statement("stmt1".to_string(), "SELECT 1".to_string(), vec![]);
    assert!(!state.has_unsafe_state());

    // Temp tables are unsafe
    state.add_temp_table("tmp".to_string());
    assert!(state.has_unsafe_state());
}

#[test]
fn test_has_unsafe_state_cursor() {
    let mut state = ConnectionState::new(1000);
    state.add_cursor("cursor1".to_string());
    assert!(state.has_unsafe_state());
}

#[test]
fn test_has_unsafe_state_advisory_lock() {
    let mut state = ConnectionState::new(1000);
    state.add_advisory_lock(99999);
    assert!(state.has_unsafe_state());
}

#[test]
fn test_replayable_state() {
    let mut state = ConnectionState::new(1000);
    state.add_prepared_statement("stmt1".to_string(), "SELECT $1".to_string(), vec![23]);
    state.add_session_variable("tz".to_string(), "UTC".to_string());

    let replay = state.get_replayable_state();

    assert_eq!(replay.prepared_statements.len(), 1);
    assert_eq!(replay.session_variables.len(), 1);
    assert_eq!(replay.session_variables.get("tz"), Some(&"UTC".to_string()));
}

#[test]
fn test_replayable_state_prepared_statement_details() {
    let mut state = ConnectionState::new(1000);
    state.add_prepared_statement(
        "my_stmt".to_string(),
        "SELECT $1, $2".to_string(),
        vec![23, 25],
    );

    let replay = state.get_replayable_state();

    assert_eq!(replay.prepared_statements.len(), 1);
    let stmt = &replay.prepared_statements[0];
    assert_eq!(stmt.name, "my_stmt");
    assert_eq!(stmt.query, "SELECT $1, $2");
    assert_eq!(stmt.param_oids, vec![23, 25]);
}

#[test]
fn test_clear_all() {
    let mut state = ConnectionState::new(1000);
    state.add_prepared_statement("stmt1".to_string(), "SELECT 1".to_string(), vec![]);
    state.add_session_variable("tz".to_string(), "UTC".to_string());
    state.add_temp_table("tmp".to_string());
    state.add_cursor("cursor1".to_string());
    state.add_advisory_lock(12345);

    state.clear_all();

    assert!(!state.is_pinned());
    assert!(!state.has_unsafe_state());
}

#[test]
fn test_clear_prepared_statements() {
    let mut state = ConnectionState::new(1000);
    state.add_prepared_statement("stmt1".to_string(), "SELECT 1".to_string(), vec![]);
    state.add_prepared_statement("stmt2".to_string(), "SELECT 2".to_string(), vec![]);
    state.add_session_variable("tz".to_string(), "UTC".to_string());

    state.clear_prepared_statements();

    // Should still be pinned due to session variable
    assert!(state.is_pinned());
    assert!(!state.pin_reasons().contains(&PinReason::PreparedStatement));
    assert!(state.pin_reasons().contains(&PinReason::SessionVariable));
}

#[test]
fn test_clear_session_variables() {
    let mut state = ConnectionState::new(1000);
    state.add_session_variable("tz".to_string(), "UTC".to_string());
    state.add_session_variable("search_path".to_string(), "public".to_string());

    state.clear_session_variables();

    assert!(!state.is_pinned());
}

#[test]
fn test_pin_reason_is_unsafe() {
    assert!(!PinReason::PreparedStatement.is_unsafe());
    assert!(!PinReason::SessionVariable.is_unsafe());
    assert!(PinReason::TempTable.is_unsafe());
    assert!(PinReason::Cursor.is_unsafe());
    assert!(PinReason::AdvisoryLock.is_unsafe());
}

#[test]
fn test_remove_nonexistent_items() {
    let mut state = ConnectionState::new(1000);

    // These should not panic
    state.remove_prepared_statement("nonexistent");
    state.remove_session_variable("nonexistent");
    state.remove_temp_table("nonexistent");
    state.remove_cursor("nonexistent");
    state.remove_advisory_lock(99999);

    assert!(!state.is_pinned());
}

#[test]
fn test_apply_query_listen_pins_typed_reason() {
    let mut state = ConnectionState::new(1000);
    state.apply_query("LISTEN foo");

    assert!(state.is_pinned());
    assert!(state.has_unsafe_state());
    assert!(state.pin_reasons().contains(&PinReason::Listen));
    assert!(!state.pin_reasons().contains(&PinReason::UnknownCommand));
}

#[test]
fn test_apply_query_unlisten_star_clears_listen_pin() {
    let mut state = ConnectionState::new(1000);
    state.apply_query("LISTEN foo");
    state.apply_query("LISTEN bar");
    state.apply_query("UNLISTEN *");

    assert!(!state.pin_reasons().contains(&PinReason::Listen));
    assert!(!state.is_pinned());
}

#[test]
fn test_apply_query_unlisten_specific_channel() {
    let mut state = ConnectionState::new(1000);
    state.apply_query("LISTEN foo");
    state.apply_query("LISTEN bar");
    state.apply_query("UNLISTEN foo");

    // "bar" is still an active registration, so the Listen pin remains.
    assert!(state.pin_reasons().contains(&PinReason::Listen));

    state.apply_query("UNLISTEN bar");
    assert!(!state.pin_reasons().contains(&PinReason::Listen));
    assert!(!state.is_pinned());
}

#[test]
fn test_apply_query_discard_all_clears_listen_pin() {
    let mut state = ConnectionState::new(1000);
    state.apply_query("LISTEN foo");
    state.apply_query("DISCARD ALL");

    assert!(!state.pin_reasons().contains(&PinReason::Listen));
    assert!(!state.is_pinned());
}

#[test]
fn test_clear_all_clears_listen_pin() {
    let mut state = ConnectionState::new(1000);
    state.apply_query("LISTEN foo");
    state.clear_all();

    assert!(!state.pin_reasons().contains(&PinReason::Listen));
    assert!(!state.is_pinned());
}

#[test]
fn test_apply_query_bare_notify_does_not_pin() {
    let mut state = ConnectionState::new(1000);
    state.apply_query("NOTIFY foo");

    assert!(!state.is_pinned());
    assert!(state.pin_reasons().is_empty());
}

#[test]
fn test_apply_query_notify_with_payload_does_not_pin() {
    let mut state = ConnectionState::new(1000);
    state.apply_query("NOTIFY foo, 'payload-42'");

    assert!(!state.is_pinned());
}

#[test]
fn test_pin_reason_listen_is_unsafe() {
    assert!(PinReason::Listen.is_unsafe());
}

#[test]
fn unknown_command_is_unsafe() {
    assert!(PinReason::UnknownCommand.is_unsafe());
}

#[test]
fn unknown_command_pins_until_discard_all() {
    let mut state = ConnectionState::new(10);
    state.apply_query("FROBNICATE the_backend");
    assert!(state.pin_reasons().contains(&PinReason::UnknownCommand));
    assert!(state.has_unsafe_state());
    state.apply_query("RESET ALL");
    state.apply_query("SELECT 1");
    assert!(state.pin_reasons().contains(&PinReason::UnknownCommand));
    state.apply_query("DISCARD ALL");
    assert!(!state.is_pinned());
}

#[test]
fn marked_unknown_command_pins() {
    let mut state = ConnectionState::new(10);
    state.mark_unknown_command();
    assert!(state.is_pinned());
    assert!(state.pin_reasons().contains(&PinReason::UnknownCommand));
}

#[test]
fn what_is_taken_and_given_up_leaves_nothing() {
    let mut state = ConnectionState::new(10);
    for (take, give_up) in [
        ("SET timezone = 'UTC'", "RESET timezone"),
        ("CREATE TEMP TABLE t (id int)", "DROP TABLE t"),
        ("DECLARE c CURSOR FOR SELECT 1", "CLOSE c"),
        ("SELECT pg_advisory_lock(7)", "SELECT pg_advisory_unlock(7)"),
        ("LISTEN ch", "UNLISTEN ch"),
    ] {
        state.apply_query(take);
        assert!(state.is_pinned(), "{take}");
        state.apply_query(give_up);
        assert!(!state.is_pinned(), "{give_up}");
    }
}

#[test]
fn only_what_cannot_be_moved_is_unsafe() {
    let mut state = ConnectionState::new(10);
    state.add_prepared_statement("s".to_string(), "SELECT 1".to_string(), vec![]);
    state.add_session_variable("v".to_string(), "1".to_string());
    assert!(state.is_pinned());
    assert!(!state.has_unsafe_state());
    state.add_listen_channel("ch".to_string());
    assert!(state.has_unsafe_state());
    state.remove_listen_channel("ch");
    assert!(!state.has_unsafe_state());
    state.add_listen_channel("a".to_string());
    state.clear_listen_channels();
    assert!(!state.has_unsafe_state());
}

#[test]
fn commands_are_told_apart() {
    assert!(matches!(
        CommandDetector::detect("SET search_path TO public"),
        Some(DetectedCommand::SetVariable { name, .. }) if name == "search_path"
    ));
    assert!(matches!(
        CommandDetector::detect("declare c cursor with hold for select 1"),
        Some(DetectedCommand::DeclareCursor { name, with_hold: true }) if name == "c"
    ));
    assert!(matches!(
        CommandDetector::detect("SELECT pg_advisory_lock(42)"),
        Some(DetectedCommand::AdvisoryLock { key: Some(42) })
    ));
    assert!(matches!(CommandDetector::detect("DISCARD ALL"), Some(DetectedCommand::DiscardAll)));
    assert!(CommandDetector::detect("SELECT 1").is_none());
    assert!(matches!(CommandDetector::classify("SELECT 1"), CommandClass::Clean));
    assert!(matches!(CommandDetector::classify("FROBNICATE"), CommandClass::Unknown));
    assert!(matches!(
        CommandDetector::classify("LISTEN ch"),
        CommandClass::Stateful(DetectedCommand::Listen { .. })
    ));
}

#[test]
fn lock_whose_key_cannot_be_read_is_unknown() {
    assert!(matches!(
        CommandDetector::classify("SELECT pg_advisory_lock(hashtext('a'))"),
        CommandClass::Unknown
    ));
}

#[test]
fn advisory_lock_without_a_key_pins() {
    let mut state = ConnectionState::new(10);
    state.apply_class(CommandClass::Stateful(DetectedCommand::AdvisoryLock { key: None }));
    assert!(state.is_pinned());
    assert!(state.has_unsafe_state());
    assert!(state.pin_reasons().contains(&PinReason::UnknownCommand));
}

#[test]
fn what_pins_is_what_is_replayed() {
    let mut state = ConnectionState::new(10);
    assert!(state.get_replayable_state().prepared_statements.is_empty());
    assert!(state.get_replayable_state().session_variables.is_empty());
    state.add_prepared_statement("s".to_string(), "SELECT 1".to_string(), vec![]);
    assert!(state.pin_reasons().contains(&PinReason::PreparedStatement));
    assert!(!state.pin_reasons().contains(&PinReason::SessionVariable));
    let replay = state.get_replayable_state().clone();
    assert_eq!(replay.prepared_statements.len(), 1);
    assert_eq!(replay.prepared_statements[0].name, "s");
    assert!(replay.session_variables.is_empty());
    state.apply_query("SET timezone = 'UTC'");
    assert!(state.pin_reasons().contains(&PinReason::SessionVariable));
    assert_eq!(state.get_replayable_state().session_variables.len(), 1);
    let nothing = ReplayableState::default();
    assert!(nothing.prepared_statements.is_empty() && nothing.session_variables.is_empty());
}

#[test]
fn session_functions_are_seen_in_any_schema() {
    for sql in [
        "SELECT pg_catalog.pg_advisory_lock(1)",
        "select PG_CATALOG.PG_TRY_ADVISORY_LOCK(1)",
        "SELECT pg_catalog.set_config('x', 'y', false)",
        "SELECT pg_catalog . set_config('x', 'y', false)",
        "UPDATE t SET a = db.pg_catalog.pg_advisory_lock(1)",
    ] {
        let mut state = ConnectionState::new(10);
        state.apply_query(sql);
        assert!(state.is_pinned(), "{sql}");
        assert!(state.has_unsafe_state(), "{sql}");
    }
    let mut state = ConnectionState::new(10);
    state.apply_query("SELECT pg_catalog.pg_advisory_lock(7)");
    assert!(state.pin_reasons().contains(&PinReason::AdvisoryLock));
    state.apply_query("SELECT pg_catalog.pg_advisory_unlock(7)");
    assert!(!state.is_pinned());
    state.apply_query("SELECT t.set_configuration, pg_advisory_lock.a FROM t");
    assert!(!state.is_pinned());
}
