use scry_proxy::config::{BackpressureMode, ParseFailureMode, PoolingStrategy, PublisherConfig};
use scry_proxy::proxy::connection::{
    AcquireResponse, BackendStep, ClientStep, ConnectionHandler, DirectHandler, Message,
    StartupStep,
};
use scry_proxy::proxy::connection_state::ConnectionState;
use scry_proxy::proxy::event::{AnonymizationSettings, AnonymizedQuery, QueryReport, REDACTED_QUERY};
use scry_proxy::proxy::mode_enforcer::PoolingMode;
use scry_proxy::proxy::params::{redact_all, redact_param, ParamValue};
use scry_proxy::proxy::pool_manager::AcquireError;
use scry_proxy::proxy::transaction::TransactionState;
use scry_proxy::proxy::wait_queue::QueueFullError;
use std::time::{Duration, Instant};

fn enabled_settings(parse_failure: ParseFailureMode) -> AnonymizationSettings {
    AnonymizationSettings { enabled: true, parse_failure }
}

fn disabled_settings() -> AnonymizationSettings {
    AnonymizationSettings { enabled: false, parse_failure: ParseFailureMode::Redact }
}

fn anonymized(normalized: &str, fingerprints: &[&str]) -> Option<AnonymizedQuery> {
    Some(AnonymizedQuery {
        normalized_query: normalized.to_string(),
        value_fingerprints: fingerprints.iter().map(|f| f.to_string()).collect(),
    })
}

fn build(
    settings: &AnonymizationSettings,
    query: &str,
    anonymized: Option<AnonymizedQuery>,
    params: Vec<ParamValue>,
    success: bool,
) -> Option<(QueryReport, Vec<String>)> {
    settings.build_event(
        query,
        anonymized,
        params,
        false,
        Duration::from_millis(1),
        success,
        None,
        "c1",
        "db",
    )
}

#[test]
fn enabled_event_query_is_normalized_never_raw() {
    let settings = enabled_settings(ParseFailureMode::Redact);
    let raw = "SELECT * FROM users WHERE email = 'bob@example.com' AND id = 42";
    let normalized = "SELECT * FROM users WHERE email = ? AND id = ?";
    let (event, fingerprints) =
        build(&settings, raw, anonymized(normalized, &["f1", "f2"]), vec![], true)
            .expect("event should be produced");

    // The literal must never appear in the shipped query or normalized form.
    assert!(!event.query.contains("bob@example.com"), "query leaked literal: {}", event.query);
    assert!(!event.query.contains("42 "), "query leaked literal: {}", event.query);
    assert_eq!(event.query, event.normalized_query.clone().unwrap());
    assert!(event.query.contains('?'));
    // Two literals, two fingerprints.
    assert_eq!(fingerprints.len(), 2);
    assert_eq!(event.query, normalized);
    assert_eq!(event.value_fingerprints, Some(fingerprints));
    assert_eq!(event.duration, Duration::from_millis(1));
    assert_eq!(event.connection_id, "c1");
    assert_eq!(event.database, "db");
}

#[test]
fn disabled_event_ships_raw_query() {
    let settings = disabled_settings();
    let raw = "SELECT * FROM users WHERE email = 'bob@example.com'";
    let (event, _fps) = build(&settings, raw, None, vec![], true).expect("event should be produced");
    assert_eq!(event.query, raw);
    assert!(event.normalized_query.is_none());
}

#[test]
fn parse_failure_redact_hides_raw_query() {
    let settings = enabled_settings(ParseFailureMode::Redact);
    let raw = "CREATE ROLE admin PASSWORD 'super-secret-pw' NOSUPERUSER GIBBERISH";
    let (event, fps) =
        build(&settings, raw, None, vec![], false).expect("redact mode still produces an event");
    assert_eq!(event.query, REDACTED_QUERY);
    assert!(!event.query.contains("super-secret-pw"));
    assert!(fps.is_empty());
}

#[test]
fn parse_failure_drop_drops_event() {
    let settings = enabled_settings(ParseFailureMode::Drop);
    let raw = "CREATE ROLE admin PASSWORD 'super-secret-pw' GIBBERISH";
    let result = build(&settings, raw, None, vec![], false);
    assert!(result.is_none(), "drop mode must drop the event entirely");
}

#[test]
fn params_are_redacted_when_enabled() {
    let settings = enabled_settings(ParseFailureMode::Redact);
    let params = vec![
        ParamValue::Text("bob@example.com".to_string()),
        ParamValue::Int32(31337),
        ParamValue::Json(r#"{"ssn":"123-45-6789"}"#.to_string()),
    ];
    let query = "SELECT * FROM users WHERE id = $1";
    let (event, _fps) =
        build(&settings, query, anonymized(query, &[]), params, true).expect("event");
    // Same arity, but no raw values survive.
    assert_eq!(event.params.len(), 3);
    assert_eq!(event.params[0], ParamValue::Text(String::new()));
    assert_eq!(event.params[1], ParamValue::Int32(0));
    assert_eq!(event.params[2], ParamValue::Json(String::new()));
}

#[test]
fn params_pass_through_when_disabled() {
    let settings = disabled_settings();
    let params = vec![ParamValue::Text("keep-me".to_string()), ParamValue::Int32(7)];
    let expected = vec![ParamValue::Text("keep-me".to_string()), ParamValue::Int32(7)];
    let redacted = settings.redact_params(params);
    assert_eq!(redacted, expected);
}

#[test]
fn redact_param_recurses_into_composites() {
    let nested = ParamValue::Array {
        elements: vec![
            ParamValue::Text("secret".to_string()),
            ParamValue::Composite { fields: vec![ParamValue::Int64(999)] },
        ],
        dimensions: vec![2],
    };
    let redacted = redact_param(&nested);
    match redacted {
        ParamValue::Array { elements, dimensions } => {
            assert_eq!(dimensions, vec![2]);
            assert_eq!(elements[0], ParamValue::Text(String::new()));
            match &elements[1] {
                ParamValue::Composite { fields } => {
                    assert_eq!(fields[0], ParamValue::Int64(0));
                }
                other => panic!("expected composite, got {other:?}"),
            }
        }
        other => panic!("expected array, got {other:?}"),
    }
}

#[test]
fn adversarial_corpus_never_leaks() {
    // Query, its normal form where there is one, and what must never be shown.
    let corpus: &[(&str, Option<&str>, &[&str])] = &[
        ("CREATE ROLE deploy PASSWORD 'super-secret-pw'", None, &["super-secret-pw"]),
        (
            "SELECT * FROM patients WHERE ssn = '123-45-6789'",
            Some("SELECT * FROM patients WHERE ssn = ?"),
            &["123-45-6789"],
        ),
        (
            "INSERT INTO t (a, b) VALUES ('alice@example.com', 'hunter2')",
            Some("INSERT INTO t (a, b) VALUES (?, ?)"),
            &["alice@example.com", "hunter2"],
        ),
        (
            "UPDATE users SET pw = 'secretA' WHERE email = 'secretB@x.io'",
            Some("UPDATE users SET pw = ? WHERE email = ?"),
            &["secretA", "secretB@x.io"],
        ),
        (
            "$$ totally @@ unparseable ## vendor 'embedded-secret' syntax",
            None,
            &["embedded-secret"],
        ),
    ];

    for mode in [ParseFailureMode::Redact, ParseFailureMode::Drop] {
        let settings = enabled_settings(mode);
        for (query, normal, secrets) in corpus {
            let result = match normal {
                Some(n) => build(&settings, query, anonymized(n, &["f"]), vec![], true),
                None => build(&settings, query, None, vec![], true),
            };
            assert_eq!(result.is_none(), mode == ParseFailureMode::Drop && normal.is_none());
            if let Some((event, fingerprints)) = result {
                let shown = format!("{event:?} {fingerprints:?}");
                for secret in *secrets {
                    assert!(!shown.contains(secret), "event leaked '{secret}': {shown}");
                }
            }
        }
    }
}

#[test]
fn redaction_keeps_the_type_and_is_stable() {
    let params = vec![
        ParamValue::Null,
        ParamValue::Bool(true),
        ParamValue::Int16(3),
        ParamValue::Float32(7),
        ParamValue::Float64(8),
        ParamValue::Numeric("1.5".to_string()),
        ParamValue::Bytes(vec![1, 2]),
        ParamValue::Date(1),
        ParamValue::Time(2),
        ParamValue::Timestamp(3),
        ParamValue::TimestampTz(4),
        ParamValue::Interval { months: 1, days: 2, microseconds: 3 },
        ParamValue::Uuid([9; 16]),
        ParamValue::Range {
            lower: Some(Box::new(ParamValue::Int32(1))),
            upper: None,
            lower_inc: true,
            upper_inc: false,
        },
        ParamValue::Unknown { oid: 17, data: vec![5] },
    ];
    let once = redact_all(&params);
    assert_eq!(once.len(), params.len());
    assert_eq!(redact_all(&once), once);
    assert_eq!(once[0], ParamValue::Null);
    assert_eq!(once[1], ParamValue::Bool(false));
    assert_eq!(once[6], ParamValue::Bytes(vec![]));
    assert_eq!(once[12], ParamValue::Uuid([0; 16]));
    assert_eq!(once[14], ParamValue::Unknown { oid: 17, data: vec![] });
}

#[test]
fn settings_follow_the_configuration() {
    let settings = AnonymizationSettings::from_config(&PublisherConfig {
        anonymize: true,
        parse_failure_mode: ParseFailureMode::Drop,
    });
    assert!(settings.enabled);
    assert_eq!(settings.parse_failure, ParseFailureMode::Drop);
}

#[test]
fn errors_are_shown_in_full_only_without_anonymization() {
    let scrubbed = || Some("error 23505".to_string());
    assert_eq!(
        disabled_settings().error_field(scrubbed(), "duplicate key (bob)".to_string()),
        Some("duplicate key (bob)".to_string())
    );
    assert_eq!(
        enabled_settings(ParseFailureMode::Redact)
            .error_field(scrubbed(), "duplicate key (bob)".to_string()),
        scrubbed()
    );
}

#[test]
fn test_pooling_mode_conversion_disabled() {
    let mode = ConnectionHandler::pooling_mode(&PoolingStrategy::Disabled);
    assert_eq!(mode, PoolingMode::Session);
}

#[test]
fn test_pooling_mode_conversion_session() {
    let mode = ConnectionHandler::pooling_mode(&PoolingStrategy::Session);
    assert_eq!(mode, PoolingMode::Session);
}

#[test]
fn test_pooling_mode_conversion_transaction() {
    let mode = ConnectionHandler::pooling_mode(&PoolingStrategy::Transaction);
    assert_eq!(mode, PoolingMode::Transaction);
}

#[test]
fn test_pooling_mode_conversion_hybrid() {
    let mode = ConnectionHandler::pooling_mode(&PoolingStrategy::Hybrid);
    assert_eq!(mode, PoolingMode::Hybrid);
}

#[test]
fn test_should_release_connection_disabled_mode() {
    let conn_state = ConnectionState::new(100);
    // Disabled mode should never release
    assert!(!ConnectionHandler::should_release_connection(&PoolingStrategy::Disabled, &conn_state));
}

#[test]
fn test_should_release_connection_session_mode() {
    let conn_state = ConnectionState::new(100);
    // Session mode should never release
    assert!(!ConnectionHandler::should_release_connection(&PoolingStrategy::Session, &conn_state));
}

#[test]
fn test_should_release_connection_transaction_mode() {
    let conn_state = ConnectionState::new(100);
    // Transaction mode should always release
    assert!(ConnectionHandler::should_release_connection(
        &PoolingStrategy::Transaction,
        &conn_state
    ));
}

#[test]
fn test_should_release_connection_transaction_mode_with_pinned_state() {
    let mut conn_state = ConnectionState::new(100);
    conn_state.add_prepared_statement("stmt1".to_string(), "SELECT 1".to_string(), vec![]);
    // Transaction mode should still release even with pinned state (strict mode)
    assert!(ConnectionHandler::should_release_connection(
        &PoolingStrategy::Transaction,
        &conn_state
    ));
}

#[test]
fn test_should_release_connection_hybrid_mode_unpinned() {
    let conn_state = ConnectionState::new(100);
    // Hybrid mode should release when not pinned
    assert!(ConnectionHandler::should_release_connection(&PoolingStrategy::Hybrid, &conn_state));
}

#[test]
fn test_should_release_connection_hybrid_mode_pinned() {
    let mut conn_state = ConnectionState::new(100);
    conn_state.add_prepared_statement("stmt1".to_string(), "SELECT 1".to_string(), vec![]);
    // Hybrid mode should NOT release when pinned
    assert!(!ConnectionHandler::should_release_connection(&PoolingStrategy::Hybrid, &conn_state));
}

#[test]
fn test_should_release_connection_hybrid_mode_with_session_variable() {
    let mut conn_state = ConnectionState::new(100);
    conn_state.add_session_variable("timezone".to_string(), "UTC".to_string());
    // Hybrid mode should NOT release when connection has session variables
    assert!(!ConnectionHandler::should_release_connection(&PoolingStrategy::Hybrid, &conn_state));
}

#[test]
fn test_should_release_connection_hybrid_mode_with_temp_table() {
    let mut conn_state = ConnectionState::new(100);
    conn_state.add_temp_table("tmp_users".to_string());
    // Hybrid mode should NOT release when connection has temp tables
    assert!(!ConnectionHandler::should_release_connection(&PoolingStrategy::Hybrid, &conn_state));
}

#[test]
fn test_build_ready_for_query_idle() {
    let msg = ConnectionHandler::build_ready_for_query(TransactionState::Idle);
    assert_eq!(msg, vec![b'Z', 0, 0, 0, 5, b'I']);
}

#[test]
fn test_build_ready_for_query_in_transaction() {
    let msg = ConnectionHandler::build_ready_for_query(TransactionState::InTransaction);
    assert_eq!(msg, vec![b'Z', 0, 0, 0, 5, b'T']);
}

#[test]
fn test_build_ready_for_query_in_error() {
    let msg = ConnectionHandler::build_ready_for_query(TransactionState::InError);
    assert_eq!(msg, vec![b'Z', 0, 0, 0, 5, b'E']);
}

#[test]
fn test_update_connection_state_set() {
    let mut conn_state = ConnectionState::new(100);
    conn_state.apply_query("SET timezone = 'UTC'");
    assert!(conn_state.is_pinned());
}

#[test]
fn test_update_connection_state_reset() {
    let mut conn_state = ConnectionState::new(100);
    conn_state.add_session_variable("timezone".to_string(), "UTC".to_string());
    assert!(conn_state.is_pinned());

    conn_state.apply_query("RESET timezone");
    assert!(!conn_state.is_pinned());
}

#[test]
fn test_update_connection_state_reset_all() {
    let mut conn_state = ConnectionState::new(100);
    conn_state.add_session_variable("timezone".to_string(), "UTC".to_string());
    conn_state.add_session_variable("search_path".to_string(), "public".to_string());
    assert!(conn_state.is_pinned());

    conn_state.apply_query("RESET ALL");
    assert!(!conn_state.is_pinned());
}

#[test]
fn test_update_connection_state_create_temp_table() {
    let mut conn_state = ConnectionState::new(100);
    conn_state.apply_query("CREATE TEMP TABLE tmp_users (id int)");
    assert!(conn_state.is_pinned());
    assert!(conn_state.has_unsafe_state());
}

#[test]
fn test_update_connection_state_declare_cursor() {
    let mut conn_state = ConnectionState::new(100);
    conn_state.apply_query("DECLARE my_cursor CURSOR FOR SELECT 1");
    assert!(conn_state.is_pinned());
    assert!(conn_state.has_unsafe_state());
}

#[test]
fn test_update_connection_state_close_cursor() {
    let mut conn_state = ConnectionState::new(100);
    conn_state.add_cursor("my_cursor".to_string());
    assert!(conn_state.has_unsafe_state());

    conn_state.apply_query("CLOSE my_cursor");
    assert!(!conn_state.has_unsafe_state());
}

#[test]
fn test_update_connection_state_advisory_lock() {
    let mut conn_state = ConnectionState::new(100);
    conn_state.apply_query("SELECT pg_advisory_lock(12345)");
    assert!(conn_state.is_pinned());
    assert!(conn_state.has_unsafe_state());
}

#[test]
fn test_update_connection_state_advisory_unlock() {
    let mut conn_state = ConnectionState::new(100);
    conn_state.add_advisory_lock(12345);
    assert!(conn_state.has_unsafe_state());

    conn_state.apply_query("SELECT pg_advisory_unlock(12345)");
    assert!(!conn_state.has_unsafe_state());
}

#[test]
fn test_update_connection_state_discard_all() {
    let mut conn_state = ConnectionState::new(100);
    conn_state.add_session_variable("tz".to_string(), "UTC".to_string());
    conn_state.add_prepared_statement("stmt1".to_string(), "SELECT 1".to_string(), vec![]);
    conn_state.add_temp_table("tmp".to_string());
    assert!(conn_state.is_pinned());
    assert!(conn_state.has_unsafe_state());

    conn_state.apply_query("DISCARD ALL");
    assert!(!conn_state.is_pinned());
    assert!(!conn_state.has_unsafe_state());
}

#[test]
fn test_update_connection_state_deallocate() {
    let mut conn_state = ConnectionState::new(100);
    conn_state.add_prepared_statement("stmt1".to_string(), "SELECT 1".to_string(), vec![]);
    assert!(conn_state.is_pinned());

    conn_state.apply_query("DEALLOCATE stmt1");
    assert!(!conn_state.is_pinned());
}

#[test]
fn test_update_connection_state_deallocate_all() {
    let mut conn_state = ConnectionState::new(100);
    conn_state.add_prepared_statement("stmt1".to_string(), "SELECT 1".to_string(), vec![]);
    conn_state.add_prepared_statement("stmt2".to_string(), "SELECT 2".to_string(), vec![]);
    assert!(conn_state.is_pinned());

    conn_state.apply_query("DEALLOCATE ALL");
    assert!(!conn_state.is_pinned());
}

#[test]
fn test_update_connection_state_regular_query_no_effect() {
    let mut conn_state = ConnectionState::new(100);
    conn_state.apply_query("SELECT * FROM users");
    assert!(!conn_state.is_pinned());
}

#[test]
fn test_update_connection_state_drop_table() {
    let mut conn_state = ConnectionState::new(100);
    conn_state.add_temp_table("tmp_users".to_string());
    assert!(conn_state.has_unsafe_state());

    conn_state.apply_query("DROP TABLE tmp_users");
    assert!(!conn_state.has_unsafe_state());
}

#[test]
fn test_build_queue_full_error_format() {
    let error = ConnectionHandler::build_queue_full_error(200);

    // Should start with 'E' (ErrorResponse)
    assert_eq!(error[0], b'E');

    // Length is bytes 1-4 (big-endian i32)
    let length = i32::from_be_bytes([error[1], error[2], error[3], error[4]]);
    assert_eq!(length as usize, error.len() - 1); // Length includes itself but not the 'E'

    // Should contain SQLSTATE 53300
    let error_str = String::from_utf8_lossy(&error);
    assert!(error_str.contains("53300"), "Should contain SQLSTATE 53300");

    // Should contain queue full message
    assert!(
        error_str.contains("connection pool queue is full"),
        "Should contain queue full message"
    );

    // Should contain retry hint with the specified ms
    assert!(error_str.contains("200ms"), "Should contain retry hint with 200ms");
}

#[test]
fn test_build_queue_full_error_different_retry_hint() {
    let error = ConnectionHandler::build_queue_full_error(500);
    let error_str = String::from_utf8_lossy(&error);
    assert!(error_str.contains("500ms"), "Should contain retry hint with 500ms");
}

#[test]
fn test_build_wait_timeout_error_format() {
    let error = ConnectionHandler::build_wait_timeout_error();

    // Should start with 'E' (ErrorResponse)
    assert_eq!(error[0], b'E');

    // Should contain SQLSTATE 53300
    let error_str = String::from_utf8_lossy(&error);
    assert!(error_str.contains("53300"), "Should contain SQLSTATE 53300");

    // Should contain timeout message
    assert!(
        error_str.contains("timeout waiting for connection"),
        "Should contain timeout message"
    );
}

fn handler(strategy: PoolingStrategy) -> ConnectionHandler {
    ConnectionHandler::new(7, "app".to_string(), strategy, 10, disabled_settings())
}

fn query(sql: &str) -> Message {
    Message::Query { query: sql.to_string() }
}

#[test]
fn refused_message_is_answered_and_drops_the_rest_of_the_read() {
    let mut h = handler(PoolingStrategy::Transaction);
    h.begin_read();
    match h.client_message(query("CREATE TEMP TABLE t (id int)"), Instant::now()) {
        ClientStep::Refused(reply) => {
            assert_eq!(reply[0], b'E');
            assert!(reply.ends_with(&[b'Z', 0, 0, 0, 5, b'I']));
            assert!(String::from_utf8_lossy(&reply).contains("0A000"));
        }
        other => panic!("unexpected {other:?}"),
    }
    assert!(!h.should_forward());
    assert!(matches!(h.client_message(query("SELECT 1"), Instant::now()), ClientStep::Dropped));
    assert!(!h.is_pinned());
    assert!(h.finished(false, true).is_none());

    h.begin_read();
    assert!(matches!(h.client_message(query("SELECT 1"), Instant::now()), ClientStep::Accepted));
    assert!(h.should_forward());
    assert_eq!(h.finished(false, true).unwrap().query, "SELECT 1");
}

#[test]
fn bind_uses_the_statement_that_was_parsed() {
    let mut h = handler(PoolingStrategy::Hybrid);
    h.begin_read();
    let parse = Message::Parse {
        name: "s".to_string(),
        query: "SELECT $1".to_string(),
        param_oids: vec![23],
    };
    assert!(matches!(h.client_message(parse, Instant::now()), ClientStep::Accepted));
    assert!(h.is_pinned());
    let bind = Message::Bind {
        portal: "".to_string(),
        statement: "s".to_string(),
        format_codes: vec![0],
        params_raw: vec![Some(vec![b'1'])],
    };
    match h.client_message(bind, Instant::now()) {
        ClientStep::Bind(b) => {
            assert_eq!(b.query, "SELECT $1");
            assert_eq!(b.param_oids, vec![23]);
            assert_eq!(b.params_raw, vec![Some(vec![b'1'])]);
            h.bind(b.portal, b.query, vec![ParamValue::Int32(1)], Instant::now());
        }
        other => panic!("unexpected {other:?}"),
    }
    let done = h.finished(false, true).unwrap();
    assert_eq!(done.query, "SELECT $1");
    assert!(!done.params_incomplete);
    let (event, _) = h.report(done, None, None, Duration::from_millis(2)).unwrap();
    assert_eq!(event.params, vec![ParamValue::Int32(1)]);
    assert_eq!(event.connection_id, "7");
    assert_eq!(event.database, "app");
    assert!(event.success);

    let close = Message::Close { kind: 'S', name: "s".to_string() };
    h.client_message(close, Instant::now());
    assert!(!h.is_pinned());
}

#[test]
fn bind_of_an_unknown_statement_is_reported_without_types() {
    let mut h = handler(PoolingStrategy::Session);
    let bind = Message::Bind {
        portal: "".to_string(),
        statement: "gone".to_string(),
        format_codes: vec![],
        params_raw: vec![None, Some(vec![1])],
    };
    assert!(matches!(h.client_message(bind, Instant::now()), ClientStep::Accepted));
    let done = h.finished(true, false).unwrap();
    assert_eq!(done.query, "[unknown: gone]");
    assert!(done.params_incomplete);
    assert_eq!(
        done.params,
        vec![ParamValue::Null, ParamValue::Unknown { oid: 0, data: vec![1] }]
    );
}

#[test]
fn connection_is_released_when_a_transaction_ends() {
    let mut h = handler(PoolingStrategy::Transaction);
    assert_eq!(h.backend_data(None), BackendStep::Forward);
    assert_eq!(h.backend_data(Some(b'I')), BackendStep::Forward);
    assert_eq!(h.backend_data(Some(b'T')), BackendStep::Forward);
    assert_eq!(
        h.backend_data(Some(b'I')),
        BackendStep::ForwardAndRelease { needs_sticky: false }
    );
}

#[test]
fn pinned_connection_is_kept_in_hybrid_mode() {
    let mut h = handler(PoolingStrategy::Hybrid);
    h.client_message(query("SET timezone = 'UTC'"), Instant::now());
    h.backend_data(Some(b'T'));
    assert_eq!(h.backend_data(Some(b'I')), BackendStep::Forward);
}

#[test]
fn only_movable_state_is_replayed() {
    let mut h = handler(PoolingStrategy::Hybrid);
    assert!(h.state_to_replay(false).is_none());
    h.client_message(query("SET timezone = 'UTC'"), Instant::now());
    assert!(h.state_to_replay(true).is_none());
    let state = h.state_to_replay(false).unwrap();
    assert_eq!(state.session_variables.get("timezone"), Some(&"UTC".to_string()));
    h.client_message(query("LISTEN ch"), Instant::now());
    assert!(h.state_to_replay(false).is_none());
    h.replay_failed();
    assert!(!h.is_pinned());
}

#[test]
fn failed_execution_is_reported_with_its_error() {
    let mut h = handler(PoolingStrategy::Session);
    h.client_message(query("SELECT nope"), Instant::now());
    let done = h.finished(true, false).unwrap();
    let error = Some(("column \"nope\" does not exist".to_string(), None));
    let (event, _) = h.report(done, error, None, Duration::from_millis(3)).unwrap();
    assert!(!event.success);
    assert_eq!(event.error, Some("column \"nope\" does not exist".to_string()));
}

#[test]
fn anonymized_events_of_two_executions_cannot_be_told_apart() {
    let report = |sql: &str, value: &str, error: &str| {
        let settings = enabled_settings(ParseFailureMode::Redact);
        let mut h = DirectHandler::new(1, "db".to_string(), 10, settings);
        let text = vec![ParamValue::Text(value.to_string())];
        h.bind(String::new(), sql.to_string(), text, Instant::now());
        let done = h.finished(true, false).unwrap();
        h.report(
            done,
            Some((error.to_string(), Some("ERROR 22P02".to_string()))),
            anonymized("SELECT ?", &[]),
            Duration::from_millis(4),
        )
        .unwrap()
        .0
    };
    let a = report("SELECT 'alice'", "alice", "bad value alice");
    let b = report("SELECT 'bob'", "bob", "bad value bob");
    assert_eq!(format!("{a:?}"), format!("{b:?}"));
    assert_eq!(a.query, "SELECT ?");
    assert_eq!(a.params, vec![ParamValue::Text(String::new())]);
    assert_eq!(a.error, Some("ERROR 22P02".to_string()));
}

#[test]
fn direct_handler_reports_what_it_forwards() {
    let mut h = DirectHandler::new(12, "db".to_string(), 10, disabled_settings());
    assert!(h.client_message(query("SET x = 1"), Instant::now()).is_none());
    let done = h.finished(false, true).unwrap();
    assert_eq!(done.query, "SET x = 1");
    let (event, _) = h.report(done, None, None, Duration::from_millis(1)).unwrap();
    assert_eq!(event.connection_id, "12");
    assert!(h.finished(false, true).is_none());
    h.client_message(
        Message::Parse { name: "s".to_string(), query: "Q".to_string(), param_oids: vec![] },
        Instant::now(),
    );
    let request = h
        .client_message(
            Message::Bind {
                portal: "".to_string(),
                statement: "s".to_string(),
                format_codes: vec![],
                params_raw: vec![],
            },
            Instant::now(),
        )
        .unwrap();
    h.bind(request.portal, request.query, vec![], Instant::now());
    assert_eq!(h.finished(false, true).unwrap().query, "Q");
}

#[test]
fn clients_are_told_as_the_mode_says() {
    let full = || AcquireError::QueueFull(QueueFullError);
    assert!(matches!(
        ConnectionHandler::handle_acquire_error(full(), BackpressureMode::RejectImmediate, 100),
        AcquireResponse::Close
    ));
    assert!(matches!(
        ConnectionHandler::handle_acquire_error(full(), BackpressureMode::LogAndReject, 100),
        AcquireResponse::Close
    ));
    match ConnectionHandler::handle_acquire_error(full(), BackpressureMode::RetryHint, 100) {
        AcquireResponse::SendAndClose(b) => {
            assert_eq!(b, ConnectionHandler::build_queue_full_error(100))
        }
        other => panic!("unexpected {other:?}"),
    }
    match ConnectionHandler::handle_acquire_error(
        AcquireError::WaitTimeout,
        BackpressureMode::RetryHint,
        100,
    ) {
        AcquireResponse::SendAndClose(b) => {
            assert_eq!(b, ConnectionHandler::build_wait_timeout_error())
        }
        other => panic!("unexpected {other:?}"),
    }
    match ConnectionHandler::handle_acquire_error(
        AcquireError::PoolError("gone".to_string()),
        BackpressureMode::RetryHint,
        100,
    ) {
        AcquireResponse::Fail(m) => {
            assert_eq!(m, "Failed to acquire connection from pool: gone")
        }
        other => panic!("unexpected {other:?}"),
    }
}

#[test]
fn startup_data_is_forwarded_until_the_backend_is_ready() {
    assert_eq!(ConnectionHandler::startup_leftover(&[], false), StartupStep::Read);
    assert_eq!(ConnectionHandler::startup_leftover(b"S", false), StartupStep::ForwardAndRead);
    assert_eq!(ConnectionHandler::startup_leftover(b"Z", true), StartupStep::ForwardAndFinish);
    assert_eq!(ConnectionHandler::startup_read(&[], false), StartupStep::Closed);
    assert_eq!(ConnectionHandler::startup_read(b"S", false), StartupStep::ForwardAndRead);
    assert_eq!(ConnectionHandler::startup_read(b"Z", true), StartupStep::ForwardAndFinish);
}
