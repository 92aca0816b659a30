use scry_proxy::names::NameMap;
use scry_proxy::proxy::connection_state::{PreparedStatementInfo, ReplayableState};
use scry_proxy::proxy::state_replayer::{
    ReadStep, Replay, ReplayError, ReplayResult, ResponseReader, StateReplayer,
};

#[test]
fn test_build_query_message_simple() {
    let query = "SELECT 1";
    let message = StateReplayer::build_query_message(query);

    assert_eq!(message[0], b'Q');

    // Length is big-endian i32
    let length = i32::from_be_bytes([message[1], message[2], message[3], message[4]]);
    assert_eq!(length, 13); // 4 + 8 + 1

    // Query string
    assert_eq!(&message[5..13], b"SELECT 1");

    // Null terminator
    assert_eq!(message[13], 0);

    // Total length
    assert_eq!(message.len(), 14); // 1 (Q) + 4 (len) + 8 (query) + 1 (null)
}

#[test]
fn test_build_query_message_with_special_chars() {
    let query = "SET timezone = 'UTC'";
    let message = StateReplayer::build_query_message(query);

    assert_eq!(message[0], b'Q');

    // length = 4 + 20 + 1 = 25
    let length = i32::from_be_bytes([message[1], message[2], message[3], message[4]]);
    assert_eq!(length, 25);

    // Total length = 1 + 4 + 20 + 1 = 26
    assert_eq!(message.len(), 26);
}

fn build_pg_message(tag: u8, payload: &[u8]) -> Vec<u8> {
    let mut msg = Vec::new();
    msg.push(tag);
    let length = (4 + payload.len()) as i32;
    msg.extend_from_slice(&length.to_be_bytes());
    msg.extend_from_slice(payload);
    msg
}

fn build_command_complete(command: &str) -> Vec<u8> {
    let mut payload = command.as_bytes().to_vec();
    payload.push(0); // null terminator
    build_pg_message(b'C', &payload)
}

fn build_ready_for_query(status: u8) -> Vec<u8> {
    build_pg_message(b'Z', &[status])
}

fn build_error_response(severity: &str, message: &str) -> Vec<u8> {
    let mut payload = Vec::new();
    payload.push(b'S');
    payload.extend_from_slice(severity.as_bytes());
    payload.push(0);
    payload.push(b'M');
    payload.extend_from_slice(message.as_bytes());
    payload.push(0);
    payload.push(0);
    build_pg_message(b'E', &payload)
}

#[test]
fn test_parse_response_success() {
    // CommandComplete + ReadyForQuery = success
    let mut response = build_command_complete("SET");
    response.extend(build_ready_for_query(b'I')); // Idle status

    let result = StateReplayer::parse_response(&response);
    assert!(result.is_ok());
    assert!(result.unwrap()); // true = success
}

#[test]
fn test_parse_response_error() {
    // ErrorResponse + ReadyForQuery = failure
    let mut response = build_error_response("ERROR", "syntax error");
    response.extend(build_ready_for_query(b'I'));

    let result = StateReplayer::parse_response(&response);
    assert!(result.is_ok());
    assert!(!result.unwrap()); // false = error
}

#[test]
fn test_parse_response_incomplete() {
    // Just 'Z' with no length or data
    let response = vec![b'Z'];

    let result = StateReplayer::parse_response(&response);
    assert!(result.is_err());
}

#[test]
fn test_parse_response_only_command_complete() {
    // CommandComplete only, no ReadyForQuery - incomplete
    let response = build_command_complete("SET");

    let result = StateReplayer::parse_response(&response);
    assert!(result.is_err());
}

#[test]
fn each_kind_of_incomplete_response_has_its_error() {
    assert_eq!(
        StateReplayer::parse_response(&[b'Z', 0, 0]),
        Err("Incomplete message header".to_string())
    );
    assert_eq!(
        StateReplayer::parse_response(&[b'C', 0, 0, 0, 9, b'S']),
        Err("Incomplete message body".to_string())
    );
    assert_eq!(
        StateReplayer::parse_response(&build_command_complete("SET")),
        Err("No ReadyForQuery received".to_string())
    );
    assert_eq!(
        StateReplayer::parse_response(&[]),
        Err("No ReadyForQuery received".to_string())
    );
}

#[test]
fn length_that_does_not_cover_itself_is_malformed() {
    let malformed = Err("Malformed message length".to_string());
    for length in 0..4 {
        for tag in [b'Z', b'E', b'C'] {
            assert_eq!(StateReplayer::parse_response(&[tag, 0, 0, 0, length]), malformed);
        }
        let mut response = build_command_complete("SET");
        response.extend_from_slice(&[b'Z', 0, 0, 0, length, b'I']);
        assert_eq!(StateReplayer::parse_response(&response), malformed);
    }
    assert_eq!(StateReplayer::parse_response(&[b'Z', 0, 0, 0, 4]), Ok(true));
}

#[test]
fn test_build_prepare_sql_simple() {
    let sql = StateReplayer::build_prepare_sql("my_stmt", "SELECT $1");
    assert_eq!(sql, "PREPARE my_stmt AS SELECT $1");
}

#[test]
fn test_build_prepare_sql_complex() {
    let sql = StateReplayer::build_prepare_sql(
        "insert_user",
        "INSERT INTO users (name, email) VALUES ($1, $2)",
    );
    assert_eq!(sql, "PREPARE insert_user AS INSERT INTO users (name, email) VALUES ($1, $2)");
}

#[test]
fn test_build_set_sql_simple_value() {
    let sql = StateReplayer::build_set_sql("timezone", "UTC");
    assert_eq!(sql, "SET timezone = 'UTC'");
}

#[test]
fn test_build_set_sql_search_path() {
    // search_path uses TO syntax without quotes for schema names
    let sql = StateReplayer::build_set_sql("search_path", "public, myschema");
    assert_eq!(sql, "SET search_path TO public, myschema");
}

#[test]
fn test_build_set_sql_with_quotes_in_value() {
    // Values with quotes should be escaped
    let sql = StateReplayer::build_set_sql("my_setting", "it's a test");
    assert_eq!(sql, "SET my_setting = 'it''s a test'");
}

#[test]
fn test_build_set_sql_numeric_value() {
    let sql = StateReplayer::build_set_sql("statement_timeout", "5000");
    assert_eq!(sql, "SET statement_timeout = '5000'");
}

fn state(
    variables: &[(&str, &str)],
    statements: Vec<PreparedStatementInfo>,
) -> ReplayableState {
    let mut session_variables = NameMap::new();
    for (name, value) in variables {
        session_variables.insert(name.to_string(), value.to_string());
    }
    ReplayableState { prepared_statements: statements, session_variables }
}

#[test]
fn test_replay_empty_state() {
    let replay = Replay::new(state(&[], vec![]));
    assert!(replay.next_message().is_none());
    let result = replay.finish();
    assert_eq!(result.prepared_statements_replayed, 0);
    assert_eq!(result.session_variables_replayed, 0);
    assert!(result.errors.is_empty());
}

#[test]
fn test_replay_session_variable() {
    let mut replay = Replay::new(state(&[("timezone", "UTC")], vec![]));
    let message = replay.next_message().unwrap();
    assert_eq!(message[0], b'Q'); // Query message

    let mut response = build_command_complete("SET");
    response.extend(build_ready_for_query(b'I'));
    let mut reader = ResponseReader::new();
    assert!(matches!(reader.receive(&response), ReadStep::Done(true)));
    replay.record(true);
    assert!(replay.next_message().is_none());

    let result = replay.finish();
    assert_eq!(result.session_variables_replayed, 1);
    assert_eq!(result.prepared_statements_replayed, 0);
    assert!(result.errors.is_empty());
}

#[test]
fn test_replay_prepared_statement() {
    let mut replay = Replay::new(state(
        &[],
        vec![PreparedStatementInfo {
            name: "my_stmt".to_string(),
            query: "SELECT $1".to_string(),
            param_oids: vec![23], // int4
        }],
    ));
    let message = replay.next_message().unwrap();
    assert_eq!(message, StateReplayer::build_query_message("PREPARE my_stmt AS SELECT $1"));
    replay.record(true);

    let result = replay.finish();
    assert_eq!(result.prepared_statements_replayed, 1);
    assert_eq!(result.session_variables_replayed, 0);
    assert!(result.errors.is_empty());
}

#[test]
fn test_replay_with_error() {
    let mut replay = Replay::new(state(
        &[],
        vec![PreparedStatementInfo {
            name: "bad_stmt".to_string(),
            query: "SELECT * FROM nonexistent".to_string(),
            param_oids: vec![],
        }],
    ));
    assert!(replay.next_message().is_some());

    let mut response = build_error_response("ERROR", "relation does not exist");
    response.extend(build_ready_for_query(b'I'));
    let mut reader = ResponseReader::new();
    assert!(matches!(reader.receive(&response), ReadStep::Done(false)));
    replay.record(false);

    let result = replay.finish();
    assert_eq!(result.prepared_statements_replayed, 0);
    assert_eq!(result.errors.len(), 1);
    match &result.errors[0] {
        ReplayError::PreparedStatement { name, .. } => {
            assert_eq!(name, "bad_stmt");
        }
        _ => panic!("Expected PreparedStatement error"),
    }
}

#[test]
fn variables_come_before_statements() {
    let mut replay = Replay::new(state(
        &[("a", "1"), ("search_path", "x")],
        vec![PreparedStatementInfo {
            name: "s".to_string(),
            query: "SELECT 1".to_string(),
            param_oids: vec![],
        }],
    ));
    assert_eq!(
        replay.next_message().unwrap(),
        StateReplayer::build_query_message("SET a = '1'")
    );
    replay.record(false);
    assert_eq!(
        replay.next_message().unwrap(),
        StateReplayer::build_query_message("SET search_path TO x")
    );
    replay.record(true);
    assert_eq!(
        replay.next_message().unwrap(),
        StateReplayer::build_query_message("PREPARE s AS SELECT 1")
    );
    replay.record(true);
    assert!(replay.next_message().is_none());
    let result = replay.finish();
    assert_eq!(result.total_replayed(), 2);
    assert!(!result.is_success());
    match &result.errors[0] {
        ReplayError::SessionVariable { name, error } => {
            assert_eq!(name, "a");
            assert_eq!(error, "Failed to replay SET a = '1'");
        }
        other => panic!("unexpected {other:?}"),
    }
}

#[test]
fn answer_may_come_in_pieces() {
    let mut response = build_command_complete("SET");
    response.extend(build_ready_for_query(b'I'));
    let mut reader = ResponseReader::new();
    let last = response.len() - 1;
    for byte in &response[..last] {
        assert!(matches!(reader.receive(&[*byte]), ReadStep::More));
    }
    assert!(matches!(reader.receive(&response[last..]), ReadStep::Done(true)));
}

#[test]
fn end_of_the_connection_ends_the_answer() {
    let mut reader = ResponseReader::new();
    assert!(matches!(reader.receive(&[b'C']), ReadStep::More));
    assert!(matches!(reader.receive(&[]), ReadStep::Closed));
}

#[test]
fn test_replay_result_is_success() {
    let result = ReplayResult::default();
    assert!(result.is_success());

    let result_with_error = ReplayResult {
        errors: vec![ReplayError::SessionVariable {
            name: "tz".to_string(),
            error: "failed".to_string(),
        }],
        ..Default::default()
    };
    assert!(!result_with_error.is_success());
}

#[test]
fn test_replay_result_total_replayed() {
    let result = ReplayResult {
        prepared_statements_replayed: 3,
        session_variables_replayed: 2,
        errors: vec![],
    };
    assert_eq!(result.total_replayed(), 5);
}
