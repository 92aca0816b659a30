use scry_proxy::config::{
    AdminConfig, AuthConfig, AuthType, BackendConfig, DatabaseConfig, DatabaseProtocol,
    PerformanceConfig, PoolingStrategy,
};
use scry_proxy::names::NameMap;
use scry_proxy::proxy::admin_gate::{
    admin_frame, admin_greeting, admin_login, admin_wants, constant_time_eq, AdminFrame,
    AdminGreeting, AdminLogin, AdminRequest,
};
use scry_proxy::proxy::admin_handles::{ClientRegistry, ClientState, ServerRegistry};
use scry_proxy::proxy::server::{
    cleanup_interval_secs, client_entry, identify, plan_auth, plan_breaker, plan_pools, AuthCell,
    AuthPlan, PoolPlan, ProxyServer,
};
use scry_proxy::proxy::state_replayer::StateReplayer;
use scry_proxy::proxy::tcp_pool::PoolStatus;
use scry_proxy::resilience::circuit_breaker::CircuitBreakerConfig;
use scry_proxy::routing::DatabaseRouter;
use std::time::{Duration, Instant};

#[test]
fn test_constant_time_eq() {
    assert!(constant_time_eq(b"secret", b"secret"));
    assert!(!constant_time_eq(b"secret", b"secreT"));
    assert!(!constant_time_eq(b"secret", b"secret-longer"));
    assert!(!constant_time_eq(b"", b"x"));
    assert!(constant_time_eq(b"", b""));
}

fn admin(enabled: bool, password: Option<&str>) -> AdminConfig {
    AdminConfig { enabled, admin_users: None, admin_password: password.map(|p| p.to_string()) }
}

fn refusal(config: &AdminConfig) -> Vec<u8> {
    match admin_greeting(config) {
        AdminGreeting::Refuse(reply) => reply,
        AdminGreeting::AskPassword(_) => panic!("the console must be closed"),
    }
}

#[test]
fn admin_console_disabled_is_refused() {
    let resp = refusal(&AdminConfig::default());
    assert_eq!(resp[0], b'E', "disabled console must return an ErrorResponse");
    assert!(resp.windows(5).any(|w| w == b"28000"));
}

#[test]
fn admin_console_enabled_without_credential_is_refused() {
    let resp = refusal(&admin(true, None));
    assert_eq!(resp[0], b'E');
    assert!(resp.windows(5).any(|w| w == b"28000"));
    refusal(&admin(true, Some("")));
    refusal(&admin(false, Some("pw")));
    assert!(matches!(admin_login(&admin(true, Some("")), Some("")), AdminLogin::Refuse(_)));
}

#[test]
fn admin_console_wrong_password_is_refused() {
    let config = admin(true, Some("correct-horse"));
    match admin_greeting(&config) {
        AdminGreeting::AskPassword(request) => {
            assert_eq!(request, vec![b'R', 0, 0, 0, 8, 0, 0, 0, 3])
        }
        AdminGreeting::Refuse(_) => panic!("the console is open"),
    }
    for provided in [Some("wrong-password"), Some(""), None] {
        match admin_login(&config, provided) {
            AdminLogin::Refuse(resp) => {
                assert_eq!(resp[0], b'E', "wrong password must return an ErrorResponse");
                assert!(resp.windows(5).any(|w| w == b"28P01"));
            }
            AdminLogin::Welcome(_) => panic!("the password is wrong"),
        }
    }
}

#[test]
fn admin_console_correct_password_authenticates() {
    match admin_login(&admin(true, Some("correct-horse")), Some("correct-horse")) {
        AdminLogin::Welcome(resp) => {
            // AuthenticationOk is 'R' with auth-type 0.
            assert_eq!(resp[0], b'R', "correct password must yield AuthenticationOk");
            assert_eq!(&resp[1..9], &[0, 0, 0, 8, 0, 0, 0, 0]);
            assert_eq!(&resp[9..], &[b'Z', 0, 0, 0, 5, b'I']);
        }
        AdminLogin::Refuse(_) => panic!("the password is right"),
    }
}

#[test]
fn commands_of_the_console_are_read() {
    let message = StateReplayer::build_query_message("SHOW CLIENTS; -- \u{e4}");
    match admin_wants(admin_frame(&message)) {
        AdminRequest::Execute(command) => assert_eq!(command, "SHOW CLIENTS; -- \u{e4}"),
        other => panic!("unexpected {other:?}"),
    }
    assert!(matches!(admin_frame(&[]), AdminFrame::Closed));
    assert!(matches!(admin_frame(&[b'X', 0, 0, 0, 4]), AdminFrame::Terminate));
    assert!(matches!(admin_frame(&[b'S', 0, 0, 0, 4]), AdminFrame::Ignored));
    assert!(matches!(admin_frame(&message[..8]), AdminFrame::Ignored));
    assert!(matches!(admin_frame(&[b'Q', 0, 0, 0, 4]), AdminFrame::Malformed));
    assert!(matches!(admin_frame(&[b'Q', 0xff, 0xff, 0xff, 0xff]), AdminFrame::Ignored));
    assert!(matches!(admin_wants(AdminFrame::Closed), AdminRequest::Leave));
    assert!(matches!(admin_wants(AdminFrame::Terminate), AdminRequest::Leave));
    assert!(matches!(admin_wants(AdminFrame::Malformed), AdminRequest::Malformed));
    assert!(matches!(admin_wants(AdminFrame::Ignored), AdminRequest::Ignore));
}

#[test]
fn command_that_is_not_utf8_is_still_read() {
    match admin_wants(AdminFrame::Query(vec![b'a', 0xff, b'b'])) {
        AdminRequest::Execute(command) => assert_eq!(command, "a\u{fffd}b"),
        other => panic!("unexpected {other:?}"),
    }
}

fn database(name: &str, pool_size: Option<usize>) -> DatabaseConfig {
    DatabaseConfig {
        name: name.to_string(),
        host: format!("{name}-host"),
        port: 5432,
        database: format!("{name}_db"),
        user: format!("{name}_user"),
        password: format!("{name}_pass"),
        pool_size,
    }
}

fn backend() -> BackendConfig {
    BackendConfig {
        protocol: DatabaseProtocol::Postgres,
        host: "default-host".to_string(),
        port: 5432,
        database: "default_db".to_string(),
        user: "default_user".to_string(),
        password: "default_pass".to_string(),
        password_file: None,
        pool_size: 10,
        connection_timeout_ms: 5000,
    }
}

fn performance(connection_pooling: PoolingStrategy) -> PerformanceConfig {
    PerformanceConfig {
        connection_pooling,
        pool_size: 50,
        pool_min_idle: 8,
        pool_lifo: true,
        pool_queue_depth: 100,
        pool_timeout_secs: 30,
        pool_idle_unpin_secs: 300,
    }
}

fn server(databases: &[DatabaseConfig], strategy: PoolingStrategy) -> ProxyServer<PoolPlan> {
    let perf = performance(strategy);
    let router = DatabaseRouter::new(databases, &backend(), perf.pool_size);
    let pools = plan_pools(&router, databases, &perf);
    ProxyServer::new(pools, router, 100)
}

#[test]
fn test_server_creates_pool_manager() {
    let server = server(&[], PoolingStrategy::Hybrid);
    assert!(server.pool_manager().is_some());
    assert!(server.warms_up(1));
    assert!(!server.warms_up(0));
}

#[test]
fn test_server_no_pool_manager_when_pooling_disabled() {
    let server = server(&[database("app", None)], PoolingStrategy::Disabled);
    assert!(server.pool_manager().is_none());
    assert!(server.pool_manager_for("app").is_none());
    assert!(!server.warms_up(1));
}

#[test]
fn test_server_creates_per_database_pools() {
    let server = server(
        &[database("app1", Some(5)), database("app2", None)],
        PoolingStrategy::Transaction,
    );

    // Should have default pool manager
    assert!(server.pool_manager().is_some());

    // Should route to specific pool for configured databases
    let app1 = server.pool_manager_for("app1").unwrap();
    assert_eq!(app1.database.host, "app1-host");
    assert_eq!(app1.pool_size, 5);
    assert_eq!(app1.min_idle, 5);
    let app2 = server.pool_manager_for("app2").unwrap();
    assert_eq!(app2.pool_size, 50);
    assert_eq!(app2.min_idle, 8);
    assert_eq!(app2.manager.wait_timeout_ms, 30_000);

    // Should fallback to default for unknown databases
    let unknown = server.pool_manager_for("unknown").unwrap();
    assert_eq!(unknown.database.name, "*");

    // Router should have the configured databases
    assert!(server.router().has_route("app1"));
    assert!(server.router().has_route("app2"));
    assert!(!server.router().has_route("unknown"));

    let identity = identify(None, Some("app1".to_string()));
    assert_eq!(server.pool_for_client(&identity).unwrap().pool_size, 5);
    let nameless = identify(None, None);
    assert_eq!(server.pool_for_client(&nameless).unwrap().database.name, "*");
}

#[test]
fn test_server_no_authenticator_in_trust_mode() {
    let config = AuthConfig { auth_type: AuthType::Trust, auth_file: None };
    assert!(matches!(plan_auth(&config), AuthPlan::Trust));
    let config = AuthConfig { auth_type: AuthType::Md5, auth_file: None };
    assert!(matches!(plan_auth(&config), AuthPlan::FallBackToTrust));
    let config = AuthConfig { auth_type: AuthType::Trust, auth_file: Some("users".to_string()) };
    assert!(matches!(plan_auth(&config), AuthPlan::LoadFile(f) if f == "users"));
}

#[test]
fn test_config_reload_updates_auth_file() {
    let mut cell = AuthCell::new(Some("old users"));
    let reload: Result<(), String> = cell.apply_config_reload(Some(Err("no file".to_string())));
    assert_eq!(reload, Err("no file".to_string()));
    assert_eq!(cell.authenticator(), Some(&"old users"));
    let reload: Result<(), String> = cell.apply_config_reload(Some(Ok("new users")));
    assert!(reload.is_ok());
    assert_eq!(cell.authenticator(), Some(&"new users"));
    let reload: Result<(), String> = cell.apply_config_reload(None);
    assert!(reload.is_ok());
    assert_eq!(cell.authenticator(), Some(&"new users"));
}

#[test]
fn test_server_has_active_connection_counter() {
    let server = server(&[], PoolingStrategy::Session);
    assert_eq!(server.active_connection_count(), 0);
    assert_eq!(server.max_connections(), 100);
}

#[test]
fn test_connection_counter_increments_on_spawn() {
    let router = DatabaseRouter::new(&[], &backend(), 1);
    let mut server: ProxyServer<u8> = ProxyServer::new(NameMap::new(), router, 2);
    assert_eq!(server.accept(), Some(1));
    assert_eq!(server.accept(), Some(2));
    assert_eq!(server.active_connection_count(), 2);
    assert_eq!(server.accept(), None);
    server.close();
    assert_eq!(server.active_connection_count(), 1);
    assert_eq!(server.accept(), Some(3));
    assert_eq!(server.connection_count(), 3);
}

#[test]
fn client_over_the_limit_is_told() {
    let reply = ProxyServer::<u8>::build_over_limit_error();
    let mut expected = vec![b'E', 0, 0, 0, 52];
    expected.extend_from_slice(b"SFATAL\0C53300\0Msorry, too many clients already\0\0");
    assert_eq!(reply, expected);
}

#[test]
fn connections_made_in_advance_are_summed_up() {
    assert_eq!(ProxyServer::<u8>::warmup_pools(&vec![2, 0, 3]), 5);
    assert_eq!(ProxyServer::<u8>::warmup_pools(&vec![]), 0);
}

#[test]
fn idle_connections_are_looked_for_twice_in_their_time() {
    assert_eq!(cleanup_interval_secs(300, true), Some(150));
    assert_eq!(cleanup_interval_secs(1, true), Some(1));
    assert_eq!(cleanup_interval_secs(0, true), None);
    assert_eq!(cleanup_interval_secs(300, false), None);
}

#[test]
fn console_is_reached_in_any_letter_case() {
    assert!(identify(None, Some("PgBouncer".to_string())).is_admin);
    assert!(!identify(None, Some("pgbouncer2".to_string())).is_admin);
    assert!(!identify(Some("pgbouncer".to_string()), None).is_admin);
}

fn registered(registry: &mut ClientRegistry<&'static str>, id: u64, db: &str, now: Instant) {
    let identity = identify(Some("bob".to_string()), Some(db.to_string()));
    registry.register(client_entry(id, &Some("1.2.3.4:5".to_string()), &identity, now, true));
}

#[test]
fn clients_are_listed_until_they_leave() {
    let now = Instant::now();
    let mut registry = ClientRegistry::new();
    assert!(registry.is_empty());
    registered(&mut registry, 1, "app", now);
    registered(&mut registry, 2, "pgbouncer", now);
    assert_eq!(registry.len(), 2);
    let entry = registry.get(1).unwrap();
    assert_eq!(entry.user, "bob");
    assert_eq!(entry.database, "app");
    assert_eq!(entry.addr, "1.2.3.4:5");
    assert_eq!(entry.state, ClientState::Active);
    assert!(entry.tls);
    assert_eq!(registry.get(2).unwrap().state, ClientState::Admin);
    let later = now + Duration::from_secs(1);
    registry.touch(1, ClientState::Admin, later);
    assert_eq!(registry.get(1).unwrap().last_request_time, later);
    registry.deregister(1);
    assert!(registry.get(1).is_none());
    assert_eq!(registry.snapshot().len(), 1);

    let local = client_entry(3, &None, &identify(None, None), now, false);
    assert_eq!(local.addr, "unix");
    assert_eq!(local.user, "");
    assert_eq!(local.database, "");
}

#[test]
fn clients_of_a_database_are_killed_together() {
    let now = Instant::now();
    let mut registry = ClientRegistry::new();
    for (id, db) in [(1, "app"), (2, "APP"), (3, "other")] {
        registry.register_abort_handle(id, "stop");
        registered(&mut registry, id, db, now);
    }
    let mut killed = registry.kill_by_database("app");
    killed.ids.sort();
    assert_eq!(killed.ids, vec![1, 2]);
    assert_eq!(killed.handles.len(), 2);
    assert!(registry.kill_by_database("nowhere").ids.is_empty());
}

#[test]
fn pools_are_shown_as_they_stand() {
    let status = PoolStatus {
        size: 3,
        available: 1,
        max_size: 10,
        protocol: "postgres".to_string(),
        backend_addr: "h:1".to_string(),
    };
    let shown = ServerRegistry::snapshot(vec![("app".to_string(), status)]);
    assert_eq!(shown.len(), 1);
    assert_eq!(shown[0].database, "app");
    assert_eq!(shown[0].backend_addr, "h:1");
    assert_eq!(shown[0].size, 3);
    assert_eq!(shown[0].available, 1);
    assert_eq!(shown[0].max_size, 10);
}

#[test]
fn pools_have_breakers_where_they_are_enabled() {
    let config = |enabled: bool, use_health_monitor: bool| CircuitBreakerConfig {
        enabled,
        failure_threshold: 5,
        success_threshold: 2,
        window_secs: 30,
        open_timeout_secs: 60,
        use_health_monitor,
    };
    assert_eq!(plan_breaker(&config(true, true)), Some(true));
    assert_eq!(plan_breaker(&config(true, false)), Some(false));
    assert_eq!(plan_breaker(&config(false, true)), None);
}
