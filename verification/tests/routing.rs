use scry_proxy::config::{BackendConfig, DatabaseConfig, DatabaseProtocol};
use scry_proxy::routing::DatabaseRouter;

fn create_test_backend() -> BackendConfig {
    BackendConfig {
        protocol: DatabaseProtocol::Postgres,
        host: "default-host".to_string(),
        port: 5432,
        database: "default_db".to_string(),
        user: "default_user".to_string(),
        password: "default_pass".to_string(),
        password_file: None,
        pool_size: 10,
        connection_timeout_ms: 5000,
    }
}

fn database(name: &str, host: &str, port: u16, db: &str, pool_size: Option<usize>) -> DatabaseConfig {
    DatabaseConfig {
        name: name.to_string(),
        host: host.to_string(),
        port,
        database: db.to_string(),
        user: "user".to_string(),
        password: "pass".to_string(),
        pool_size,
    }
}

#[test]
fn test_router_with_no_databases() {
    let backend = create_test_backend();
    let router = DatabaseRouter::new(&[], &backend, 50);

    // Should return default for any database
    let config = router.route("any_database");
    assert_eq!(config.host, "default-host");
    assert_eq!(config.database, "default_db");
    assert_eq!(config.name, "*");
    assert_eq!(config.pool_size, Some(50));
}

#[test]
fn test_router_routes_to_specific_database() {
    let backend = create_test_backend();
    let databases = vec![
        database("myapp", "myapp-host", 5433, "myapp_db", Some(20)),
        database("analytics", "analytics-host", 5434, "analytics_db", None),
    ];

    let router = DatabaseRouter::new(&databases, &backend, 50);

    // Should route to specific database
    let config = router.route("myapp");
    assert_eq!(config.host, "myapp-host");
    assert_eq!(config.port, 5433);
    assert_eq!(config.database, "myapp_db");
    assert_eq!(config.pool_size, Some(20));

    // Should route to another specific database
    let config = router.route("analytics");
    assert_eq!(config.host, "analytics-host");
    assert_eq!(config.database, "analytics_db");

    // Should fall back to default for unknown database
    let config = router.route("unknown");
    assert_eq!(config.host, "default-host");
    assert_eq!(config.name, "*");
}

#[test]
fn test_has_route() {
    let backend = create_test_backend();
    let databases = vec![database("myapp", "myapp-host", 5433, "myapp_db", Some(20))];

    let router = DatabaseRouter::new(&databases, &backend, 50);

    assert!(router.has_route("myapp"));
    assert!(!router.has_route("unknown"));
}

#[test]
fn test_database_names() {
    let backend = create_test_backend();
    let databases = vec![
        database("db1", "host1", 5432, "db1", None),
        database("db2", "host2", 5432, "db2", None),
    ];

    let router = DatabaseRouter::new(&databases, &backend, 50);

    let names: Vec<&str> = router.database_names();
    assert_eq!(router.route_count(), 2);
    assert!(names.contains(&"db1"));
    assert!(names.contains(&"db2"));
}

#[test]
fn last_of_two_entries_counts() {
    let databases = vec![
        database("db", "first", 1, "a", None),
        database("db", "second", 2, "b", None),
    ];
    let router = DatabaseRouter::new(&databases, &create_test_backend(), 5);
    assert_eq!(router.route_count(), 1);
    assert_eq!(router.route("db").host, "second");
    assert_eq!(router.default_config().host, "default-host");
}
