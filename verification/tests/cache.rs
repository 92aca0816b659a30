use scry_proxy::proxy::cache::{PendingExecution, PreparedStatement, PreparedStatementCache};
use std::time::Instant;

fn make_stmt(query: &str) -> PreparedStatement {
    PreparedStatement { query: query.to_string(), param_oids: vec![] }
}

fn pending(query: &str) -> PendingExecution {
    PendingExecution {
        query: query.into(),
        params: vec![],
        params_incomplete: false,
        started_at: Instant::now(),
    }
}

#[test]
fn test_insert_and_get() {
    let mut cache = PreparedStatementCache::new(10);
    cache.insert_statement("s1".into(), make_stmt("SELECT 1"));

    let stmt = cache.get_statement("s1");
    assert!(stmt.is_some());
    assert_eq!(stmt.unwrap().query, "SELECT 1");
}

#[test]
fn test_lru_eviction() {
    let mut cache = PreparedStatementCache::new(2);
    cache.insert_statement("a".into(), make_stmt("SELECT a"));
    cache.insert_statement("b".into(), make_stmt("SELECT b"));
    cache.insert_statement("c".into(), make_stmt("SELECT c")); // evicts "a"

    assert!(cache.get_statement("a").is_none());
    assert!(cache.get_statement("b").is_some());
    assert!(cache.get_statement("c").is_some());
}

#[test]
fn test_lru_access_updates_order() {
    let mut cache = PreparedStatementCache::new(2);
    cache.insert_statement("a".into(), make_stmt("SELECT a"));
    cache.insert_statement("b".into(), make_stmt("SELECT b"));

    // Access "a" to make it most recently used
    cache.get_statement("a");

    // Insert "c" - should evict "b" not "a"
    cache.insert_statement("c".into(), make_stmt("SELECT c"));

    assert!(cache.get_statement("a").is_some());
    assert!(cache.get_statement("b").is_none());
    assert!(cache.get_statement("c").is_some());
}

#[test]
fn test_remove_statement() {
    let mut cache = PreparedStatementCache::new(10);
    cache.insert_statement("s1".into(), make_stmt("SELECT 1"));
    cache.remove_statement("s1");

    assert!(cache.get_statement("s1").is_none());
    assert_eq!(cache.len(), 0);
}

#[test]
fn test_pending_execution() {
    let mut cache = PreparedStatementCache::new(10);

    cache.set_pending("".into(), pending("SELECT 1"));

    let taken = cache.take_pending("");
    assert!(taken.is_some());
    assert_eq!(taken.unwrap().query, "SELECT 1");

    // Should be gone after take
    assert!(cache.take_pending("").is_none());
}

#[test]
fn test_clear() {
    let mut cache = PreparedStatementCache::new(10);
    cache.insert_statement("s1".into(), make_stmt("SELECT 1"));
    cache.set_pending("p1".into(), pending("SELECT 1"));

    cache.clear();

    assert!(cache.get_statement("s1").is_none());
    assert!(cache.take_pending("p1").is_none());
    assert!(cache.is_empty());
}

#[test]
fn cache_never_outgrows_its_size() {
    let mut cache = PreparedStatementCache::new(3);
    for i in 0..10 {
        cache.insert_statement(format!("s{i}"), make_stmt("SELECT 1"));
        assert!(cache.len() <= 3);
    }
    assert!(cache.get_statement("s9").is_some());
    assert!(cache.get_statement("s6").is_none());
}

#[test]
fn statement_is_replaced_under_its_name() {
    let mut cache = PreparedStatementCache::new(3);
    cache.insert_statement("a".into(), make_stmt("one"));
    cache.insert_statement("b".into(), make_stmt("two"));
    cache.insert_statement("a".into(), make_stmt("three"));
    assert_eq!(cache.len(), 2);
    assert_eq!(cache.get_statement("a").unwrap().query, "three");
    assert_eq!(cache.get_statement("b").unwrap().query, "two");
}

#[test]
fn full_cache_evicts_the_oldest_even_for_a_name_it_has() {
    let mut cache = PreparedStatementCache::new(2);
    cache.insert_statement("a".into(), make_stmt("one"));
    cache.insert_statement("b".into(), make_stmt("two"));
    cache.insert_statement("a".into(), make_stmt("three"));
    assert_eq!(cache.len(), 1);
    assert_eq!(cache.get_statement("a").unwrap().query, "three");
    assert!(cache.get_statement("b").is_none());
}

#[test]
fn pending_can_be_asked_for_and_cleared() {
    let mut cache = PreparedStatementCache::new(2);
    cache.set_pending("p".into(), pending("one"));
    cache.set_pending("p".into(), pending("two"));
    assert!(cache.has_pending("p"));
    assert!(!cache.has_pending("q"));
    assert_eq!(cache.take_pending("p").unwrap().query, "two");
    cache.set_pending("p".into(), pending("three"));
    cache.clear_pending("p");
    assert!(!cache.has_pending("p"));
}
