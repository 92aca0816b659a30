use scry_protocol::{FlexBuffersDeserializer, QueryEventBuilder};
use scry_proxy::proxy::event_batcher::EventBatcher;
use scry_proxy::publisher::debug_logger::{DebugLoggerError, DebugLoggerPublisher};
use scry_proxy::publisher::http_publisher::{HttpPublisher, PublishStep};
use scry_proxy::publisher::{choose_shadow_id, create_publisher, PublisherChoice};
use std::time::{Duration, UNIX_EPOCH};

#[test]
fn test_batcher_flushes_on_size() {
    let mut batcher = EventBatcher::new(2, 100);
    batcher.send_event("SELECT 1").unwrap();
    batcher.send_event("SELECT 2").unwrap();
    assert!(batcher.receive().is_none());
    assert_eq!(batcher.receive(), Some(vec!["SELECT 1", "SELECT 2"]));
}

#[test]
fn test_batcher_flushes_on_timer() {
    let mut batcher = EventBatcher::new(100, 100);
    batcher.send_event("SELECT 1").unwrap();
    assert!(batcher.receive().is_none());
    assert_eq!(batcher.tick(), Some(vec!["SELECT 1"]));
    assert!(batcher.tick().is_none());
}

#[test]
fn test_batcher_bounded_queue() {
    let mut batcher = EventBatcher::new(5, 10);

    // Send events until queue is full
    for i in 0..20 {
        let result = batcher.send_event(format!("SELECT {}", i));
        assert!(result.is_ok());
    }

    let (sent, dropped) = batcher.get_metrics();
    assert_eq!(sent + dropped, 20);
    assert!(dropped > 0, "Expected some events to be dropped");
    assert!(sent <= 10, "Should not accept more than queue size");
}

#[test]
fn test_no_memory_leak_with_slow_publisher() {
    let mut batcher = EventBatcher::new(10, 50);

    // Flood with events (much more than queue size)
    for i in 0..1000 {
        let _ = batcher.send_event(format!("SELECT {}", i));
    }

    let (sent, dropped) = batcher.get_metrics();
    assert_eq!(sent + dropped, 1000, "All events should be accounted for");
    assert!(dropped > 0, "Should have dropped events due to slow publisher");
    assert!(sent < 1000, "Should not have accepted all events");
}

#[test]
fn oldest_event_makes_room_when_the_queue_is_full() {
    let mut batcher = EventBatcher::new(2, 2);
    assert_eq!(batcher.send_event(1), Ok(true));
    assert_eq!(batcher.send_event(2), Ok(true));
    assert_eq!(batcher.send_event(3), Ok(false));
    assert!(batcher.receive().is_none());
    assert_eq!(batcher.receive(), Some(vec![2, 3]));
    assert_eq!(batcher.get_metrics(), (2, 1));
}

#[test]
fn closed_batcher_takes_no_event_and_hands_out_the_rest() {
    let mut batcher = EventBatcher::new(10, 10);
    batcher.send_event(1).unwrap();
    batcher.close();
    assert!(batcher.send_event(2).is_err());
    assert!(!batcher.is_finished());
    assert!(batcher.receive().is_none());
    assert!(batcher.is_finished());
    assert_eq!(batcher.tick(), Some(vec![1]));
}

#[test]
fn test_debug_logger_publishes_batch() {
    let mut publisher = DebugLoggerPublisher::new();

    let events = vec![
        QueryEventBuilder::new("SELECT * FROM users")
            .duration(Duration::from_millis(5))
            .rows(10)
            .build(),
        QueryEventBuilder::new("INSERT INTO logs VALUES ($1, $2)")
            .duration(Duration::from_millis(2))
            .rows(1)
            .build(),
    ];

    let result = publisher.publish_batch(&events);
    assert!(result.is_ok());

    let (total_events, total_batches, _) = publisher.get_metrics();
    assert_eq!(total_events, 2);
    assert_eq!(total_batches, 1);
}

#[test]
fn test_empty_batch() {
    let mut publisher = DebugLoggerPublisher::default();
    let result = publisher.publish_batch(&vec![]);
    assert!(result.is_ok());

    let (total_events, total_batches, _) = publisher.get_metrics();
    assert_eq!(total_events, 0);
    assert_eq!(total_batches, 0);
}

#[test]
fn logged_batch_is_json_and_its_bytes_are_counted() {
    let mut publisher = DebugLoggerPublisher::new();
    let events = vec![QueryEventBuilder::new("SELECT 'caf\u{e9}'").database("app").build()];
    let json = publisher.publish_batch(&events).unwrap().unwrap();
    assert!(json.starts_with("[{"));
    assert!(json.contains("\"database\":\"app\""));
    assert_eq!(publisher.get_metrics(), (1, 1, json.len() as u64));
    assert!(publisher.count_batch(3, 7));
    assert!(!publisher.count_batch(0, 7));
    assert_eq!(publisher.get_metrics(), (4, 2, json.len() as u64 + 7));
}

#[test]
fn event_from_before_the_epoch_cannot_be_logged() {
    let mut publisher = DebugLoggerPublisher::new();
    let mut event = QueryEventBuilder::new("SELECT 1").build();
    event.timestamp = UNIX_EPOCH - Duration::from_secs(1);
    assert!(matches!(publisher.publish_batch(&vec![event]), Err(DebugLoggerError::Json(_))));
    assert_eq!(publisher.get_metrics(), (0, 0, 0));
}

#[test]
fn test_http_publisher_creation() {
    let publisher = HttpPublisher::new(2);
    let id = publisher.proxy_id();
    assert!(id.starts_with("scry-"), "{id}");
    assert_ne!(id, HttpPublisher::new(2).proxy_id());
}

#[test]
fn random_id_is_written_like_a_uuid() {
    let publisher = HttpPublisher::new(2);
    let uuid = publisher.proxy_id().strip_prefix("scry-").unwrap();
    assert_eq!(uuid.len(), 36);
    for (i, c) in uuid.chars().enumerate() {
        if i == 8 || i == 13 || i == 18 || i == 23 {
            assert_eq!(c, '-');
        } else {
            assert!(c.is_ascii_digit() || ('a'..='f').contains(&c));
        }
    }
}

#[test]
fn test_serialization() {
    let mut publisher = HttpPublisher::with_id("test-proxy".to_string(), 2);
    let events = vec![QueryEventBuilder::new("SELECT 1")
        .connection_id("conn-1")
        .database("db1")
        .duration(Duration::from_millis(5))
        .build()];

    let payload = publisher.publish_batch(&events).unwrap();
    assert!(!payload.is_empty());
    let batch = FlexBuffersDeserializer::deserialize_batch(&payload).unwrap();
    assert_eq!(batch.proxy_id, "test-proxy");
    assert_eq!(batch.batch_seq, 0);
    assert_eq!(batch.events.len(), 1);
    assert_eq!(batch.events[0].query, "SELECT 1");

    let payload = publisher.publish_batch(&events).unwrap();
    let batch = FlexBuffersDeserializer::deserialize_batch(&payload).unwrap();
    assert_eq!(batch.batch_seq, 1);
    assert_eq!(publisher.get_metrics().total_events, 2);
    assert_eq!(publisher.get_metrics().total_batches, 2);
    assert!(publisher.publish_batch(&vec![]).is_none());
    assert_eq!(publisher.get_metrics().total_batches, 2);
}

#[test]
fn batch_is_given_up_after_its_retries() {
    let mut publisher = HttpPublisher::with_id("p".to_string(), 2);
    let mut state = publisher.begin_publish();
    let mut delays = Vec::new();
    while let PublishStep::RetryAfter { delay_ms, next } = publisher.publish_failed(state) {
        delays.push(delay_ms);
        state = next;
    }
    assert_eq!(delays, vec![50, 100]);
    assert_eq!(publisher.get_metrics().failed_publishes, 1);
    publisher.published();
    assert_eq!(publisher.get_metrics().successful_publishes, 1);
}

#[test]
fn pauses_double_up_to_their_limit() {
    let mut publisher = HttpPublisher::with_id("p".to_string(), 20);
    let mut state = publisher.begin_publish();
    let mut last = 0;
    while let PublishStep::RetryAfter { delay_ms, next } = publisher.publish_failed(state) {
        last = delay_ms;
        state = next;
    }
    assert_eq!(last, 5000);
}

#[test]
fn only_statuses_of_success_count() {
    assert!(HttpPublisher::is_success(200));
    assert!(HttpPublisher::is_success(299));
    assert!(!HttpPublisher::is_success(199));
    assert!(!HttpPublisher::is_success(300));
    assert!(!HttpPublisher::is_success(500));
}

#[test]
fn publishers_are_chosen_by_name() {
    assert!(matches!(create_publisher("debug", &None), Ok(PublisherChoice::Debug)));
    assert!(matches!(
        create_publisher("http", &Some("http://x".to_string())),
        Ok(PublisherChoice::Http { endpoint }) if endpoint == "http://x"
    ));
    assert!(create_publisher("http", &None).is_err());
    assert!(create_publisher("carrier pigeon", &None).is_err());
}

#[test]
fn shadow_id_is_the_configured_one_or_that_of_the_file() {
    let text = |s: &str| Some(s.to_string());
    assert_eq!(choose_shadow_id(text(" a "), text("b")), text(" a "));
    assert_eq!(choose_shadow_id(text("a"), None), text("a"));
    assert_eq!(choose_shadow_id(None, text(" \tshadow 1\n\u{2003}")), text("shadow 1"));
    assert_eq!(choose_shadow_id(None, text(" \n")), text(""));
    assert_eq!(choose_shadow_id(None, None), None);
}
