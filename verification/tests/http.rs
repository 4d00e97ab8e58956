use catsu::errors::ClientError;
use catsu::http::{backoff_delay_ms, base_delay_ms, next_step, should_retry, status_failure, CallOutcome, HttpConfig, RetryStep};
use catsu::json::decimal_string;
use catsu::order::stable_order;

#[test]
fn default_config() {
    let c = HttpConfig::default();
    assert_eq!((c.timeout_secs, c.max_retries, c.initial_backoff_ms, c.max_backoff_ms), (60, 3, 500, 30000));
}

#[test]
fn retry_rules() {
    let c = HttpConfig::default();
    assert!(should_retry(&c, 0, CallOutcome::TransportError));
    assert!(should_retry(&c, 2, CallOutcome::Status(429)));
    assert!(should_retry(&c, 0, CallOutcome::Status(503)));
    assert!(!should_retry(&c, 3, CallOutcome::Status(503)));
    assert!(!should_retry(&c, 0, CallOutcome::Status(401)));
    assert!(!should_retry(&c, 0, CallOutcome::Status(200)));
    let none = HttpConfig { max_retries: 0, ..HttpConfig::default() };
    assert_eq!(next_step(&none, 0, CallOutcome::TransportError, 7), RetryStep::Stop);
}

#[test]
fn backoff_doubles_up_to_cap() {
    let c = HttpConfig::default();
    let delays: Vec<u64> = (0..8).map(|a| base_delay_ms(&c, a)).collect();
    assert_eq!(delays, vec![500, 1000, 2000, 4000, 8000, 16000, 30000, 30000]);
    assert_eq!(base_delay_ms(&c, u32::MAX), 30000);
    let zero = HttpConfig { initial_backoff_ms: 0, ..HttpConfig::default() };
    assert_eq!(base_delay_ms(&zero, 1000), 0);
    let huge = HttpConfig { initial_backoff_ms: u64::MAX, max_backoff_ms: u64::MAX, ..HttpConfig::default() };
    assert_eq!(base_delay_ms(&huge, 3), u64::MAX);
}

#[test]
fn jitter_adds_at_most_half() {
    let c = HttpConfig::default();
    assert_eq!(backoff_delay_ms(&c, 0, 0), 500);
    assert_eq!(backoff_delay_ms(&c, 0, 250), 750);
    assert_eq!(backoff_delay_ms(&c, 0, 251), 500);
    assert_eq!(next_step(&c, 1, CallOutcome::Status(500), 10), RetryStep::Retry { delay_ms: 1010 });
    let huge = HttpConfig { initial_backoff_ms: u64::MAX, max_backoff_ms: u64::MAX, ..HttpConfig::default() };
    assert_eq!(backoff_delay_ms(&huge, 0, 5), u64::MAX);
}

#[test]
fn non_success_status_is_an_api_error() {
    assert!(status_failure(200, String::new()).is_none());
    assert!(status_failure(204, String::new()).is_none());
    match status_failure(401, "{\"error\":{\"message\":\"Invalid API key\"}}".to_string()) {
        Some(ClientError::Api { status, message }) => {
            assert_eq!(status, 401);
            assert!(message.contains("Invalid API key"));
        }
        other => panic!("unexpected: {other:?}"),
    }
}

#[test]
fn decimal_numbers() {
    assert_eq!(decimal_string(0), "0");
    assert_eq!(decimal_string(7), "7");
    assert_eq!(decimal_string(1536), "1536");
    assert_eq!(decimal_string(4294967295), "4294967295");
}

#[test]
fn stable_order_of_keys() {
    assert_eq!(stable_order(&vec![3, 1, 2, 1, 0]), vec![4, 1, 3, 2, 0]);
    assert_eq!(stable_order(&vec![]), Vec::<usize>::new());
    assert_eq!(stable_order(&vec![5, 5, 5]), vec![0, 1, 2]);
}
