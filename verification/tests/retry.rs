use entrypoint::config::{BackoffType, Config, RetryConfig};

#[test]
fn exponential_backoff_is_base_times_two_to_the_n() {
    let c = RetryConfig {
        max_attempts: 5,
        backoff_type: BackoffType::Exponential,
        backoff_base_ms: 100,
    };
    assert_eq!(c.sleep_for(0), 100);
    assert_eq!(c.sleep_for(1), 200);
    assert_eq!(c.sleep_for(2), 400);
    assert_eq!(c.sleep_for(3), 800);
    assert_eq!(c.sleep_for(10), 102_400);
}

#[test]
fn constant_backoff_ignores_attempt_number() {
    let c = RetryConfig {
        max_attempts: 5,
        backoff_type: BackoffType::Constant,
        backoff_base_ms: 10,
    };
    assert_eq!(c.sleep_for(0), 10);
    assert_eq!(c.sleep_for(7), 10);
    assert_eq!(c.sleep_for(1000), 10);
}

#[test]
fn exponential_backoff_saturates_instead_of_overflowing() {
    let c = RetryConfig {
        max_attempts: 5,
        backoff_type: BackoffType::Exponential,
        backoff_base_ms: u64::MAX,
    };
    assert_eq!(c.sleep_for(1), u64::MAX);
    let d = RetryConfig {
        max_attempts: 5,
        backoff_type: BackoffType::Exponential,
        backoff_base_ms: 1,
    };
    assert_eq!(d.sleep_for(63), 1u64 << 63);
    assert_eq!(d.sleep_for(64), u64::MAX);
    let z = RetryConfig {
        max_attempts: 5,
        backoff_type: BackoffType::Exponential,
        backoff_base_ms: 0,
    };
    assert_eq!(z.sleep_for(64), 0);
}

#[test]
fn default_retry_config() {
    let c = RetryConfig::default();
    assert_eq!(c.max_attempts, 5);
    assert!(matches!(c.backoff_type, BackoffType::Exponential));
    assert_eq!(c.backoff_base_ms, 100);
}

#[test]
fn config_defaults() {
    let c = Config::new(None, None);
    assert_eq!(c.kill_server.max_attempts, 5);
    assert!(matches!(c.kill_server.backoff_type, BackoffType::Exponential));
    assert_eq!(c.kill_server.backoff_base_ms, 100);
    assert_eq!(c.connect_server.max_attempts, 5);
    assert!(matches!(c.connect_server.backoff_type, BackoffType::Constant));
    assert_eq!(c.connect_server.backoff_base_ms, 10);
}

#[test]
fn config_keeps_given_policies() {
    let k = RetryConfig::new(Some(2), Some(BackoffType::Constant), Some(7));
    let c = Config::new(Some(k), None);
    assert_eq!(c.kill_server.max_attempts, 2);
    assert_eq!(c.kill_server.backoff_base_ms, 7);
}
