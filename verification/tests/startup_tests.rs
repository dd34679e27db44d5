use status_core_agent::api::{default_hours, HistoryParams};
use status_core_agent::retention::{cutoff_before, SECS_PER_DAY, SECS_PER_HOUR};
use status_core_agent::startup::{
    listen_addr_from, next_bind_step, BindResult, BindStep, BIND_RETRIES, BIND_RETRY_DELAY_MS,
    DEFAULT_LISTEN_ADDR,
};

#[test]
fn history_window_defaults_to_a_day() {
    assert_eq!(default_hours(), 24);
    let p = HistoryParams { hours: default_hours() };
    assert_eq!(p.hours, 24);
}

#[test]
fn history_cutoff_counts_hours_back() {
    let now = 1_711_000_000;
    assert_eq!(cutoff_before(now, 24, SECS_PER_HOUR), now - 86_400);
    assert_eq!(cutoff_before(now, 0, SECS_PER_HOUR), now);
}

#[test]
fn retention_cutoff_counts_days_back() {
    let now = 1_711_000_000;
    assert_eq!(cutoff_before(now, 7, SECS_PER_DAY), now - 604_800);
}

#[test]
fn a_window_longer_than_time_covers_all_history() {
    let now = 1_711_000_000;
    assert_eq!(cutoff_before(now, u64::MAX, SECS_PER_HOUR), i64::MIN);
    assert_eq!(cutoff_before(now, 1 << 62, SECS_PER_HOUR), i64::MIN);
    assert_eq!(cutoff_before(now, u64::MAX, SECS_PER_DAY), i64::MIN);
    assert_eq!(cutoff_before(i64::MIN, 1, SECS_PER_HOUR), i64::MIN);
}

#[test]
fn a_window_reaching_exactly_the_earliest_timestamp() {
    assert_eq!(cutoff_before(i64::MIN + 3600, 1, SECS_PER_HOUR), i64::MIN);
    assert_eq!(cutoff_before(i64::MIN + 3601, 1, SECS_PER_HOUR), i64::MIN + 1);
}

#[test]
fn listen_address_comes_from_the_environment_first() {
    assert_eq!(listen_addr_from(Some("0.0.0.0:3003".into()), Some("1.2.3.4:1".into())), "0.0.0.0:3003");
    assert_eq!(listen_addr_from(None, Some("1.2.3.4:1".into())), "1.2.3.4:1");
    assert_eq!(listen_addr_from(None, None), DEFAULT_LISTEN_ADDR);
    assert_eq!(DEFAULT_LISTEN_ADDR, "0.0.0.0:3456");
}

#[test]
fn bound_socket_is_served() {
    assert_eq!(next_bind_step(1, BindResult::Bound), BindStep::Serve);
    assert_eq!(next_bind_step(BIND_RETRIES, BindResult::Bound), BindStep::Serve);
}

#[test]
fn address_in_use_is_retried_until_the_last_attempt() {
    assert_eq!(
        next_bind_step(1, BindResult::AddrInUse),
        BindStep::Retry { next_attempt: 2, delay_ms: BIND_RETRY_DELAY_MS }
    );
    assert_eq!(
        next_bind_step(BIND_RETRIES - 1, BindResult::AddrInUse),
        BindStep::Retry { next_attempt: BIND_RETRIES, delay_ms: 1000 }
    );
    assert_eq!(next_bind_step(BIND_RETRIES, BindResult::AddrInUse), BindStep::Exit);
}

#[test]
fn other_bind_errors_exit_at_once() {
    assert_eq!(next_bind_step(1, BindResult::OtherError), BindStep::Exit);
}

#[test]
fn the_bind_loop_makes_at_most_thirty_attempts() {
    let mut attempt = 1;
    let mut attempts = 0;
    loop {
        attempts += 1;
        match next_bind_step(attempt, BindResult::AddrInUse) {
            BindStep::Retry { next_attempt, .. } => attempt = next_attempt,
            BindStep::Exit => break,
            BindStep::Serve => unreachable!(),
        }
    }
    assert_eq!(attempts, 30);
    assert_eq!(BIND_RETRIES, 30);
}

#[test]
fn a_longer_window_starts_earlier() {
    let now = 1_711_000_000;
    assert!(cutoff_before(now, 48, SECS_PER_HOUR) <= cutoff_before(now, 24, SECS_PER_HOUR));
    assert!(cutoff_before(now, 30, SECS_PER_DAY) <= cutoff_before(now, 7, SECS_PER_DAY));
}
