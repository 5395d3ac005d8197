use price_cache::codec::RATE_UNITS;
use price_cache::monitor::{format_message, parse_filter, plan_tick, price_text, should_notify, LogLevel, TICK_SECONDS};

#[test]
fn four_percent_rise_notifies() {
    assert!(should_notify(50_000, 52_000, 5));
}

#[test]
fn one_percent_rise_outside_heartbeat_is_quiet() {
    assert!(!should_notify(50_000, 50_500, 5));
}

#[test]
fn heartbeat_hour_notifies_anyway() {
    assert!(should_notify(50_000, 50_500, 0));
    assert!(should_notify(50_000, 50_500, 11));
    assert!(should_notify(50_000, 50_500, 22));
}

#[test]
fn exactly_three_percent_is_no_move() {
    assert!(!should_notify(50_000, 51_500, 1));
    assert!(should_notify(50_000, 51_501, 1));
    assert!(should_notify(50_000, 48_499, 1));
    assert!(!should_notify(50_000, 48_500, 1));
}

#[test]
fn zero_baseline() {
    assert!(should_notify(0, 1, 1));
    assert!(!should_notify(0, 0, 1));
}

#[test]
fn failed_live_fetch_skips_the_tick() {
    let p = plan_tick(None, Some(50_000), 0);
    assert!(!p.notify);
    assert!(!p.persist);
    assert_eq!(p.rearm_seconds, 3600);
    assert_eq!(TICK_SECONDS, 3600);
}

#[test]
fn failed_baseline_read_still_persists() {
    let p = plan_tick(Some(52_000), None, 0);
    assert!(!p.notify);
    assert!(p.persist);
}

#[test]
fn tick_with_move_notifies_and_persists() {
    let p = plan_tick(Some(52_000), Some(50_000), 5);
    assert!(p.notify && p.persist);
    let q = plan_tick(Some(50_500), Some(50_000), 5);
    assert!(!q.notify && q.persist);
    assert_eq!(q.rearm_seconds, 3600);
}

#[test]
fn message_for_a_rise() {
    let m = format_message(52_000 * RATE_UNITS, 50_000 * RATE_UNITS);
    assert_eq!(m, "Bitcoin is now at $52000, 4% up from 50000");
}

#[test]
fn message_for_a_fall() {
    let m = format_message(48_000 * RATE_UNITS + 60_000_000, 50_000 * RATE_UNITS);
    assert_eq!(m, "Bitcoin is now at $48001, 0% down from 50000");
}

#[test]
fn message_rounds_halves_up() {
    let m = format_message(103 * RATE_UNITS / 2, 100 * RATE_UNITS / 2);
    assert_eq!(m, "Bitcoin is now at $52, 3% up from 50");
}

#[test]
fn price_answer_rounds() {
    assert_eq!(price_text(50_000 * RATE_UNITS + 49_999_999), "$50000");
    assert_eq!(price_text(50_000 * RATE_UNITS + 50_000_000), "$50001");
    assert_eq!(price_text(0), "$0");
}

#[test]
fn log_levels() {
    assert!(matches!(parse_filter("trace"), Some(LogLevel::Trace)));
    assert!(matches!(parse_filter("debug"), Some(LogLevel::Debug)));
    assert!(matches!(parse_filter("info"), Some(LogLevel::Info)));
    assert!(matches!(parse_filter("warn"), Some(LogLevel::Warn)));
    assert!(matches!(parse_filter("error"), Some(LogLevel::Error)));
    assert!(parse_filter("loud").is_none());
    assert!(parse_filter("").is_none());
}
