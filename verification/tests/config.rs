use reframe::Config;
use reframe::ConfigCell;
use reframe::Strategy;
use reframe::parse_strategy;
use reframe::parse_thread_count;
use reframe::resolve_config;

#[test]
fn pool_selector_is_case_insensitive() {
    assert_eq!(parse_strategy(Some("pool")), Strategy::FixedPool);
    assert_eq!(parse_strategy(Some("POOL")), Strategy::FixedPool);
    assert_eq!(parse_strategy(Some("Pool")), Strategy::FixedPool);
}

#[test]
fn anything_else_selects_bounded_spawn() {
    assert_eq!(parse_strategy(None), Strategy::BoundedSpawn);
    assert_eq!(parse_strategy(Some("spawn")), Strategy::BoundedSpawn);
    assert_eq!(parse_strategy(Some("pools")), Strategy::BoundedSpawn);
    assert_eq!(parse_strategy(Some("")), Strategy::BoundedSpawn);
}

#[test]
fn numeric_override_is_honored() {
    assert_eq!(parse_thread_count(Some("12"), 4), 12);
    assert_eq!(parse_thread_count(Some("1"), 4), 1);
}

#[test]
fn explicit_zero_disables_concurrency() {
    assert_eq!(parse_thread_count(Some("0"), 8), 0);
}

#[test]
fn malformed_override_falls_back_to_hardware_default() {
    assert_eq!(parse_thread_count(Some("abc"), 8), 8);
    assert_eq!(parse_thread_count(Some("3x"), 8), 8);
    assert_eq!(parse_thread_count(Some(""), 8), 8);
    assert_eq!(parse_thread_count(Some("-1"), 8), 8);
    assert_eq!(parse_thread_count(Some("99999999999999999999999"), 8), 8);
}

#[test]
fn absent_override_falls_back_with_minimum_one() {
    assert_eq!(parse_thread_count(None, 6), 6);
    assert_eq!(parse_thread_count(None, 0), 1);
}

#[test]
fn resolution_combines_both_settings() {
    let c = resolve_config(Some("pool"), Some("3"), 8);
    assert_eq!(c, Config { strategy: Strategy::FixedPool, max_threads: 3 });
    let d = resolve_config(None, None, 0);
    assert_eq!(d, Config { strategy: Strategy::BoundedSpawn, max_threads: 1 });
}

#[test]
fn configuration_resolves_exactly_once() {
    let mut cell = ConfigCell::new();
    let first = cell.get_or_resolve(Some("pool"), Some("2"), 8);
    assert_eq!(first, Config { strategy: Strategy::FixedPool, max_threads: 2 });
    // Later accesses observe the identical instance, never a recomputation,
    // whatever settings they are handed.
    let second = cell.get_or_resolve(Some("spawn"), Some("7"), 1);
    assert_eq!(second, first);
    let third = cell.get_or_resolve(None, None, 0);
    assert_eq!(third, first);
}
