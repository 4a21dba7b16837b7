use insider_tracker::config::{
    cluster_min_wallets, cluster_window_mins, max_price_threshold, max_unique_markets, min_trade_size_usd,
    poll_interval_ms, volume_spike_multiplier, Config,
};
use insider_tracker::parse::{parse_fixed, parse_integer};
use insider_tracker::trade::USD;

fn raw(s: &str) -> Option<String> {
    Some(s.to_string())
}

#[test]
fn defaults_apply_when_missing() {
    assert_eq!(min_trade_size_usd(None), 5_000 * USD);
    assert_eq!(max_unique_markets(None), 2);
    assert_eq!(max_price_threshold(None), 350_000);
    assert_eq!(poll_interval_ms(None), 2000);
    assert_eq!(cluster_window_mins(None), 30);
    assert_eq!(cluster_min_wallets(None), 3);
    assert_eq!(volume_spike_multiplier(None), 300);
}

#[test]
fn decimal_settings_are_read_exactly() {
    assert_eq!(min_trade_size_usd(raw("1500.5")), 1_500 * USD + USD / 2);
    assert_eq!(min_trade_size_usd(raw("+7")), 7 * USD);
    assert_eq!(max_price_threshold(raw("0.25")), 250_000);
    assert_eq!(max_price_threshold(raw(".5")), 500_000);
    assert_eq!(max_price_threshold(raw("5.")), 5_000_000);
    assert_eq!(max_price_threshold(raw("0.1234567")), 123_456);
    assert_eq!(volume_spike_multiplier(raw("2.5")), 250);
}

#[test]
fn unreadable_settings_fall_back() {
    assert_eq!(min_trade_size_usd(raw("abc")), 5_000 * USD);
    assert_eq!(min_trade_size_usd(raw("-5")), 5_000 * USD);
    assert_eq!(max_price_threshold(raw(".")), 350_000);
    assert_eq!(max_price_threshold(raw("1.2.3")), 350_000);
    assert_eq!(max_unique_markets(raw("3.5")), 2);
    assert_eq!(poll_interval_ms(raw("")), 2000);
    assert_eq!(poll_interval_ms(raw("99999999999999999999")), 2000);
}

#[test]
fn integer_settings_are_read() {
    assert_eq!(max_unique_markets(raw("5")), 5);
    assert_eq!(poll_interval_ms(raw("+1500")), 1500);
    assert_eq!(cluster_window_mins(raw("45")), 45);
    assert_eq!(cluster_min_wallets(raw("4")), 4);
}

#[test]
fn parsers_bound_their_results() {
    assert_eq!(parse_integer("340282366920938463463374607431768211455"), Some(u128::MAX));
    assert_eq!(parse_integer("340282366920938463463374607431768211456"), None);
    assert_eq!(parse_integer("0012"), Some(12));
    assert_eq!(parse_integer("1 2"), None);
    assert_eq!(parse_fixed("12.3", 0), Some(12));
    assert_eq!(parse_fixed("12.3", 3), Some(12_300));
}

#[test]
fn config_from_settings_mixes_values_and_defaults() {
    let c = Config::from_settings(raw("100"), None, raw("0.5"), raw("x"), None, raw("2"), raw("4"));
    assert_eq!(c.min_trade_size, 100 * USD);
    assert_eq!(c.max_unique_markets, 2);
    assert_eq!(c.max_price_micros, 500_000);
    assert_eq!(c.poll_interval_ms, 2000);
    assert_eq!(c.cluster_window_mins, 30);
    assert_eq!(c.cluster_min_wallets, 2);
    assert_eq!(c.spike_multiplier_pct, 400);
}
