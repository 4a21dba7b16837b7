use insider_tracker::api::{decode_error_message, mask_address, ApiClient, Attempt, Step};
use insider_tracker::cluster::MarketCluster;
use insider_tracker::config::{is_gambling_market, telegram_enabled, Config};
use insider_tracker::dedup::Deduplicator;
use insider_tracker::filter::run_filters;
use insider_tracker::message::{
    cluster_message, format_dollars, format_percent, format_ratio, spike_message, suspect_message, trade_clock,
};
use insider_tracker::state::{PollSummary, TrackerState};
use insider_tracker::stats::{classify, AlertLevel, UserActivity, UserStats};
use insider_tracker::text::escape_html;
use insider_tracker::trade::{Trade, USD};
use insider_tracker::volume::VolumeTracker;

fn trade(wallet: &str, market: Option<&str>, side: &str, price_micros: u64, size_micros: u64, ts: i64) -> Trade {
    Trade {
        proxy_wallet: wallet.to_string(),
        side: side.to_string(),
        asset: None,
        condition_id: market.map(|m| m.to_string()),
        size_micros,
        price_micros,
        timestamp: ts,
        title: Some("Will it rain tomorrow?".to_string()),
        slug: None,
        icon: None,
        event_slug: None,
        outcome: None,
        outcome_index: None,
        name: None,
        pseudonym: None,
        bio: None,
        profile_image: None,
        profile_image_optimized: None,
        transaction_hash: None,
    }
}

fn stats(markets: usize) -> UserStats {
    UserStats {
        address: "0xabc".to_string(),
        unique_markets: markets,
        total_trades: markets,
        first_activity_timestamp: None,
    }
}

fn activity(side: Option<&str>, cid: Option<&str>, slug: Option<&str>, ts: Option<i64>) -> UserActivity {
    UserActivity {
        proxy_wallet: None,
        side: side.map(|s| s.to_string()),
        asset: None,
        condition_id: cid.map(|s| s.to_string()),
        size_micros: None,
        price_micros: None,
        timestamp: ts,
        title: None,
        slug: slug.map(|s| s.to_string()),
        outcome: None,
        activity_type: None,
    }
}

#[test]
fn value_is_price_times_size() {
    let t = trade("0xa", None, "BUY", 350_000, 10_000_000_000, 0);
    assert_eq!(t.value_usd(), 350_000u128 * 10_000_000_000u128);
    assert_eq!(t.value_usd(), 3_500 * USD);
    let big = trade("0xa", None, "BUY", u64::MAX, u64::MAX, 0);
    assert_eq!(big.value_usd(), (u64::MAX as u128) * (u64::MAX as u128));
}

#[test]
fn unique_id_joins_actor_time_and_size() {
    let t = trade("0xabc", None, "BUY", 1, 1_500_000, 1_700_000_000);
    assert_eq!(t.unique_id(), "0xabc-1700000000-1500000");
    let n = trade("w", None, "BUY", 1, 0, -42);
    assert_eq!(n.unique_id(), "w--42-0");
}

#[test]
fn market_url_prefers_event_slug() {
    let mut t = trade("0xa", None, "BUY", 1, 1, 0);
    assert_eq!(t.market_url(), "https://polymarket.com");
    t.slug = Some("market-slug".to_string());
    assert_eq!(t.market_url(), "https://polymarket.com/event/market-slug");
    t.event_slug = Some("event-slug".to_string());
    assert_eq!(t.market_url(), "https://polymarket.com/event/event-slug");
}

#[test]
fn taker_buy_ignores_case() {
    assert!(trade("a", None, "buy", 1, 1, 0).is_taker_buy());
    assert!(trade("a", None, "Buy", 1, 1, 0).is_taker_buy());
    assert!(trade("a", None, "BUY", 1, 1, 0).is_taker_buy());
    assert!(!trade("a", None, "SELL", 1, 1, 0).is_taker_buy());
    assert!(!trade("a", None, "buyer", 1, 1, 0).is_taker_buy());
}

#[test]
fn mask_keeps_head_and_tail() {
    assert_eq!(mask_address("0x1234567890abcdef"), "0x1234...cdef");
    assert_eq!(mask_address("0x12345"), "0x12345");
    assert_eq!(mask_address("0123456789"), "012345...6789");
}

#[test]
fn escape_replaces_markup_characters() {
    assert_eq!(escape_html("a & b < c > d"), "a &amp; b &lt; c &gt; d");
    assert_eq!(escape_html("plain"), "plain");
    assert_eq!(escape_html(""), "");
}

#[test]
fn gambling_titles_are_detected_in_any_case() {
    assert!(is_gambling_market("Bitcoin Up or Down - 15m"));
    assert!(is_gambling_market("BTC UP this week?"));
    assert!(is_gambling_market("ETH price above 4000?"));
    assert!(!is_gambling_market("Will the incumbent win the election?"));
    assert!(!is_gambling_market(""));
}

#[test]
fn telegram_needs_token_and_chat() {
    assert!(telegram_enabled(Some("t".to_string()), Some("c".to_string())));
    assert!(!telegram_enabled(Some("t".to_string()), None));
    assert!(!telegram_enabled(Some("".to_string()), Some("c".to_string())));
    assert!(!telegram_enabled(None, None));
}

#[test]
fn dedup_remembers_marked_ids() {
    let mut d = Deduplicator::new();
    let a = "a".to_string();
    let b = "b".to_string();
    assert!(!d.seen(&a));
    d.mark_seen(&a);
    assert!(d.seen(&a));
    d.mark_seen(&b);
    d.mark_seen(&a);
    assert!(d.seen(&a));
    assert!(d.seen(&b));
    assert_eq!(d.len(), 2);
}

#[test]
fn dedup_evicts_half_only_past_the_cap() {
    let mut d = Deduplicator::new();
    for i in 0..10_000 {
        d.mark_seen(&format!("id{}", i));
    }
    assert_eq!(d.len(), 10_000);
    assert!(d.seen(&"id0".to_string()));
    d.mark_seen(&"extra".to_string());
    assert_eq!(d.len(), 5_001);
    assert!(!d.seen(&"id0".to_string()));
    assert!(!d.seen(&"id4999".to_string()));
    assert!(d.seen(&"id5000".to_string()));
    assert!(d.seen(&"extra".to_string()));
}

#[test]
fn filter_new_keeps_unseen_trades_in_order() {
    let mut d = Deduplicator::new();
    let t1 = trade("a", None, "BUY", 1, 1, 1);
    let t2 = trade("b", None, "BUY", 1, 1, 2);
    let first = d.filter_new(&vec![t1.clone(), t2.clone()]);
    assert_eq!(first.len(), 2);
    let t3 = trade("c", None, "BUY", 1, 1, 3);
    let second = d.filter_new(&vec![t2.clone(), t3.clone(), t1.clone()]);
    assert_eq!(second.len(), 1);
    assert_eq!(second[0].proxy_wallet, "c");
}

#[test]
fn filter_stage_counts_never_grow() {
    let cfg = Config::defaults();
    let mut gambling = trade("g", None, "BUY", 100_000, 100_000_000_000, 0);
    gambling.title = Some("Bitcoin Up or Down".to_string());
    let small = trade("s", None, "BUY", 100_000, 1_000_000, 0);
    let sell = trade("x", None, "SELL", 100_000, 100_000_000_000, 0);
    let pricey = trade("p", None, "BUY", 900_000, 100_000_000_000, 0);
    let good = trade("k", None, "buy", 100_000, 100_000_000_000, 0);
    let batch = vec![gambling, small, sell, pricey, good];
    let r = run_filters(&batch, &cfg);
    assert_eq!(r.after_category, 4);
    assert_eq!(r.after_size, 3);
    assert_eq!(r.after_aggression, 2);
    assert_eq!(r.after_contrarian, 1);
    assert!(r.after_category >= r.after_size && r.after_size >= r.after_aggression);
    assert_eq!(r.survivors[0].proxy_wallet, "k");
}

#[test]
fn filter_keeps_batch_order() {
    let cfg = Config::defaults();
    let a = trade("a", None, "BUY", 100_000, 100_000_000_000, 0);
    let b = trade("b", None, "SELL", 100_000, 100_000_000_000, 0);
    let c = trade("c", None, "BUY", 200_000, 100_000_000_000, 0);
    let r = run_filters(&vec![a, b, c], &cfg);
    let names: Vec<String> = r.survivors.iter().map(|t| t.proxy_wallet.clone()).collect();
    assert_eq!(names, vec!["a".to_string(), "c".to_string()]);
}

#[test]
fn cluster_counts_each_actor_once() {
    let mut c = MarketCluster::new(&trade("A", Some("m"), "BUY", 100_000, 1_000_000, 0), 0);
    c.add_trade(&trade("A", Some("m"), "BUY", 100_000, 1_000_000, 0));
    c.add_trade(&trade("B", Some("m"), "BUY", 100_000, 1_000_000, 0));
    c.add_trade(&trade("C", Some("m"), "BUY", 100_000, 1_000_000, 0));
    assert_eq!(c.wallet_count(), 3);
    assert_eq!(c.total_volume, 4 * 100_000u128 * 1_000_000u128);
}

#[test]
fn cluster_price_halves_towards_each_trade() {
    let mut c = MarketCluster::new(&trade("A", Some("m"), "BUY", 100_000, 1, 0), 0);
    c.add_trade(&trade("B", Some("m"), "BUY", 300_000, 1, 0));
    c.add_trade(&trade("C", Some("m"), "BUY", 50_000, 1, 0));
    assert_eq!(c.avg_price, ((100_000 + 300_000) / 2 + 50_000) / 2);
    assert_eq!(c.avg_price, 125_000);
    assert_ne!(c.avg_price, (100_000 + 300_000 + 50_000) / 3);
}

#[test]
fn cluster_fields_come_from_first_trade() {
    let mut t = trade("A", Some("m1"), "BUY", 1, 1, 0);
    t.title = None;
    let c = MarketCluster::new(&t, 500);
    assert_eq!(c.condition_id, "m1");
    assert_eq!(c.market_title, "Unknown");
    assert_eq!(c.outcome, "BUY");
    assert_eq!(c.age_minutes(500 + 125), 2);
    assert_eq!(c.age_minutes(10), 0);
}

#[test]
fn volume_hour_rolls_only_after_an_hour() {
    let t = trade("A", Some("m"), "BUY", 1_000_000, 1_000_000, 0);
    let mut v = VolumeTracker::new(&t, 1000);
    v.add_trade(&t, 1000 + 1800);
    v.add_trade(&t, 1000 + 3599);
    assert_eq!(v.hourly_volumes.len(), 0);
    assert_eq!(v.current_hour_volume, 3 * USD);
    v.add_trade(&t, 1000 + 3600);
    assert_eq!(v.hourly_volumes, vec![3 * USD]);
    assert_eq!(v.current_hour_volume, USD);
    assert_eq!(v.current_hour_start, 4600);
}

#[test]
fn volume_keeps_twenty_four_hours() {
    let t = trade("A", Some("m"), "BUY", 1_000_000, 1_000_000, 0);
    let mut v = VolumeTracker::new(&t, 0);
    for h in 1..=30u64 {
        v.add_trade(&t, h * 3600);
    }
    assert_eq!(v.hourly_volumes.len(), 24);
}

#[test]
fn spike_needs_a_hundred_dollar_mean() {
    let small = trade("A", Some("m"), "BUY", 1_000_000, 50_000_000, 0);
    let mut v = VolumeTracker::new(&small, 0);
    v.add_trade(&trade("A", Some("m"), "BUY", 1_000_000, 1_000_000_000_000, 0), 3600);
    assert_eq!(v.avg_hourly_volume(), 50 * USD);
    assert!(!v.is_spike(300));
    assert!(!v.is_spike(0));
}

#[test]
fn spike_above_multiple_of_mean() {
    let base = trade("A", Some("m"), "BUY", 1_000_000, 200_000_000, 0);
    let mut v = VolumeTracker::new(&base, 0);
    v.add_trade(&trade("A", Some("m"), "BUY", 1_000_000, 700_000_000, 0), 3600);
    assert_eq!(v.avg_hourly_volume(), 200 * USD);
    assert_eq!(v.current_hour_volume, 700 * USD);
    assert!(v.is_spike(300));
    assert!(!v.is_spike(350));
    assert_eq!(v.spike_ratio(), 350);
}

#[test]
fn empty_history_has_zero_mean_and_ratio() {
    let v = VolumeTracker::new(&trade("A", Some("m"), "BUY", 1_000_000, 1_000_000_000, 0), 0);
    assert_eq!(v.avg_hourly_volume(), 0);
    assert_eq!(v.spike_ratio(), 0);
    assert!(!v.is_spike(100));
}

#[test]
fn large_position_from_new_actor_is_high() {
    let t = trade("0xabc", None, "BUY", 200_000, 30_000_000_000, 0);
    assert_eq!(t.value_usd(), 6_000 * USD);
    let s = classify(t, stats(1), 2).unwrap();
    assert_eq!(s.alert_level, AlertLevel::High);
    assert!(s.reason.contains("Large Position ($6000)"));
    assert!(!s.reason.contains("Brand New"));
    assert_eq!(s.reason, "Fresh Wallet (1 lifetime market) | Taker BUY (aggressive) | Large Position ($6000)");
}

#[test]
fn severity_follows_market_count() {
    let small = trade("0xabc", None, "BUY", 100_000, 1_000_000_000, 0);
    let s = classify(small.clone(), stats(0), 5).unwrap();
    assert_eq!(s.alert_level, AlertLevel::High);
    assert_eq!(s.reason, "Fresh Wallet (0 lifetime markets) | Taker BUY (aggressive) | Brand New Wallet");
    assert_eq!(classify(small.clone(), stats(2), 5).unwrap().alert_level, AlertLevel::Medium);
    assert_eq!(classify(small.clone(), stats(3), 5).unwrap().alert_level, AlertLevel::Medium);
    let low = classify(small.clone(), stats(4), 5).unwrap();
    assert_eq!(low.alert_level, AlertLevel::Low);
    assert_eq!(low.reason, "Fresh Wallet (4 lifetime markets) | Taker BUY (aggressive)");
    assert!(classify(small, stats(6), 5).is_none());
}

#[test]
fn level_labels() {
    assert_eq!(AlertLevel::High.label(), "HIGH");
    assert_eq!(AlertLevel::Medium.label(), "MEDIUM");
    assert_eq!(AlertLevel::Low.label(), "LOW");
}

#[test]
fn stats_count_sided_records_and_distinct_markets() {
    let acts = vec![
        activity(Some("BUY"), Some("m1"), None, Some(50)),
        activity(Some("SELL"), Some("m1"), None, Some(40)),
        activity(Some("BUY"), None, Some("slug-2"), None),
        activity(None, Some("m3"), None, Some(10)),
        activity(Some("BUY"), None, None, Some(60)),
    ];
    let s = ApiClient::calculate_user_stats("0xwallet", &acts);
    assert_eq!(s.address, "0xwallet");
    assert_eq!(s.unique_markets, 2);
    assert_eq!(s.total_trades, 4);
    assert_eq!(s.first_activity_timestamp, Some(10));
    let none = ApiClient::calculate_user_stats("x", &[]);
    assert_eq!(none.unique_markets, 0);
    assert_eq!(none.total_trades, 0);
    assert_eq!(none.first_activity_timestamp, None);
}

#[test]
fn backoff_doubles_to_cap_and_resets() {
    let mut c = ApiClient::new();
    assert_eq!(c.backoff_ms(), 1000);
    assert_eq!(c.next_step(Attempt::RateLimited), Step::Retry(1000));
    assert_eq!(c.next_step(Attempt::RateLimited), Step::Retry(2000));
    assert_eq!(c.backoff_ms(), 4000);
    for _ in 0..10 {
        c.next_step(Attempt::RateLimited);
    }
    assert_eq!(c.backoff_ms(), 60000);
    assert_eq!(c.next_step(Attempt::RateLimited), Step::Retry(60000));
    assert_eq!(c.next_step(Attempt::TransportFailed), Step::Fail);
    assert_eq!(c.backoff_ms(), 60000);
    assert_eq!(c.next_step(Attempt::Answered), Step::Decode);
    assert_eq!(c.backoff_ms(), 1000);
}

#[test]
fn request_urls_and_labels() {
    assert_eq!(ApiClient::trades_url(100), "https://data-api.polymarket.com/trades?limit=100");
    assert_eq!(
        ApiClient::activity_url("0xabc"),
        "https://data-api.polymarket.com/activity?user=0xabc&limit=500"
    );
    assert_eq!(ApiClient::activity_context("0x1234567890"), "activity(0x123456...)");
    assert_eq!(ApiClient::activity_context("0x1"), "activity(0x1...)");
}

#[test]
fn decode_error_shows_a_bounded_preview() {
    let body = "x".repeat(400);
    let msg = decode_error_message("fetch_recent_trades", &body);
    assert_eq!(msg, format!("JSON parse error from fetch_recent_trades. Preview: {}", "x".repeat(300)));
    assert_eq!(decode_error_message("c", "oops"), "JSON parse error from c. Preview: oops");
}

#[test]
fn cluster_alert_fires_once_per_market() {
    let mut cfg = Config::defaults();
    cfg.cluster_min_wallets = 3;
    let mut state = TrackerState::new();
    let batch: Vec<Trade> = ["A", "B", "C", "D"]
        .iter()
        .enumerate()
        .map(|(i, w)| trade(w, Some("m"), "SELL", 100_000, 1_000_000, i as i64))
        .collect();
    let b = state.begin_poll(&batch, 1000, &cfg);
    assert_eq!(b.new_trades.len(), 4);
    let alerts = state.finish_poll(&cfg);
    assert_eq!(alerts.clusters.len(), 1);
    assert_eq!(alerts.clusters[0].wallet_count(), 4);
    assert_eq!(alerts.clusters[0].condition_id, "m");
    let fifth = vec![trade("E", Some("m"), "SELL", 100_000, 1_000_000, 9)];
    state.begin_poll(&fifth, 1060, &cfg);
    assert_eq!(state.market_clusters[0].wallet_count(), 5);
    let again = state.finish_poll(&cfg);
    assert_eq!(again.clusters.len(), 0);
}

#[test]
fn clusters_expire_after_the_window() {
    let cfg = Config::defaults();
    let mut state = TrackerState::new();
    state.begin_poll(&vec![trade("A", Some("m"), "SELL", 1, 1, 1)], 0, &cfg);
    assert_eq!(state.market_clusters.len(), 1);
    state.begin_poll(&vec![], 29 * 60, &cfg);
    assert_eq!(state.market_clusters.len(), 1);
    state.begin_poll(&vec![], 30 * 60, &cfg);
    assert_eq!(state.market_clusters.len(), 0);
}

#[test]
fn empty_batch_reports_nothing() {
    let cfg = Config::defaults();
    let mut state = TrackerState::new();
    let b = state.begin_poll(&vec![], 100, &cfg);
    let alerts = state.finish_poll(&cfg);
    let summary = PollSummary {
        poll_count: state.poll_count,
        new_count: b.new_trades.len(),
        contrarian_count: b.report.after_contrarian,
        suspects: 0,
        clusters: alerts.clusters.len(),
        spikes: alerts.spikes.len(),
    };
    assert_eq!(b.new_trades.len(), 0);
    assert_eq!(b.report.after_category, 0);
    assert_eq!(b.report.after_contrarian, 0);
    assert!(alerts.clusters.is_empty());
    assert!(alerts.spikes.is_empty());
    assert_eq!(summary.summary_line(), "[POLL #1] New: 0 | Contrarian: 0 | Suspects: 0 | Clusters: 0 | Spikes: 0");
}

#[test]
fn repeated_batch_is_not_new() {
    let cfg = Config::defaults();
    let mut state = TrackerState::new();
    let batch = vec![trade("A", Some("m"), "BUY", 100_000, 100_000_000_000, 1)];
    assert_eq!(state.begin_poll(&batch, 0, &cfg).new_trades.len(), 1);
    let again = state.begin_poll(&batch, 10, &cfg);
    assert_eq!(again.new_trades.len(), 0);
    assert_eq!(state.poll_count, 2);
    assert_eq!(state.volume_trackers[0].current_hour_volume, 10_000 * USD);
}

#[test]
fn stats_are_cached_for_a_minute() {
    let cfg = Config::defaults();
    let mut state = TrackerState::new();
    let t = trade("0xw", Some("m"), "BUY", 100_000, 100_000_000_000, 1);
    let wallet = "0xw".to_string();
    assert!(state.needs_activity(&wallet, 0));
    let acts = vec![activity(Some("BUY"), Some("m1"), None, Some(5))];
    let s = state.analyze_trade(t.clone(), Some(acts), 0, &cfg).unwrap();
    assert_eq!(s.user_stats.unique_markets, 1);
    assert_eq!(s.alert_level, AlertLevel::High);
    assert!(!state.needs_activity(&wallet, 59));
    let cached = state.analyze_trade(t.clone(), None, 59, &cfg).unwrap();
    assert_eq!(cached.user_stats.unique_markets, 1);
    assert!(state.needs_activity(&wallet, 60));
    assert!(state.analyze_trade(t, None, 60, &cfg).is_none());
}

#[test]
fn seasoned_actor_is_not_flagged() {
    let cfg = Config::defaults();
    let mut state = TrackerState::new();
    let t = trade("0xv", Some("m"), "BUY", 100_000, 100_000_000_000, 1);
    let acts = vec![
        activity(Some("BUY"), Some("m1"), None, None),
        activity(Some("BUY"), Some("m2"), None, None),
        activity(Some("BUY"), Some("m3"), None, None),
    ];
    assert!(state.analyze_trade(t, Some(acts), 0, &cfg).is_none());
    assert_eq!(state.user_stats_cache.len(), 1);
}

#[test]
fn spike_alert_fires_once() {
    let cfg = Config::defaults();
    let mut state = TrackerState::new();
    state.begin_poll(&vec![trade("A", Some("m"), "SELL", 1_000_000, 200_000_000, 1)], 0, &cfg);
    assert!(state.finish_poll(&cfg).spikes.is_empty());
    state.begin_poll(&vec![trade("B", Some("m"), "SELL", 1_000_000, 700_000_000, 2)], 3600, &cfg);
    let first = state.finish_poll(&cfg);
    assert_eq!(first.spikes.len(), 1);
    assert_eq!(first.spikes[0].spike_ratio(), 350);
    state.begin_poll(&vec![trade("C", Some("m"), "SELL", 1_000_000, 100_000_000, 3)], 3700, &cfg);
    assert!(state.finish_poll(&cfg).spikes.is_empty());
}

#[test]
fn money_and_percent_formatting() {
    assert_eq!(format_dollars(6_000 * USD), "6000.00");
    assert_eq!(format_dollars(12_345_000_000_000), "12.35");
    assert_eq!(format_dollars(12_344_999_999_999), "12.34");
    assert_eq!(format_dollars(0), "0.00");
    assert_eq!(format_percent(123_456), "12.3");
    assert_eq!(format_percent(350_000), "35.0");
    assert_eq!(format_percent(999_950), "100.0");
    assert_eq!(format_ratio(350), "3.5");
    assert_eq!(trade_clock(3_661), "01:01:01 UTC");
    assert_eq!(trade_clock(-1), "23:59:59 UTC");
    assert_eq!(trade_clock(i64::MAX), "Unknown");
}

#[test]
fn chat_messages_carry_escaped_fields() {
    let mut t = trade("0xabc", Some("m"), "BUY", 200_000, 30_000_000_000, 3_661);
    t.title = Some("A & B".to_string());
    t.slug = Some("a-b".to_string());
    let s = classify(t.clone(), stats(1), 2).unwrap();
    let msg = suspect_message(&s);
    assert!(msg.starts_with("<b>INSIDER ALERT [HIGH]</b>\n\n<b>Market:</b> A &amp; B\n"));
    assert!(msg.contains("<b>Value:</b> $6000.00\n<b>Price:</b> 20.0%\n"));
    assert!(msg.contains("<b>Time:</b> 01:01:01 UTC"));
    assert!(msg.ends_with("<a href=\"https://polymarket.com/event/a-b\">BUY NOW</a>"));

    let mut c = MarketCluster::new(&t, 0);
    c.add_trade(&trade("0xdef", Some("m"), "BUY", 100_000, 1_000_000, 0));
    let cm = cluster_message(&c, 600);
    assert!(cm.contains("<b>Wallets:</b> 2 fresh wallets in 10 mins\n"));
    assert!(cm.contains("<b>Avg Price:</b> 15.0%"));

    let base = trade("A", Some("m"), "BUY", 1_000_000, 200_000_000, 0);
    let mut v = VolumeTracker::new(&base, 0);
    v.add_trade(&trade("A", Some("m"), "BUY", 1_000_000, 700_000_000, 0), 3600);
    let sm = spike_message(&v);
    assert!(sm.contains("<b>Current:</b> $700.00 this hour\n<b>Average:</b> $200.00/hour (24h)\n<b>Spike:</b> 3.5x normal"));
}
