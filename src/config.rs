use vstd::prelude::*;

use crate::text::{chars_of, contains_text, find_text};
use crate::parse::{bounded, fixed_digits, integer_digits, parse_fixed, parse_integer};

verus! {

/// The knobs of the engine, fixed for the life of a process. Amounts are in
/// the units of [`crate::trade::Trade::value_usd`], prices in millionths of a
/// dollar.
#[derive(Clone, Copy)]
pub struct Config {
    /// Trades worth less are dropped.
    pub min_trade_size: u128,
    /// Actors with more distinct markets are not fresh.
    pub max_unique_markets: usize,
    /// Trades at this price or above are not contrarian.
    pub max_price_micros: u64,
    pub poll_interval_ms: u64,
    /// Clusters older than this are dropped.
    pub cluster_window_mins: u64,
    /// A cluster with this many actors raises an alert.
    pub cluster_min_wallets: usize,
    /// A spike is a current hour above this percentage of the hourly mean.
    pub spike_multiplier_pct: u64,
}

/// Default minimum trade size: 5000 dollars.
pub const DEFAULT_MIN_TRADE_SIZE: u128 = 5_000_000_000_000_000;

/// Default bound on a fresh actor's distinct markets.
pub const DEFAULT_MAX_UNIQUE_MARKETS: usize = 2;

/// Default contrarian price bound: 0.35 dollars.
pub const DEFAULT_MAX_PRICE_MICROS: u64 = 350_000;

/// Default pause between polls.
pub const DEFAULT_POLL_INTERVAL_MS: u64 = 2000;

/// Default cluster window.
pub const DEFAULT_CLUSTER_WINDOW_MINS: u64 = 30;

/// Default number of actors that makes a cluster.
pub const DEFAULT_CLUSTER_MIN_WALLETS: usize = 3;

/// Default spike multiplier: three times the hourly mean.
pub const DEFAULT_SPIKE_MULTIPLIER_PCT: u64 = 300;

impl Config {
    /// The settings from their raw texts, each falling back to its default.
    pub fn from_settings(
        min_trade_size: Option<String>,
        max_markets: Option<String>,
        max_price: Option<String>,
        poll_interval: Option<String>,
        window_mins: Option<String>,
        min_wallets: Option<String>,
        spike_multiplier: Option<String>,
    ) -> (r: Self)
        ensures
            r.min_trade_size == setting_or(read_fixed(min_trade_size, 12, u128::MAX as nat), DEFAULT_MIN_TRADE_SIZE as int),
            r.max_unique_markets == setting_or(read_integer(max_markets, usize::MAX as nat), DEFAULT_MAX_UNIQUE_MARKETS as int),
            r.max_price_micros == setting_or(read_fixed(max_price, 6, u64::MAX as nat), DEFAULT_MAX_PRICE_MICROS as int),
            r.poll_interval_ms == setting_or(read_integer(poll_interval, u64::MAX as nat), DEFAULT_POLL_INTERVAL_MS as int),
            r.cluster_window_mins == setting_or(read_integer(window_mins, u64::MAX as nat), DEFAULT_CLUSTER_WINDOW_MINS as int),
            r.cluster_min_wallets == setting_or(read_integer(min_wallets, usize::MAX as nat), DEFAULT_CLUSTER_MIN_WALLETS as int),
            r.spike_multiplier_pct == setting_or(read_fixed(spike_multiplier, 2, u64::MAX as nat), DEFAULT_SPIKE_MULTIPLIER_PCT as int),
    {
        Config {
            min_trade_size: min_trade_size_usd(min_trade_size),
            max_unique_markets: max_unique_markets(max_markets),
            max_price_micros: max_price_threshold(max_price),
            poll_interval_ms: poll_interval_ms(poll_interval),
            cluster_window_mins: cluster_window_mins(window_mins),
            cluster_min_wallets: cluster_min_wallets(min_wallets),
            spike_multiplier_pct: volume_spike_multiplier(spike_multiplier),
        }
    }

    /// The default settings.
    pub fn defaults() -> (r: Self)
        ensures
            r.min_trade_size == DEFAULT_MIN_TRADE_SIZE,
            r.max_unique_markets == DEFAULT_MAX_UNIQUE_MARKETS,
            r.max_price_micros == DEFAULT_MAX_PRICE_MICROS,
            r.poll_interval_ms == DEFAULT_POLL_INTERVAL_MS,
            r.cluster_window_mins == DEFAULT_CLUSTER_WINDOW_MINS,
            r.cluster_min_wallets == DEFAULT_CLUSTER_MIN_WALLETS,
            r.spike_multiplier_pct == DEFAULT_SPIKE_MULTIPLIER_PCT,
    {
        Config {
            min_trade_size: DEFAULT_MIN_TRADE_SIZE,
            max_unique_markets: DEFAULT_MAX_UNIQUE_MARKETS,
            max_price_micros: DEFAULT_MAX_PRICE_MICROS,
            poll_interval_ms: DEFAULT_POLL_INTERVAL_MS,
            cluster_window_mins: DEFAULT_CLUSTER_WINDOW_MINS,
            cluster_min_wallets: DEFAULT_CLUSTER_MIN_WALLETS,
            spike_multiplier_pct: DEFAULT_SPIKE_MULTIPLIER_PCT,
        }
    }
}

/// A numeric setting read from its raw text as a decimal number in units of
/// `10^-scale`; `None` when it is missing, unreadable or above `bound`.
pub open spec fn read_fixed(raw: Option<String>, scale: nat, bound: nat) -> Option<nat> {
    match raw {
        Some(s) => bounded(fixed_digits(s@, scale), bound),
        None => None,
    }
}

/// A numeric setting read from its raw text as an unsigned integer; `None`
/// when it is missing, unreadable or above `bound`.
pub open spec fn read_integer(raw: Option<String>, bound: nat) -> Option<nat> {
    match raw {
        Some(s) => bounded(integer_digits(s@), bound),
        None => None,
    }
}

/// A setting's value, or its default.
pub open spec fn setting_or(read: Option<nat>, default: int) -> int {
    match read {
        Some(n) => n as int,
        None => default,
    }
}

fn fixed_setting(raw: &Option<String>, scale: usize, bound: u128) -> (r: Option<u128>)
    ensures
        match read_fixed(*raw, scale as nat, bound as nat) {
            Some(n) => r == Some(n as u128),
            None => r is None,
        },
{
    match raw {
        Some(s) => match parse_fixed(s.as_str(), scale) {
            Some(n) => if n <= bound {
                Some(n)
            } else {
                None
            },
            None => None,
        },
        None => None,
    }
}

fn integer_setting(raw: &Option<String>, bound: u128) -> (r: Option<u128>)
    ensures
        match read_integer(*raw, bound as nat) {
            Some(n) => r == Some(n as u128),
            None => r is None,
        },
{
    match raw {
        Some(s) => match parse_integer(s.as_str()) {
            Some(n) => if n <= bound {
                Some(n)
            } else {
                None
            },
            None => None,
        },
        None => None,
    }
}

/// The minimum trade size from its raw setting in dollars, in the units of
/// [`crate::trade::Trade::value_usd`]; 5000 dollars when missing or
/// unreadable.
pub fn min_trade_size_usd(raw: Option<String>) -> (r: u128)
    ensures
        r == setting_or(read_fixed(raw, 12, u128::MAX as nat), DEFAULT_MIN_TRADE_SIZE as int),
{
    match fixed_setting(&raw, 12, u128::MAX) {
        Some(n) => n,
        None => DEFAULT_MIN_TRADE_SIZE,
    }
}

/// The bound on a fresh actor's distinct markets from its raw setting; 2 when
/// missing or unreadable.
pub fn max_unique_markets(raw: Option<String>) -> (r: usize)
    ensures
        r == setting_or(read_integer(raw, usize::MAX as nat), DEFAULT_MAX_UNIQUE_MARKETS as int),
{
    match integer_setting(&raw, usize::MAX as u128) {
        Some(n) => n as usize,
        None => DEFAULT_MAX_UNIQUE_MARKETS,
    }
}

/// The contrarian price bound from its raw setting in dollars, in millionths;
/// 0.35 dollars when missing or unreadable.
pub fn max_price_threshold(raw: Option<String>) -> (r: u64)
    ensures
        r == setting_or(read_fixed(raw, 6, u64::MAX as nat), DEFAULT_MAX_PRICE_MICROS as int),
{
    match fixed_setting(&raw, 6, u64::MAX as u128) {
        Some(n) => n as u64,
        None => DEFAULT_MAX_PRICE_MICROS,
    }
}

/// The pause between polls from its raw setting in milliseconds; 2000 when
/// missing or unreadable.
pub fn poll_interval_ms(raw: Option<String>) -> (r: u64)
    ensures
        r == setting_or(read_integer(raw, u64::MAX as nat), DEFAULT_POLL_INTERVAL_MS as int),
{
    match integer_setting(&raw, u64::MAX as u128) {
        Some(n) => n as u64,
        None => DEFAULT_POLL_INTERVAL_MS,
    }
}

/// The cluster window from its raw setting in minutes; 30 when missing or
/// unreadable.
pub fn cluster_window_mins(raw: Option<String>) -> (r: u64)
    ensures
        r == setting_or(read_integer(raw, u64::MAX as nat), DEFAULT_CLUSTER_WINDOW_MINS as int),
{
    match integer_setting(&raw, u64::MAX as u128) {
        Some(n) => n as u64,
        None => DEFAULT_CLUSTER_WINDOW_MINS,
    }
}

/// The number of actors that makes a cluster from its raw setting; 3 when
/// missing or unreadable.
pub fn cluster_min_wallets(raw: Option<String>) -> (r: usize)
    ensures
        r == setting_or(read_integer(raw, usize::MAX as nat), DEFAULT_CLUSTER_MIN_WALLETS as int),
{
    match integer_setting(&raw, usize::MAX as u128) {
        Some(n) => n as usize,
        None => DEFAULT_CLUSTER_MIN_WALLETS,
    }
}

/// The spike multiplier from its raw setting as a plain factor, in
/// hundredths; 3.00 when missing or unreadable.
pub fn volume_spike_multiplier(raw: Option<String>) -> (r: u64)
    ensures
        r == setting_or(read_fixed(raw, 2, u64::MAX as nat), DEFAULT_SPIKE_MULTIPLIER_PCT as int),
{
    match fixed_setting(&raw, 2, u64::MAX as u128) {
        Some(n) => n as u64,
        None => DEFAULT_SPIKE_MULTIPLIER_PCT,
    }
}

/// Title keywords of short-duration and derivative-style markets, in lower
/// case.
pub open spec fn gambling_keywords() -> Seq<Seq<char>> {
    seq![
        "up or down"@,
        "up/down"@,
        "updown"@,
        "15m"@,
        "15 min"@,
        "30m"@,
        "30 min"@,
        "hourly"@,
        "1 hour"@,
        "bitcoin up"@,
        "bitcoin down"@,
        "eth up"@,
        "eth down"@,
        "btc up"@,
        "btc down"@,
        "price above"@,
        "price below"@,
        "over/under"@,
        "o/u"@,
    ]
}

/// Whether a lower-cased title holds one of the [`gambling_keywords`].
pub open spec fn names_gambling(lower_title: Seq<char>) -> bool {
    exists|k: int| 0 <= k < gambling_keywords().len() && contains_text(lower_title, #[trigger] gambling_keywords()[k])
}

/// The [`gambling_keywords`] as text.
pub fn gambling_keyword_list() -> (r: Vec<&'static str>)
    ensures
        r@.map_values(|s: &str| s@) == gambling_keywords(),
{
    proof {
        reveal_strlit("up or down");
        reveal_strlit("up/down");
        reveal_strlit("updown");
        reveal_strlit("15m");
        reveal_strlit("15 min");
        reveal_strlit("30m");
        reveal_strlit("30 min");
        reveal_strlit("hourly");
        reveal_strlit("1 hour");
        reveal_strlit("bitcoin up");
        reveal_strlit("bitcoin down");
        reveal_strlit("eth up");
        reveal_strlit("eth down");
        reveal_strlit("btc up");
        reveal_strlit("btc down");
        reveal_strlit("price above");
        reveal_strlit("price below");
        reveal_strlit("over/under");
        reveal_strlit("o/u");
    }
    let mut v: Vec<&'static str> = Vec::new();
    v.push("up or down");
    v.push("up/down");
    v.push("updown");
    v.push("15m");
    v.push("15 min");
    v.push("30m");
    v.push("30 min");
    v.push("hourly");
    v.push("1 hour");
    v.push("bitcoin up");
    v.push("bitcoin down");
    v.push("eth up");
    v.push("eth down");
    v.push("btc up");
    v.push("btc down");
    v.push("price above");
    v.push("price below");
    v.push("over/under");
    v.push("o/u");
    assert(v@.map_values(|s: &str| s@) =~= gambling_keywords());
    v
}

/// What `str::to_lowercase` makes of a text.
pub uninterp spec fn lower_of(s: Seq<char>) -> Seq<char>;

/// Relies on `str::to_lowercase`: the lower-case form of a text, which depends
/// on the text alone.
#[verifier::external_body]
fn to_lower(s: &str) -> (r: String)
    ensures
        r@ == lower_of(s@),
{
    s.to_lowercase()
}

/// Whether an already lower-cased title names a gambling market.
pub fn is_gambling_title(lower_title: &str) -> (r: bool)
    ensures
        r == names_gambling(lower_title@),
{
    let hay = chars_of(lower_title);
    let keywords = gambling_keyword_list();
    let mut i: usize = 0;
    while i < keywords.len()
        invariant
            keywords@.map_values(|s: &str| s@) == gambling_keywords(),
            i <= keywords@.len(),
            hay@ == lower_title@,
            forall|k: int| 0 <= k < i ==> !contains_text(lower_title@, #[trigger] gambling_keywords()[k]),
        decreases keywords@.len() - i,
    {
        let needle = chars_of(keywords[i]);
        assert(needle@ == gambling_keywords()[i as int]);
        if find_text(&hay, &needle) {
            return true;
        }
        i += 1;
    }
    false
}

/// Whether a market title names a short-duration or derivative-style market,
/// whatever its case.
pub fn is_gambling_market(title: &str) -> (r: bool)
    ensures
        r == names_gambling(lower_of(title@)),
{
    let lower = to_lower(title);
    is_gambling_title(lower.as_str())
}

/// A setting that is present and not empty.
pub open spec fn non_empty(raw: Option<String>) -> Option<String> {
    match raw {
        Some(s) if s@.len() > 0 => Some(s),
        _ => None,
    }
}

fn keep_non_empty(raw: Option<String>) -> (r: Option<String>)
    ensures
        r == non_empty(raw),
{
    match raw {
        Some(s) => {
            if s.as_str().unicode_len() > 0 {
                Some(s)
            } else {
                None
            }
        },
        None => None,
    }
}

/// The chat webhook, from its raw setting; an empty one counts as none.
pub fn discord_webhook_url(raw: Option<String>) -> (r: Option<String>)
    ensures
        r == non_empty(raw),
{
    keep_non_empty(raw)
}

/// The messaging bot token, from its raw setting; an empty one counts as none.
pub fn telegram_bot_token(raw: Option<String>) -> (r: Option<String>)
    ensures
        r == non_empty(raw),
{
    keep_non_empty(raw)
}

/// The messaging chat id, from its raw setting; an empty one counts as none.
pub fn telegram_chat_id(raw: Option<String>) -> (r: Option<String>)
    ensures
        r == non_empty(raw),
{
    keep_non_empty(raw)
}

/// Whether messaging is configured: both a token and a chat id are set and
/// not empty.
pub fn telegram_enabled(token: Option<String>, chat_id: Option<String>) -> (r: bool)
    ensures
        r == (non_empty(token) is Some && non_empty(chat_id) is Some),
{
    telegram_bot_token(token).is_some() && telegram_chat_id(chat_id).is_some()
}

} // verus!
