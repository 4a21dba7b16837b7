use vstd::prelude::*;

use crate::text::{decimal, decimal_string, signed_decimal, signed_decimal_string};

verus! {

/// One dollar in the units of [`Trade::value_usd`]: a price in millionths of a
/// dollar times a size in millionths of a share.
pub const USD: u128 = 1_000_000_000_000;

/// The largest running volume that the trackers hold, in the units of
/// [`Trade::value_usd`] (about 1.27 * 10^18 dollars). Sums beyond it stay at
/// it.
pub const MAX_VOLUME: u128 = 1267650600228229401496703205376;

/// A running sum of volumes, held at [`MAX_VOLUME`].
pub open spec fn capped_sum(total: int, value: int) -> int {
    if total + value > MAX_VOLUME {
        MAX_VOLUME as int
    } else {
        total + value
    }
}

/// Adds `value` to a running volume, holding the sum at [`MAX_VOLUME`].
pub fn add_capped(total: u128, value: u128) -> (r: u128)
    requires
        total <= MAX_VOLUME,
    ensures
        r == capped_sum(total as int, value as int),
        r <= MAX_VOLUME,
{
    if value >= MAX_VOLUME - total {
        MAX_VOLUME
    } else {
        total + value
    }
}

/// The text of an optional string, or a copy of `fallback` when there is none.
pub fn text_or_else(o: &Option<String>, fallback: &str) -> (r: String)
    ensures
        r@ == text_or(*o, fallback@),
{
    match o {
        Some(s) => s.clone(),
        None => String::from_str(fallback),
    }
}

/// A single trade reported by the market feed.
///
/// Prices and sizes are fixed-point integers: `price_micros` is the price of
/// one share in millionths of a dollar, `size_micros` the number of shares in
/// millionths of a share.
pub struct Trade {
    pub proxy_wallet: String,
    pub side: String,
    pub asset: Option<String>,
    pub condition_id: Option<String>,
    pub size_micros: u64,
    pub price_micros: u64,
    pub timestamp: i64,
    pub title: Option<String>,
    pub slug: Option<String>,
    pub icon: Option<String>,
    pub event_slug: Option<String>,
    pub outcome: Option<String>,
    pub outcome_index: Option<i32>,
    pub name: Option<String>,
    pub pseudonym: Option<String>,
    pub bio: Option<String>,
    pub profile_image: Option<String>,
    pub profile_image_optimized: Option<String>,
    pub transaction_hash: Option<String>,
}

fn clone_opt(o: &Option<String>) -> (r: Option<String>)
    ensures
        r == *o,
{
    match o {
        Some(s) => Some(s.clone()),
        None => None,
    }
}

impl Clone for Trade {
    fn clone(&self) -> (r: Self)
        ensures
            r == *self,
    {
        Trade {
            proxy_wallet: self.proxy_wallet.clone(),
            side: self.side.clone(),
            asset: clone_opt(&self.asset),
            condition_id: clone_opt(&self.condition_id),
            size_micros: self.size_micros,
            price_micros: self.price_micros,
            timestamp: self.timestamp,
            title: clone_opt(&self.title),
            slug: clone_opt(&self.slug),
            icon: clone_opt(&self.icon),
            event_slug: clone_opt(&self.event_slug),
            outcome: clone_opt(&self.outcome),
            outcome_index: self.outcome_index,
            name: clone_opt(&self.name),
            pseudonym: clone_opt(&self.pseudonym),
            bio: clone_opt(&self.bio),
            profile_image: clone_opt(&self.profile_image),
            profile_image_optimized: clone_opt(&self.profile_image_optimized),
            transaction_hash: clone_opt(&self.transaction_hash),
        }
    }
}

/// A product of two 64-bit quantities fits in 128 bits.
proof fn lemma_product_fits(a: u128, b: u128)
    requires
        a <= u64::MAX,
        b <= u64::MAX,
    ensures
        a * b <= u128::MAX,
{
    assert(a * b <= (u64::MAX as int) * (u64::MAX as int)) by (nonlinear_arith)
        requires
            a <= u64::MAX,
            b <= u64::MAX,
    ;
}

/// What `str::to_uppercase` makes of a text.
pub uninterp spec fn upper_of(s: Seq<char>) -> Seq<char>;

/// Relies on `str::to_uppercase`: the upper-case form of a text, which depends
/// on the text alone.
#[verifier::external_body]
fn to_upper(s: &str) -> (r: String)
    ensures
        r@ == upper_of(s@),
{
    s.to_uppercase()
}

/// Whether an upper-cased side reads `BUY`.
pub fn is_buy_label(upper_side: &str) -> (r: bool)
    ensures
        r == (upper_side@ == "BUY"@),
{
    proof {
        reveal_strlit("BUY");
    }
    String::from_str(upper_side) == String::from_str("BUY")
}

/// The text of an optional string, or `fallback` when there is none.
pub open spec fn text_or(o: Option<String>, fallback: Seq<char>) -> Seq<char> {
    match o {
        Some(s) => s@,
        None => fallback,
    }
}

/// The market page that a trade links to.
pub open spec fn market_url_of(event_slug: Option<String>, slug: Option<String>) -> Seq<char> {
    match event_slug {
        Some(e) => "https://polymarket.com/event/"@ + e@,
        None => match slug {
            Some(s) => "https://polymarket.com/event/"@ + s@,
            None => "https://polymarket.com"@,
        },
    }
}

/// The key under which a trade is deduplicated: actor, timestamp and size,
/// joined by `-`.
pub open spec fn trade_key(wallet: Seq<char>, timestamp: i64, size_micros: u64) -> Seq<char> {
    wallet + seq!['-'] + signed_decimal(timestamp as int) + seq!['-'] + decimal(size_micros as nat)
}

impl Trade {
    /// Whether the trade is an aggressive buy: its side reads `BUY` in any case.
    pub fn is_taker_buy(&self) -> (r: bool)
        ensures
            r == (upper_of(self.side@) == "BUY"@),
    {
        let upper = to_upper(self.side.as_str());
        is_buy_label(upper.as_str())
    }

    /// The deduplication key of the trade. Two trades by one actor in one
    /// second with equal sizes share it.
    pub fn unique_id(&self) -> (r: String)
        ensures
            r@ == trade_key(self.proxy_wallet@, self.timestamp, self.size_micros),
    {
        proof {
            reveal_strlit("-");
        }
        let mut r = self.proxy_wallet.clone();
        r.append("-");
        let ts = signed_decimal_string(self.timestamp);
        r.append(ts.as_str());
        r.append("-");
        let size = decimal_string(self.size_micros as u128);
        r.append(size.as_str());
        assert(r@ =~= trade_key(self.proxy_wallet@, self.timestamp, self.size_micros));
        r
    }

    /// The market page of the trade: by event slug, else by market slug, else
    /// the site's front page.
    pub fn market_url(&self) -> (r: String)
        ensures
            r@ == market_url_of(self.event_slug, self.slug),
    {
        proof {
            reveal_strlit("https://polymarket.com/event/");
            reveal_strlit("https://polymarket.com");
        }
        match &self.event_slug {
            Some(e) => String::from_str("https://polymarket.com/event/").concat(e.as_str()),
            None => match &self.slug {
                Some(s) => String::from_str("https://polymarket.com/event/").concat(s.as_str()),
                None => String::from_str("https://polymarket.com"),
            },
        }
    }

    /// The value of the trade: price times size, exactly.
    pub fn value_usd(&self) -> (r: u128)
        ensures
            r == self.price_micros * self.size_micros,
    {
        let p = self.price_micros as u128;
        let q = self.size_micros as u128;
        proof {
            lemma_product_fits(p, q);
        }
        p * q
    }
}


} // verus!
