use vstd::prelude::*;

use crate::text::{decimal, decimal_string};
use crate::trade::{Trade, USD};

verus! {

/// One record of an actor's activity history. Prices and sizes are in
/// millionths, as in [`Trade`].
pub struct UserActivity {
    pub proxy_wallet: Option<String>,
    pub side: Option<String>,
    pub asset: Option<String>,
    pub condition_id: Option<String>,
    pub size_micros: Option<u64>,
    pub price_micros: Option<u64>,
    pub timestamp: Option<i64>,
    pub title: Option<String>,
    pub slug: Option<String>,
    pub outcome: Option<String>,
    pub activity_type: Option<String>,
}

/// What an actor's recent activity shows.
pub struct UserStats {
    pub address: String,
    /// Distinct markets traded in the records seen: a lower bound on the
    /// actor's lifetime count.
    pub unique_markets: usize,
    pub total_trades: usize,
    /// The earliest timestamp among the records, whether trades or not.
    pub first_activity_timestamp: Option<i64>,
}

impl Clone for UserStats {
    fn clone(&self) -> (r: Self)
        ensures
            r == *self,
    {
        UserStats {
            address: self.address.clone(),
            unique_markets: self.unique_markets,
            total_trades: self.total_trades,
            first_activity_timestamp: self.first_activity_timestamp,
        }
    }
}

/// The market a record counts for: its condition id, else its slug.
pub open spec fn market_key(a: UserActivity) -> Option<Seq<char>> {
    match a.condition_id {
        Some(c) => Some(c@),
        None => match a.slug {
            Some(s) => Some(s@),
            None => None,
        },
    }
}

/// The distinct markets of the records that carry a side.
pub open spec fn traded_markets(acts: Seq<UserActivity>) -> Set<Seq<char>>
    decreases acts.len(),
{
    if acts.len() == 0 {
        Set::empty()
    } else {
        let before = traded_markets(acts.drop_last());
        let a = acts.last();
        if a.side is Some && market_key(a) is Some {
            before.insert(market_key(a)->0)
        } else {
            before
        }
    }
}

/// The number of records that carry a side.
pub open spec fn trade_count(acts: Seq<UserActivity>) -> int
    decreases acts.len(),
{
    if acts.len() == 0 {
        0
    } else {
        trade_count(acts.drop_last()) + if acts.last().side is Some {
            1int
        } else {
            0
        }
    }
}

/// The smallest timestamp among the records, if any has one.
pub open spec fn earliest(acts: Seq<UserActivity>) -> Option<i64>
    decreases acts.len(),
{
    if acts.len() == 0 {
        None
    } else {
        let before = earliest(acts.drop_last());
        match acts.last().timestamp {
            None => before,
            Some(t) => match before {
                Some(m) if m <= t => Some(m),
                _ => Some(t),
            },
        }
    }
}

pub proof fn lemma_trade_count_bound(acts: Seq<UserActivity>)
    ensures
        0 <= trade_count(acts) <= acts.len(),
    decreases acts.len(),
{
    if acts.len() > 0 {
        lemma_trade_count_bound(acts.drop_last());
    }
}

/// How strongly a suspect trade is flagged.
#[derive(Clone, Copy, Debug, PartialEq, Eq, Structural)]
pub enum AlertLevel {
    High,
    Medium,
    Low,
}

impl AlertLevel {
    /// The level's name in capitals.
    pub open spec fn spec_label(&self) -> Seq<char> {
        match *self {
            AlertLevel::High => "HIGH"@,
            AlertLevel::Medium => "MEDIUM"@,
            AlertLevel::Low => "LOW"@,
        }
    }

    /// The level's name in capitals.
    pub fn label(&self) -> (r: &'static str)
        ensures
            r@ == self.spec_label(),
    {
        match self {
            AlertLevel::High => "HIGH",
            AlertLevel::Medium => "MEDIUM",
            AlertLevel::Low => "LOW",
        }
    }
}

/// A trade flagged as suspicious, with what was known of its actor.
pub struct SuspectTrade {
    pub trade: Trade,
    pub user_stats: UserStats,
    pub reason: String,
    pub alert_level: AlertLevel,
}

impl Clone for SuspectTrade {
    fn clone(&self) -> (r: Self)
        ensures
            r == *self,
    {
        SuspectTrade {
            trade: self.trade.clone(),
            user_stats: self.user_stats.clone(),
            reason: self.reason.clone(),
            alert_level: self.alert_level,
        }
    }
}

/// A position of at least this value counts as large: 5000 dollars.
pub const LARGE_POSITION: u128 = 5_000_000_000_000_000;

/// The severity of a suspect trade, checked in this order: few markets and a
/// large position, then a brand new actor, then a handful of markets.
pub open spec fn level_for(unique_markets: int, value: int) -> AlertLevel {
    if unique_markets <= 2 && value >= LARGE_POSITION {
        AlertLevel::High
    } else if unique_markets <= 1 {
        AlertLevel::High
    } else if unique_markets <= 3 {
        AlertLevel::Medium
    } else {
        AlertLevel::Low
    }
}

/// A value in whole dollars, halves rounded up.
pub open spec fn whole_dollars(value: int) -> int {
    value / (USD as int) + if value % (USD as int) >= USD / 2 {
        1int
    } else {
        0
    }
}

/// The reason given for a suspect trade: the fresh-actor and aggression
/// markers, then what decided a high level.
pub open spec fn reason_text(unique_markets: int, value: int) -> Seq<char> {
    let fresh = "Fresh Wallet ("@ + decimal(unique_markets as nat) + if unique_markets == 1 {
        " lifetime market)"@
    } else {
        " lifetime markets)"@
    };
    let base = fresh + " | "@ + "Taker BUY (aggressive)"@;
    if unique_markets <= 2 && value >= LARGE_POSITION {
        base + " | "@ + "Large Position ($"@ + decimal(whole_dollars(value) as nat) + ")"@
    } else if unique_markets <= 1 {
        base + " | "@ + "Brand New Wallet"@
    } else {
        base
    }
}

/// What [`classify`] returns for a trade and its actor's statistics.
pub open spec fn judged(r: Option<SuspectTrade>, trade: Trade, user_stats: UserStats, max_unique_markets: usize) -> bool {
    &&& (r is Some) == (user_stats.unique_markets <= max_unique_markets)
    &&& r matches Some(s) ==> {
        &&& s.trade == trade
        &&& s.user_stats == user_stats
        &&& s.alert_level == level_for(user_stats.unique_markets as int, trade.price_micros * trade.size_micros)
        &&& s.reason@ == reason_text(user_stats.unique_markets as int, trade.price_micros * trade.size_micros)
    }
}

/// Statistics derived from an actor's activity records.
pub open spec fn derived(s: UserStats, address: Seq<char>, acts: Seq<UserActivity>) -> bool {
    &&& s.address@ == address
    &&& s.unique_markets == traded_markets(acts).len()
    &&& s.total_trades == trade_count(acts)
    &&& s.first_activity_timestamp == earliest(acts)
}

/// Flags a filtered trade when its actor is fresh: at most
/// `max_unique_markets` distinct markets. The reason and level follow the
/// actor's market count and the trade's value.
pub fn classify(trade: Trade, user_stats: UserStats, max_unique_markets: usize) -> (r: Option<SuspectTrade>)
    ensures
        judged(r, trade, user_stats, max_unique_markets),
{
    if user_stats.unique_markets > max_unique_markets {
        return None;
    }
    let unique = user_stats.unique_markets;
    let value = trade.value_usd();
    proof {
        reveal_strlit("Fresh Wallet (");
        reveal_strlit(" lifetime market)");
        reveal_strlit(" lifetime markets)");
        reveal_strlit(" | ");
        reveal_strlit("Taker BUY (aggressive)");
        reveal_strlit("Large Position ($");
        reveal_strlit(")");
        reveal_strlit("Brand New Wallet");
    }
    let mut reason = String::from_str("Fresh Wallet (");
    let count = decimal_string(unique as u128);
    reason.append(count.as_str());
    if unique == 1 {
        reason.append(" lifetime market)");
    } else {
        reason.append(" lifetime markets)");
    }
    reason.append(" | ");
    reason.append("Taker BUY (aggressive)");
    let level = if unique <= 2 && value >= LARGE_POSITION {
        reason.append(" | ");
        reason.append("Large Position ($");
        let rounding: u128 = if value % USD >= USD / 2 {
            1
        } else {
            0
        };
        let dollars = decimal_string(value / USD + rounding);
        reason.append(dollars.as_str());
        reason.append(")");
        AlertLevel::High
    } else if unique <= 1 {
        reason.append(" | ");
        reason.append("Brand New Wallet");
        AlertLevel::High
    } else if unique <= 3 {
        AlertLevel::Medium
    } else {
        AlertLevel::Low
    };
    assert(reason@ =~= reason_text(unique as int, value as int));
    Some(SuspectTrade { trade, user_stats, reason, alert_level: level })
}

} // verus!
