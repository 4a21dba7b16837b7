use vstd::prelude::*;

use crate::text::{clone_strings, insert_distinct, views};
use crate::trade::{add_capped, capped_sum, market_url_of, text_or, Trade, MAX_VOLUME};

verus! {

/// Fresh actors trading one market within a time window.
pub struct MarketCluster {
    pub condition_id: String,
    pub market_title: String,
    pub market_url: String,
    pub outcome: String,
    /// A recency-weighted price in millionths of a dollar: each trade moves it
    /// halfway towards its own price, rounding down.
    pub avg_price: u64,
    /// The distinct actors seen, in the order in which they came.
    pub fresh_wallets: Vec<String>,
    /// The summed value of the trades, held at [`MAX_VOLUME`].
    pub total_volume: u128,
    /// When the cluster was created, in seconds.
    pub first_seen: u64,
    pub last_trade: Trade,
}

/// What the cluster logic reads of a [`MarketCluster`].
pub struct ClusterModel {
    pub wallets: Set<Seq<char>>,
    pub avg_price: int,
    pub total_volume: int,
    pub first_seen: u64,
}

/// The cluster that a first trade seeds at time `now`.
pub open spec fn seeded(trade: Trade, now: u64) -> ClusterModel {
    ClusterModel {
        first_seen: now,
        wallets: set![trade.proxy_wallet@],
        avg_price: trade.price_micros as int,
        total_volume: capped_sum(0, trade.price_micros * trade.size_micros),
    }
}

/// The cluster after one more trade on its market.
pub open spec fn joined(c: ClusterModel, trade: Trade) -> ClusterModel {
    ClusterModel {
        wallets: c.wallets.insert(trade.proxy_wallet@),
        avg_price: (c.avg_price + trade.price_micros) / 2,
        total_volume: capped_sum(c.total_volume, trade.price_micros * trade.size_micros),
        first_seen: c.first_seen,
    }
}

/// Membership is idempotent: a cluster seeded by actor `a` that then sees
/// trades by `a`, `b` and `c`, three distinct actors, holds three actors.
pub proof fn lemma_repeated_actor_counted_once(t0: Trade, t1: Trade, t2: Trade, t3: Trade, now: u64)
    requires
        t1.proxy_wallet@ == t0.proxy_wallet@,
        t2.proxy_wallet@ != t0.proxy_wallet@,
        t3.proxy_wallet@ != t0.proxy_wallet@,
        t3.proxy_wallet@ != t2.proxy_wallet@,
    ensures
        joined(joined(joined(seeded(t0, now), t1), t2), t3).wallets.len() == 3,
{
    let w = joined(joined(joined(seeded(t0, now), t1), t2), t3).wallets;
    assert(w =~= set![t0.proxy_wallet@].insert(t2.proxy_wallet@).insert(t3.proxy_wallet@));
}

/// The cluster price is a halving recurrence, not a mean: seeded at `p0` and
/// then fed `p1` and `p2`, it is `((p0 + p1) / 2 + p2) / 2`, rounding down at
/// each step.
pub proof fn lemma_price_recurrence(t0: Trade, t1: Trade, t2: Trade, now: u64)
    ensures
        joined(joined(seeded(t0, now), t1), t2).avg_price == ((t0.price_micros + t1.price_micros) / 2
            + t2.price_micros) / 2,
{
}

impl Clone for MarketCluster {
    fn clone(&self) -> (r: Self)
        ensures
            r.same_as(*self),
    {
        MarketCluster {
            condition_id: self.condition_id.clone(),
            market_title: self.market_title.clone(),
            market_url: self.market_url.clone(),
            outcome: self.outcome.clone(),
            avg_price: self.avg_price,
            fresh_wallets: clone_strings(&self.fresh_wallets),
            total_volume: self.total_volume,
            first_seen: self.first_seen,
            last_trade: self.last_trade.clone(),
        }
    }
}

impl MarketCluster {
    /// Field by field equality, lists by their contents.
    pub open spec fn same_as(&self, o: MarketCluster) -> bool {
        &&& self.condition_id == o.condition_id
        &&& self.market_title == o.market_title
        &&& self.market_url == o.market_url
        &&& self.outcome == o.outcome
        &&& self.avg_price == o.avg_price
        &&& self.fresh_wallets@ == o.fresh_wallets@
        &&& self.total_volume == o.total_volume
        &&& self.first_seen == o.first_seen
        &&& self.last_trade == o.last_trade
    }

    pub open spec fn wf(&self) -> bool {
        &&& views(self.fresh_wallets@).no_duplicates()
        &&& self.total_volume <= MAX_VOLUME
    }

    pub open spec fn model(&self) -> ClusterModel {
        ClusterModel {
            wallets: views(self.fresh_wallets@).to_set(),
            avg_price: self.avg_price as int,
            total_volume: self.total_volume as int,
            first_seen: self.first_seen,
        }
    }

    /// Whole minutes since the cluster was created; zero if `now` is earlier.
    pub open spec fn spec_age_minutes(&self, now: u64) -> int {
        if now >= self.first_seen {
            (now - self.first_seen) / 60
        } else {
            0
        }
    }

    /// Starts a cluster at time `now` from the first trade on a market.
    pub fn new(trade: &Trade, now: u64) -> (r: Self)
        ensures
            r.wf(),
            r.model() == seeded(*trade, now),
            r.condition_id@ == text_or(trade.condition_id, Seq::empty()),
            r.market_title@ == text_or(trade.title, "Unknown"@),
            r.market_url@ == market_url_of(trade.event_slug, trade.slug),
            r.outcome@ == text_or(trade.outcome, trade.side@),
            r.first_seen == now,
            r.last_trade == *trade,
    {
        let mut wallets: Vec<String> = Vec::new();
        insert_distinct(&mut wallets, &trade.proxy_wallet);
        let outcome = match &trade.outcome {
            Some(o) => o.clone(),
            None => trade.side.clone(),
        };
        let r = MarketCluster {
            condition_id: crate::trade::text_or_else(&trade.condition_id, ""),
            market_title: crate::trade::text_or_else(&trade.title, "Unknown"),
            market_url: trade.market_url(),
            outcome,
            avg_price: trade.price_micros,
            fresh_wallets: wallets,
            total_volume: add_capped(0, trade.value_usd()),
            first_seen: now,
            last_trade: trade.clone(),
        };
        proof {
            reveal_strlit("");
            assert(views(Seq::<String>::empty()).to_set() =~= Set::<Seq<char>>::empty());
            assert(r.model().wallets =~= set![trade.proxy_wallet@]);
        }
        r
    }

    /// Adds a later trade on the same market: its actor joins the set, its
    /// value the volume, and the price moves halfway towards its price.
    pub fn add_trade(&mut self, trade: &Trade)
        requires
            old(self).wf(),
        ensures
            final(self).wf(),
            final(self).model() == joined(old(self).model(), *trade),
            final(self).last_trade == *trade,
            final(self).condition_id == old(self).condition_id,
            final(self).market_title == old(self).market_title,
            final(self).market_url == old(self).market_url,
            final(self).outcome == old(self).outcome,
            final(self).first_seen == old(self).first_seen,
    {
        insert_distinct(&mut self.fresh_wallets, &trade.proxy_wallet);
        self.total_volume = add_capped(self.total_volume, trade.value_usd());
        self.avg_price = ((self.avg_price as u128 + trade.price_micros as u128) / 2) as u64;
        self.last_trade = trade.clone();
    }

    /// The number of distinct actors in the cluster.
    pub fn wallet_count(&self) -> (r: usize)
        requires
            self.wf(),
        ensures
            r == self.model().wallets.len(),
    {
        proof {
            views(self.fresh_wallets@).unique_seq_to_set();
        }
        self.fresh_wallets.len()
    }

    /// Whole minutes from the cluster's creation to `now`.
    pub fn age_minutes(&self, now: u64) -> (r: u64)
        ensures
            r == self.spec_age_minutes(now),
    {
        if now >= self.first_seen {
            (now - self.first_seen) / 60
        } else {
            0
        }
    }
}

} // verus!
