use vstd::prelude::*;

use crate::cluster::{joined, seeded, ClusterModel, MarketCluster};
use crate::api::ApiClient;
use crate::config::Config;
use crate::dedup::{key_of, marked_all, unseen_in, Deduplicator};
use crate::filter::{after_aggression, after_category, after_contrarian, after_size, run_filters, FilterReport};
use crate::stats::{classify, derived, judged, SuspectTrade, UserActivity, UserStats};
use crate::volume::elapsed;
use crate::volume::{fed, started, VolumeModel, VolumeTracker};
use crate::text::{clone_strings, decimal, decimal_string, list_contains, views};
use crate::trade::Trade;
use crate::volume::{mean_of, spike};

verus! {

/// The key and model of each tracked market, in order.
pub open spec fn cluster_entries(v: Seq<MarketCluster>) -> Seq<(Seq<char>, ClusterModel)> {
    v.map_values(|c: MarketCluster| (c.condition_id@, c.model()))
}

pub open spec fn volume_entries(v: Seq<VolumeTracker>) -> Seq<(Seq<char>, VolumeModel)> {
    v.map_values(|t: VolumeTracker| (t.condition_id@, t.model()))
}

/// Whether some entry has key `k`.
pub open spec fn has_key<M>(e: Seq<(Seq<char>, M)>, k: Seq<char>) -> bool {
    exists|i: int| 0 <= i < e.len() && #[trigger] e[i].0 == k
}

/// The position of the entry with key `k`.
pub open spec fn key_index<M>(e: Seq<(Seq<char>, M)>, k: Seq<char>) -> int {
    choose|i: int| 0 <= i < e.len() && #[trigger] e[i].0 == k
}

/// No two entries share a key.
pub open spec fn distinct_keys<M>(e: Seq<(Seq<char>, M)>) -> bool {
    forall|i: int, j: int| 0 <= i < e.len() && 0 <= j < e.len() && i != j ==> #[trigger] e[i].0 != #[trigger] e[j].0
}

/// The clusters after one trade at time `now`: a trade with a market id joins
/// that market's cluster, or seeds one; a trade without is ignored.
pub open spec fn cluster_step(e: Seq<(Seq<char>, ClusterModel)>, t: Trade, now: u64) -> Seq<(Seq<char>, ClusterModel)> {
    match t.condition_id {
        None => e,
        Some(cid) => if has_key(e, cid@) {
            let i = key_index(e, cid@);
            e.update(i, (cid@, joined(e[i].1, t)))
        } else {
            e.push((cid@, seeded(t, now)))
        },
    }
}

/// The clusters after each of `ts` in turn.
pub open spec fn clusters_after(e: Seq<(Seq<char>, ClusterModel)>, ts: Seq<Trade>, now: u64) -> Seq<(Seq<char>, ClusterModel)>
    decreases ts.len(),
{
    if ts.len() == 0 {
        e
    } else {
        cluster_step(clusters_after(e, ts.drop_last(), now), ts.last(), now)
    }
}

/// The volume trackers after one trade at time `now`.
pub open spec fn volume_step(e: Seq<(Seq<char>, VolumeModel)>, t: Trade, now: u64) -> Seq<(Seq<char>, VolumeModel)> {
    match t.condition_id {
        None => e,
        Some(cid) => if has_key(e, cid@) {
            let i = key_index(e, cid@);
            e.update(i, (cid@, fed(e[i].1, t.price_micros * t.size_micros, now)))
        } else {
            e.push((cid@, started(t.price_micros * t.size_micros, now)))
        },
    }
}

/// The volume trackers after each of `ts` in turn.
pub open spec fn volumes_after(e: Seq<(Seq<char>, VolumeModel)>, ts: Seq<Trade>, now: u64) -> Seq<(Seq<char>, VolumeModel)>
    decreases ts.len(),
{
    if ts.len() == 0 {
        e
    } else {
        volume_step(volumes_after(e, ts.drop_last(), now), ts.last(), now)
    }
}

pub open spec fn clusters_wf(v: Seq<MarketCluster>) -> bool {
    &&& forall|i: int| 0 <= i < v.len() ==> #[trigger] v[i].wf()
    &&& distinct_keys(cluster_entries(v))
}

pub open spec fn volumes_wf(v: Seq<VolumeTracker>) -> bool {
    &&& forall|i: int| 0 <= i < v.len() ==> #[trigger] v[i].wf()
    &&& distinct_keys(volume_entries(v))
}

/// The position of the cluster of market `cid`, if it is tracked.
pub fn find_cluster(v: &Vec<MarketCluster>, cid: &String) -> (r: Option<usize>)
    ensures
        match r {
            Some(i) => i < v@.len() && cluster_entries(v@)[i as int].0 == cid@,
            None => !has_key(cluster_entries(v@), cid@),
        },
{
    let mut i: usize = 0;
    while i < v.len()
        invariant
            i <= v@.len(),
            forall|k: int| 0 <= k < i ==> cluster_entries(v@)[k].0 != cid@,
        decreases v@.len() - i,
    {
        if v[i].condition_id == *cid {
            return Some(i);
        }
        i += 1;
    }
    None
}

/// The position of the volume tracker of market `cid`, if it is tracked.
pub fn find_volume(v: &Vec<VolumeTracker>, cid: &String) -> (r: Option<usize>)
    ensures
        match r {
            Some(i) => i < v@.len() && volume_entries(v@)[i as int].0 == cid@,
            None => !has_key(volume_entries(v@), cid@),
        },
{
    let mut i: usize = 0;
    while i < v.len()
        invariant
            i <= v@.len(),
            forall|k: int| 0 <= k < i ==> volume_entries(v@)[k].0 != cid@,
        decreases v@.len() - i,
    {
        if v[i].condition_id == *cid {
            return Some(i);
        }
        i += 1;
    }
    None
}

/// Feeds one trade to the clusters.
pub fn track_cluster(v: &mut Vec<MarketCluster>, t: &Trade, now: u64)
    requires
        clusters_wf(old(v)@),
    ensures
        clusters_wf(final(v)@),
        cluster_entries(final(v)@) == cluster_step(cluster_entries(old(v)@), *t, now),
{
    let ghost e = cluster_entries(old(v)@);
    match &t.condition_id {
        None => {},
        Some(cid) => {
            match find_cluster(v, cid) {
                Some(i) => {
                    let mut c = v.remove(i);
                    c.add_trade(t);
                    v.insert(i, c);
                    proof {
                        assert(has_key(e, cid@));
                        let j = key_index(e, cid@);
                        assert(i == j);
                        assert(final(v)@ =~= old(v)@.update(i as int, c));
                        assert(cluster_entries(final(v)@) =~= e.update(i as int, (cid@, joined(e[i as int].1, *t))));
                        assert forall|k: int| 0 <= k < final(v)@.len() implies #[trigger] final(v)@[k].wf() by {
                            if k != i {
                                assert(final(v)@[k] == old(v)@[k]);
                            }
                        }
                    }
                },
                None => {
                    let c = MarketCluster::new(t, now);
                    v.push(c);
                    proof {
                        assert(cluster_entries(final(v)@) =~= e.push((cid@, seeded(*t, now))));
                        assert forall|k: int| 0 <= k < final(v)@.len() implies #[trigger] final(v)@[k].wf() by {
                            if k < old(v)@.len() {
                                assert(final(v)@[k] == old(v)@[k]);
                            }
                        }
                        assert forall|a: int, b: int|
                            0 <= a < cluster_entries(final(v)@).len() && 0 <= b < cluster_entries(final(v)@).len()
                                && a != b implies #[trigger] cluster_entries(final(v)@)[a].0
                            != #[trigger] cluster_entries(final(v)@)[b].0 by {
                            if a < e.len() && b < e.len() {
                                assert(cluster_entries(final(v)@)[a] == e[a]);
                                assert(cluster_entries(final(v)@)[b] == e[b]);
                            } else if a < e.len() {
                                assert(cluster_entries(final(v)@)[a] == e[a]);
                            } else {
                                assert(cluster_entries(final(v)@)[b] == e[b]);
                            }
                        }
                    }
                },
            }
        },
    }
}

/// Feeds one trade to the volume trackers.
pub fn track_volume(v: &mut Vec<VolumeTracker>, t: &Trade, now: u64)
    requires
        volumes_wf(old(v)@),
    ensures
        volumes_wf(final(v)@),
        volume_entries(final(v)@) == volume_step(volume_entries(old(v)@), *t, now),
{
    let ghost e = volume_entries(old(v)@);
    match &t.condition_id {
        None => {},
        Some(cid) => {
            match find_volume(v, cid) {
                Some(i) => {
                    let mut c = v.remove(i);
                    c.add_trade(t, now);
                    v.insert(i, c);
                    proof {
                        assert(has_key(e, cid@));
                        let j = key_index(e, cid@);
                        assert(i == j);
                        assert(final(v)@ =~= old(v)@.update(i as int, c));
                        assert(volume_entries(final(v)@) =~= e.update(
                            i as int,
                            (cid@, fed(e[i as int].1, t.price_micros * t.size_micros, now)),
                        ));
                        assert forall|k: int| 0 <= k < final(v)@.len() implies #[trigger] final(v)@[k].wf() by {
                            if k != i {
                                assert(final(v)@[k] == old(v)@[k]);
                            }
                        }
                    }
                },
                None => {
                    let c = VolumeTracker::new(t, now);
                    v.push(c);
                    proof {
                        assert(volume_entries(final(v)@) =~= e.push((cid@, started(t.price_micros * t.size_micros, now))));
                        assert forall|k: int| 0 <= k < final(v)@.len() implies #[trigger] final(v)@[k].wf() by {
                            if k < old(v)@.len() {
                                assert(final(v)@[k] == old(v)@[k]);
                            }
                        }
                        assert forall|a: int, b: int|
                            0 <= a < volume_entries(final(v)@).len() && 0 <= b < volume_entries(final(v)@).len()
                                && a != b implies #[trigger] volume_entries(final(v)@)[a].0
                            != #[trigger] volume_entries(final(v)@)[b].0 by {
                            if a < e.len() && b < e.len() {
                                assert(volume_entries(final(v)@)[a] == e[a]);
                                assert(volume_entries(final(v)@)[b] == e[b]);
                            } else if a < e.len() {
                                assert(volume_entries(final(v)@)[a] == e[a]);
                            } else {
                                assert(volume_entries(final(v)@)[b] == e[b]);
                            }
                        }
                    }
                },
            }
        },
    }
}

/// Whether a cluster is still inside the window at time `now`.
pub open spec fn alive(now: u64, window_mins: u64) -> spec_fn((Seq<char>, ClusterModel)) -> bool {
    |e: (Seq<char>, ClusterModel)|
        (if now >= e.1.first_seen {
            (now - e.1.first_seen) / 60
        } else {
            0
        }) < window_mins
}

/// Filtering keeps keys distinct.
proof fn lemma_filter_keeps_distinct<M>(e: Seq<(Seq<char>, M)>, p: spec_fn((Seq<char>, M)) -> bool)
    requires
        distinct_keys(e),
    ensures
        distinct_keys(e.filter(p)),
    decreases e.len(),
{
    if e.len() == 0 {
        reveal(Seq::filter);
    } else {
        let init = e.drop_last();
        let x = e.last();
        assert forall|a: int, b: int| 0 <= a < init.len() && 0 <= b < init.len() && a != b implies
            #[trigger] init[a].0 != #[trigger] init[b].0 by {
            assert(init[a] == e[a] && init[b] == e[b]);
        }
        lemma_filter_keeps_distinct(init, p);
        assert(init.push(x) =~= e);
        init.lemma_filter_push(x, p);
        if p(x) {
            let f = init.filter(p);
            assert forall|a: int| 0 <= a < f.len() implies #[trigger] f[a].0 != x.0 by {
                assert(f.contains(f[a]));
                init.lemma_filter_contains_rev(p, f[a]);
                let idx = choose|idx: int| 0 <= idx < init.len() && init[idx] == f[a];
                assert(e[idx] == f[a]);
                assert(e[e.len() - 1] == x);
            }
            assert forall|a: int, b: int| 0 <= a < f.push(x).len() && 0 <= b < f.push(x).len() && a != b implies
                #[trigger] f.push(x)[a].0 != #[trigger] f.push(x)[b].0 by {
                if a < f.len() && b < f.len() {
                } else if a < f.len() {
                    assert(f.push(x)[b] == x);
                    assert(f.push(x)[a] == f[a]);
                } else {
                    assert(f.push(x)[a] == x);
                    assert(f.push(x)[b] == f[b]);
                }
            }
        }
    }
}

/// Drops the clusters whose age has reached the window.
pub fn expire_clusters(v: &mut Vec<MarketCluster>, now: u64, window_mins: u64)
    requires
        clusters_wf(old(v)@),
    ensures
        clusters_wf(final(v)@),
        cluster_entries(final(v)@) == cluster_entries(old(v)@).filter(alive(now, window_mins)),
{
    let ghost e = cluster_entries(old(v)@);
    let ghost p = alive(now, window_mins);
    let mut kept: Vec<MarketCluster> = Vec::new();
    let mut i: usize = 0;
    while i < v.len()
        invariant
            i <= v@.len(),
            v@ == old(v)@,
            e == cluster_entries(old(v)@),
            p == alive(now, window_mins),
            clusters_wf(old(v)@),
            cluster_entries(kept@) == e.subrange(0, i as int).filter(p),
            forall|k: int| 0 <= k < kept@.len() ==> #[trigger] kept@[k].wf(),
        decreases v@.len() - i,
    {
        let c = &v[i];
        proof {
            assert(e.subrange(0, i as int).push(e[i as int]) =~= e.subrange(0, i + 1));
            e.subrange(0, i as int).lemma_filter_push(e[i as int], p);
        }
        if c.age_minutes(now) < window_mins {
            let ghost before = kept@;
            kept.push(c.clone());
            proof {
                assert(old(v)@[i as int].wf());
                assert(kept@[before.len() as int].wf());
                assert(cluster_entries(kept@) =~= cluster_entries(before).push(e[i as int]));
                assert forall|k: int| 0 <= k < kept@.len() implies #[trigger] kept@[k].wf() by {
                    if k < before.len() {
                        assert(kept@[k] == before[k]);
                    }
                }
            }
        }
        i += 1;
    }
    proof {
        assert(e.subrange(0, i as int) =~= e);
        lemma_filter_keeps_distinct(e, p);
    }
    *v = kept;
}

/// The most markets each tracker follows.
pub const MAX_TRACKED_MARKETS: usize = 500;

/// How many markets leave a tracker at once when it follows too many.
pub const TRACKED_EVICT: usize = 250;

/// Keeps the clusters within [`MAX_TRACKED_MARKETS`]: when there are more, the
/// oldest [`TRACKED_EVICT`] leave.
pub fn limit_clusters(v: &mut Vec<MarketCluster>)
    requires
        clusters_wf(old(v)@),
    ensures
        clusters_wf(final(v)@),
        final(v)@ == if old(v)@.len() > MAX_TRACKED_MARKETS {
            old(v)@.subrange(TRACKED_EVICT as int, old(v)@.len() as int)
        } else {
            old(v)@
        },
{
    if v.len() > MAX_TRACKED_MARKETS {
        let rest = v.split_off(TRACKED_EVICT);
        *v = rest;
        proof {
            let e = cluster_entries(old(v)@);
            assert(cluster_entries(final(v)@) =~= e.subrange(TRACKED_EVICT as int, e.len() as int));
            assert forall|k: int| 0 <= k < final(v)@.len() implies #[trigger] final(v)@[k].wf() by {
                assert(final(v)@[k] == old(v)@[k + TRACKED_EVICT]);
            }
            assert forall|a: int, b: int|
                0 <= a < cluster_entries(final(v)@).len() && 0 <= b < cluster_entries(final(v)@).len() && a != b implies
                #[trigger] cluster_entries(final(v)@)[a].0 != #[trigger] cluster_entries(final(v)@)[b].0 by {
                assert(cluster_entries(final(v)@)[a] == e[a + TRACKED_EVICT]);
                assert(cluster_entries(final(v)@)[b] == e[b + TRACKED_EVICT]);
            }
        }
    }
}

/// Keeps the volume trackers within [`MAX_TRACKED_MARKETS`]: when there are
/// more, the oldest [`TRACKED_EVICT`] leave.
pub fn limit_volumes(v: &mut Vec<VolumeTracker>)
    requires
        volumes_wf(old(v)@),
    ensures
        volumes_wf(final(v)@),
        final(v)@ == if old(v)@.len() > MAX_TRACKED_MARKETS {
            old(v)@.subrange(TRACKED_EVICT as int, old(v)@.len() as int)
        } else {
            old(v)@
        },
{
    if v.len() > MAX_TRACKED_MARKETS {
        let rest = v.split_off(TRACKED_EVICT);
        *v = rest;
        proof {
            let e = volume_entries(old(v)@);
            assert(volume_entries(final(v)@) =~= e.subrange(TRACKED_EVICT as int, e.len() as int));
            assert forall|k: int| 0 <= k < final(v)@.len() implies #[trigger] final(v)@[k].wf() by {
                assert(final(v)@[k] == old(v)@[k + TRACKED_EVICT]);
            }
            assert forall|a: int, b: int|
                0 <= a < volume_entries(final(v)@).len() && 0 <= b < volume_entries(final(v)@).len() && a != b implies
                #[trigger] volume_entries(final(v)@)[a].0 != #[trigger] volume_entries(final(v)@)[b].0 by {
                assert(volume_entries(final(v)@)[a] == e[a + TRACKED_EVICT]);
                assert(volume_entries(final(v)@)[b] == e[b + TRACKED_EVICT]);
            }
        }
    }
}

/// The keys of some entries, in order.
pub open spec fn keys_of<M>(e: Seq<(Seq<char>, M)>) -> Seq<Seq<char>> {
    e.map_values(|p: (Seq<char>, M)| p.0)
}

/// Whether a cluster is due an alert: it has enough actors and its market has
/// not been alerted.
pub open spec fn cluster_due(alerted: Seq<Seq<char>>, min_wallets: usize) -> spec_fn((Seq<char>, ClusterModel)) -> bool {
    |e: (Seq<char>, ClusterModel)| e.1.wallets.len() >= min_wallets && !alerted.contains(e.0)
}

/// Whether a market's volume is due an alert: its hour in progress is a spike
/// and its market has not been alerted.
pub open spec fn spike_due(alerted: Seq<Seq<char>>, multiplier_pct: u64) -> spec_fn((Seq<char>, VolumeModel)) -> bool {
    |e: (Seq<char>, VolumeModel)| spike(e.1.current, mean_of(e.1.history), multiplier_pct as int) && !alerted.contains(e.0)
}

/// A market already alerted is never due again, whatever its entries hold.
pub proof fn lemma_alerted_market_stays_quiet(
    e: Seq<(Seq<char>, ClusterModel)>,
    alerted: Seq<Seq<char>>,
    min_wallets: usize,
    market: Seq<char>,
)
    requires
        alerted.contains(market),
    ensures
        !has_key(e.filter(cluster_due(alerted, min_wallets)), market),
{
    let f = e.filter(cluster_due(alerted, min_wallets));
    if has_key(f, market) {
        let i = choose|i: int| 0 <= i < f.len() && #[trigger] f[i].0 == market;
        e.lemma_filter_pred(cluster_due(alerted, min_wallets), i);
    }
}

/// Adding the keys of distinct entries that are missing from a list of
/// distinct keys keeps them distinct.
proof fn lemma_append_keys_distinct<M>(listed: Seq<Seq<char>>, f: Seq<(Seq<char>, M)>)
    requires
        listed.no_duplicates(),
        distinct_keys(f),
        forall|k: int| 0 <= k < f.len() ==> !listed.contains(#[trigger] f[k].0),
    ensures
        (listed + keys_of(f)).no_duplicates(),
{
    let all = listed + keys_of(f);
    assert forall|a: int, b: int| 0 <= a < all.len() && 0 <= b < all.len() && a != b implies all[a] != all[b] by {
        if a < listed.len() && b < listed.len() {
        } else if a < listed.len() {
            assert(all[b] == f[b - listed.len()].0);
            assert(listed.contains(all[a]));
        } else if b < listed.len() {
            assert(all[a] == f[a - listed.len()].0);
            assert(listed.contains(all[b]));
        } else {
            assert(all[a] == f[a - listed.len()].0);
            assert(all[b] == f[b - listed.len()].0);
        }
    }
}

/// Collects the clusters due an alert, in order, and marks their markets as
/// alerted.
pub fn collect_cluster_alerts(v: &Vec<MarketCluster>, alerted: &mut Vec<String>, min_wallets: usize) -> (r: Vec<MarketCluster>)
    requires
        clusters_wf(v@),
        views(old(alerted)@).no_duplicates(),
    ensures
        forall|k: int| 0 <= k < r@.len() ==> #[trigger] r@[k].wf(),
        cluster_entries(r@) == cluster_entries(v@).filter(cluster_due(views(old(alerted)@), min_wallets)),
        views(final(alerted)@) == views(old(alerted)@) + keys_of(cluster_entries(r@)),
        views(final(alerted)@).no_duplicates(),
{
    let before = clone_strings(alerted);
    let ghost e = cluster_entries(v@);
    let ghost p = cluster_due(views(old(alerted)@), min_wallets);
    let mut due: Vec<MarketCluster> = Vec::new();
    let mut i: usize = 0;
    while i < v.len()
        invariant
            i <= v@.len(),
            clusters_wf(v@),
            before@ == old(alerted)@,
            e == cluster_entries(v@),
            p == cluster_due(views(old(alerted)@), min_wallets),
            cluster_entries(due@) == e.subrange(0, i as int).filter(p),
            forall|k: int| 0 <= k < due@.len() ==> #[trigger] due@[k].wf(),
            views(alerted@) == views(old(alerted)@) + keys_of(cluster_entries(due@)),
        decreases v@.len() - i,
    {
        let c = &v[i];
        proof {
            assert(e.subrange(0, i as int).push(e[i as int]) =~= e.subrange(0, i + 1));
            e.subrange(0, i as int).lemma_filter_push(e[i as int], p);
            assert(v@[i as int].wf());
        }
        if c.wallet_count() >= min_wallets && !list_contains(&before, &c.condition_id) {
            let ghost due_before = due@;
            let ghost alerted_before = alerted@;
            due.push(c.clone());
            alerted.push(c.condition_id.clone());
            proof {
                assert(due@[due_before.len() as int].wf());
                assert(cluster_entries(due@) =~= cluster_entries(due_before).push(e[i as int]));
                assert(views(alerted@) =~= views(alerted_before).push(c.condition_id@));
                assert(views(alerted@) =~= views(old(alerted)@) + keys_of(cluster_entries(due@)));
                assert forall|k: int| 0 <= k < due@.len() implies #[trigger] due@[k].wf() by {
                    if k < due_before.len() {
                        assert(due@[k] == due_before[k]);
                    }
                }
            }
        }
        i += 1;
    }
    proof {
        assert(e.subrange(0, i as int) =~= e);
        lemma_filter_keeps_distinct(e, p);
        assert forall|k: int| 0 <= k < cluster_entries(due@).len() implies !views(old(alerted)@).contains(
            #[trigger] cluster_entries(due@)[k].0,
        ) by {
            e.lemma_filter_pred(p, k);
        }
        lemma_append_keys_distinct(views(old(alerted)@), cluster_entries(due@));
    }
    due
}

/// Collects the markets whose volume is due an alert, in order, and marks them
/// as alerted.
pub fn collect_spike_alerts(v: &Vec<VolumeTracker>, alerted: &mut Vec<String>, multiplier_pct: u64) -> (r: Vec<VolumeTracker>)
    requires
        volumes_wf(v@),
        views(old(alerted)@).no_duplicates(),
    ensures
        forall|k: int| 0 <= k < r@.len() ==> #[trigger] r@[k].wf(),
        volume_entries(r@) == volume_entries(v@).filter(spike_due(views(old(alerted)@), multiplier_pct)),
        views(final(alerted)@) == views(old(alerted)@) + keys_of(volume_entries(r@)),
        views(final(alerted)@).no_duplicates(),
{
    let before = clone_strings(alerted);
    let ghost e = volume_entries(v@);
    let ghost p = spike_due(views(old(alerted)@), multiplier_pct);
    let mut due: Vec<VolumeTracker> = Vec::new();
    let mut i: usize = 0;
    while i < v.len()
        invariant
            i <= v@.len(),
            volumes_wf(v@),
            before@ == old(alerted)@,
            e == volume_entries(v@),
            p == spike_due(views(old(alerted)@), multiplier_pct),
            volume_entries(due@) == e.subrange(0, i as int).filter(p),
            forall|k: int| 0 <= k < due@.len() ==> #[trigger] due@[k].wf(),
            views(alerted@) == views(old(alerted)@) + keys_of(volume_entries(due@)),
        decreases v@.len() - i,
    {
        let c = &v[i];
        proof {
            assert(e.subrange(0, i as int).push(e[i as int]) =~= e.subrange(0, i + 1));
            e.subrange(0, i as int).lemma_filter_push(e[i as int], p);
            assert(v@[i as int].wf());
        }
        if c.is_spike(multiplier_pct) && !list_contains(&before, &c.condition_id) {
            let ghost due_before = due@;
            let ghost alerted_before = alerted@;
            due.push(c.clone());
            alerted.push(c.condition_id.clone());
            proof {
                assert(due@[due_before.len() as int].wf());
                assert(volume_entries(due@) =~= volume_entries(due_before).push(e[i as int]));
                assert(views(alerted@) =~= views(alerted_before).push(c.condition_id@));
                assert(views(alerted@) =~= views(old(alerted)@) + keys_of(volume_entries(due@)));
                assert forall|k: int| 0 <= k < due@.len() implies #[trigger] due@[k].wf() by {
                    if k < due_before.len() {
                        assert(due@[k] == due_before[k]);
                    }
                }
            }
        }
        i += 1;
    }
    proof {
        assert(e.subrange(0, i as int) =~= e);
        lemma_filter_keeps_distinct(e, p);
        assert forall|k: int| 0 <= k < volume_entries(due@).len() implies !views(old(alerted)@).contains(
            #[trigger] volume_entries(due@)[k].0,
        ) by {
            e.lemma_filter_pred(p, k);
        }
        lemma_append_keys_distinct(views(old(alerted)@), volume_entries(due@));
    }
    due
}

/// How long cached statistics stay fresh, in seconds.
pub const USER_CACHE_TTL_SECS: u64 = 60;

/// The most actors whose statistics are cached.
pub const USER_CACHE_CAP: usize = 1000;

/// An actor's statistics and when they were fetched, in seconds.
pub struct CachedStats {
    pub stats: UserStats,
    pub fetched_at: u64,
}

/// The cache's entries by actor address.
pub open spec fn cache_entries(v: Seq<CachedStats>) -> Seq<(Seq<char>, CachedStats)> {
    v.map_values(|c: CachedStats| (c.stats.address@, c))
}

pub open spec fn cache_wf(v: Seq<CachedStats>) -> bool {
    &&& distinct_keys(cache_entries(v))
    &&& v.len() <= USER_CACHE_CAP
}

/// The cached statistics of `address`, if they were fetched less than
/// [`USER_CACHE_TTL_SECS`] before `now`.
pub open spec fn fresh_stats(v: Seq<CachedStats>, address: Seq<char>, now: u64) -> Option<UserStats> {
    let e = cache_entries(v);
    if has_key(e, address) && elapsed(e[key_index(e, address)].1.fetched_at, now) < USER_CACHE_TTL_SECS {
        Some(e[key_index(e, address)].1.stats)
    } else {
        None
    }
}

/// The cache after storing `c`: it replaces the entry of the same actor; a new
/// actor in a full cache first evicts the oldest entry.
pub open spec fn cache_stored(v: Seq<CachedStats>, c: CachedStats) -> Seq<CachedStats> {
    let e = cache_entries(v);
    let k = c.stats.address@;
    if has_key(e, k) {
        v.update(key_index(e, k), c)
    } else if v.len() >= USER_CACHE_CAP {
        v.drop_first().push(c)
    } else {
        v.push(c)
    }
}

/// The fresh cached statistics of an actor.
pub fn lookup_stats(v: &Vec<CachedStats>, address: &String, now: u64) -> (r: Option<UserStats>)
    requires
        cache_wf(v@),
    ensures
        r == fresh_stats(v@, address@, now),
{
    let ghost e = cache_entries(v@);
    let mut i: usize = 0;
    while i < v.len()
        invariant
            i <= v@.len(),
            e == cache_entries(v@),
            cache_wf(v@),
            forall|k: int| 0 <= k < i ==> e[k].0 != address@,
        decreases v@.len() - i,
    {
        assert(e[i as int] == (v@[i as int].stats.address@, v@[i as int]));
        if v[i].stats.address == *address {
            proof {
                assert(e[i as int].0 == address@);
                assert(has_key(e, address@));
                let j = key_index(e, address@);
                assert(i == j);
            }
            let c = &v[i];
            let since = if now >= c.fetched_at {
                now - c.fetched_at
            } else {
                0
            };
            if since < USER_CACHE_TTL_SECS {
                return Some(c.stats.clone());
            } else {
                return None;
            }
        }
        i += 1;
    }
    None
}

/// Stores an actor's statistics, replacing theirs or evicting the oldest
/// entry of a full cache.
pub fn store_stats(v: &mut Vec<CachedStats>, c: CachedStats)
    requires
        cache_wf(old(v)@),
    ensures
        cache_wf(final(v)@),
        final(v)@ == cache_stored(old(v)@, c),
{
    let ghost e = cache_entries(old(v)@);
    let ghost k = c.stats.address@;
    let mut i: usize = 0;
    while i < v.len()
        invariant
            i <= v@.len(),
            v@ == old(v)@,
            e == cache_entries(v@),
            cache_wf(old(v)@),
            k == c.stats.address@,
            forall|j: int| 0 <= j < i ==> e[j].0 != k,
        decreases v@.len() - i,
    {
        assert(e[i as int] == (v@[i as int].stats.address@, v@[i as int]));
        if v[i].stats.address == c.stats.address {
            proof {
                assert(e[i as int].0 == k);
                let j = key_index(e, k);
                assert(i == j);
            }
            v.remove(i);
            v.insert(i, c);
            proof {
                assert(final(v)@ =~= old(v)@.update(i as int, c));
                assert(cache_entries(final(v)@) =~= e.update(i as int, (k, c)));
                let f = cache_entries(final(v)@);
                assert forall|a: int, b: int| 0 <= a < f.len() && 0 <= b < f.len() && a != b implies
                    #[trigger] f[a].0 != #[trigger] f[b].0 by {
                    if a != i && b != i {
                        assert(f[a] == e[a] && f[b] == e[b]);
                    } else if a == i {
                        assert(f[b] == e[b]);
                    } else {
                        assert(f[a] == e[a]);
                    }
                }
            }
            return;
        }
        i += 1;
    }
    proof {
        assert(!has_key(e, k));
    }
    if v.len() >= USER_CACHE_CAP {
        v.remove(0);
    }
    let ghost mid = v@;
    v.push(c);
    proof {
        let f = cache_entries(final(v)@);
        let m = cache_entries(mid);
        assert(f =~= m.push((k, c)));
        assert forall|j: int| 0 <= j < m.len() implies m[j].0 != k by {
            if old(v)@.len() >= USER_CACHE_CAP {
                assert(m[j] == e[j + 1]);
            } else {
                assert(m[j] == e[j]);
            }
        }
        assert forall|a: int, b: int| 0 <= a < f.len() && 0 <= b < f.len() && a != b implies
            #[trigger] f[a].0 != #[trigger] f[b].0 by {
            if old(v)@.len() >= USER_CACHE_CAP {
                if a < m.len() {
                    assert(f[a] == e[a + 1]);
                }
                if b < m.len() {
                    assert(f[b] == e[b + 1]);
                }
            } else {
                if a < m.len() {
                    assert(f[a] == e[a]);
                }
                if b < m.len() {
                    assert(f[b] == e[b]);
                }
            }
        }
    }
}

/// An empty batch brings nothing: no new trade, no survivor at any stage of
/// the pipeline, and trackers that are left as they were; with no tracked
/// markets, no alert is due either.
pub proof fn lemma_empty_batch_is_quiet(
    seen: Seq<Seq<char>>,
    cfg: Config,
    clusters: Seq<(Seq<char>, ClusterModel)>,
    volumes: Seq<(Seq<char>, VolumeModel)>,
    alerted: Seq<Seq<char>>,
    now: u64,
)
    ensures
        Seq::<Trade>::empty().filter(unseen_in(seen)).len() == 0,
        after_category(Seq::<Trade>::empty(), cfg).len() == 0,
        after_size(Seq::<Trade>::empty(), cfg).len() == 0,
        after_aggression(Seq::<Trade>::empty(), cfg).len() == 0,
        after_contrarian(Seq::<Trade>::empty(), cfg).len() == 0,
        clusters_after(clusters, Seq::<Trade>::empty(), now) == clusters,
        volumes_after(volumes, Seq::<Trade>::empty(), now) == volumes,
        clusters.len() == 0 ==> clusters.filter(cluster_due(alerted, cfg.cluster_min_wallets)).len() == 0,
        volumes.len() == 0 ==> volumes.filter(spike_due(alerted, cfg.spike_multiplier_pct)).len() == 0,
{
    let e = Seq::<Trade>::empty();
    e.lemma_filter_len(unseen_in(seen));
    crate::filter::lemma_stage_counts_non_increasing(e, cfg);
    clusters.lemma_filter_len(cluster_due(alerted, cfg.cluster_min_wallets));
    volumes.lemma_filter_len(spike_due(alerted, cfg.spike_multiplier_pct));
}

/// How many recent trades each poll asks for.
pub const TRADES_PER_POLL: usize = 100;

/// Everything the engine remembers between polls.
pub struct TrackerState {
    pub processed_trade_ids: Deduplicator,
    pub user_stats_cache: Vec<CachedStats>,
    pub market_clusters: Vec<MarketCluster>,
    pub volume_trackers: Vec<VolumeTracker>,
    pub alerted_clusters: Vec<String>,
    pub alerted_spikes: Vec<String>,
    pub poll_count: u64,
}

/// What the first step of a poll made of a batch.
pub struct PollBatch {
    /// The trades not processed before, in the batch's order.
    pub new_trades: Vec<Trade>,
    /// What the filter pipeline made of them.
    pub report: FilterReport,
}

/// The alerts that a poll raised.
pub struct PollAlerts {
    pub clusters: Vec<MarketCluster>,
    pub spikes: Vec<VolumeTracker>,
}

impl TrackerState {
    pub open spec fn wf(&self) -> bool {
        &&& self.processed_trade_ids.wf()
        &&& cache_wf(self.user_stats_cache@)
        &&& clusters_wf(self.market_clusters@)
        &&& volumes_wf(self.volume_trackers@)
        &&& views(self.alerted_clusters@).no_duplicates()
        &&& views(self.alerted_spikes@).no_duplicates()
    }

    /// A state with nothing processed, cached, tracked or alerted.
    pub fn new() -> (r: Self)
        ensures
            r.wf(),
            r.processed_trade_ids.keys() == Seq::<Seq<char>>::empty(),
            r.user_stats_cache@ == Seq::<CachedStats>::empty(),
            r.market_clusters@ == Seq::<MarketCluster>::empty(),
            r.volume_trackers@ == Seq::<VolumeTracker>::empty(),
            r.alerted_clusters@ == Seq::<String>::empty(),
            r.alerted_spikes@ == Seq::<String>::empty(),
            r.poll_count == 0,
    {
        let r = TrackerState {
            processed_trade_ids: Deduplicator::new(),
            user_stats_cache: Vec::new(),
            market_clusters: Vec::new(),
            volume_trackers: Vec::new(),
            alerted_clusters: Vec::new(),
            alerted_spikes: Vec::new(),
            poll_count: 0,
        };
        assert(views(r.alerted_clusters@) =~= Seq::<Seq<char>>::empty());
        assert(views(r.alerted_spikes@) =~= Seq::<Seq<char>>::empty());
        r
    }

    /// The first step of a poll, on the batch fetched at time `now`: counts
    /// the poll, keeps the trades not processed before and marks them, drops
    /// expired clusters, feeds every new trade to the cluster and volume
    /// trackers, and runs the filter pipeline over the new trades.
    pub fn begin_poll(&mut self, trades: &Vec<Trade>, now: u64, cfg: &Config) -> (r: PollBatch)
        requires
            old(self).wf(),
        ensures
            final(self).wf(),
            final(self).poll_count == if old(self).poll_count < u64::MAX {
                old(self).poll_count + 1
            } else {
                old(self).poll_count as int
            },
            r.new_trades@ == trades@.filter(unseen_in(old(self).processed_trade_ids.keys())),
            final(self).processed_trade_ids.keys() == marked_all(
                old(self).processed_trade_ids.keys(),
                trades@.map_values(|t: Trade| key_of(t)),
            ),
            cluster_entries(final(self).market_clusters@) == clusters_after(
                cluster_entries(old(self).market_clusters@).filter(alive(now, cfg.cluster_window_mins)),
                r.new_trades@,
                now,
            ),
            volume_entries(final(self).volume_trackers@) == volumes_after(
                volume_entries(old(self).volume_trackers@),
                r.new_trades@,
                now,
            ),
            r.report.after_category == after_category(r.new_trades@, *cfg).len(),
            r.report.after_size == after_size(r.new_trades@, *cfg).len(),
            r.report.after_aggression == after_aggression(r.new_trades@, *cfg).len(),
            r.report.after_contrarian == after_contrarian(r.new_trades@, *cfg).len(),
            r.report.survivors@ == after_contrarian(r.new_trades@, *cfg),
            final(self).user_stats_cache@ == old(self).user_stats_cache@,
            final(self).alerted_clusters@ == old(self).alerted_clusters@,
            final(self).alerted_spikes@ == old(self).alerted_spikes@,
    {
        if self.poll_count < u64::MAX {
            self.poll_count = self.poll_count + 1;
        }
        let fresh = self.processed_trade_ids.filter_new(trades);
        expire_clusters(&mut self.market_clusters, now, cfg.cluster_window_mins);
        let ghost c0 = cluster_entries(self.market_clusters@);
        let ghost s1 = *self;
        let mut i: usize = 0;
        while i < fresh.len()
            invariant
                i <= fresh@.len(),
                self.processed_trade_ids == s1.processed_trade_ids,
                self.user_stats_cache == s1.user_stats_cache,
                self.volume_trackers == s1.volume_trackers,
                self.alerted_clusters == s1.alerted_clusters,
                self.alerted_spikes == s1.alerted_spikes,
                self.poll_count == s1.poll_count,
                clusters_wf(self.market_clusters@),
                cluster_entries(self.market_clusters@) == clusters_after(c0, fresh@.subrange(0, i as int), now),
            decreases fresh@.len() - i,
        {
            proof {
                assert(fresh@.subrange(0, i + 1).drop_last() =~= fresh@.subrange(0, i as int));
            }
            track_cluster(&mut self.market_clusters, &fresh[i], now);
            i += 1;
        }
        let ghost v0 = volume_entries(self.volume_trackers@);
        let ghost s2 = *self;
        let mut j: usize = 0;
        while j < fresh.len()
            invariant
                j <= fresh@.len(),
                self.processed_trade_ids == s2.processed_trade_ids,
                self.user_stats_cache == s2.user_stats_cache,
                self.market_clusters == s2.market_clusters,
                self.alerted_clusters == s2.alerted_clusters,
                self.alerted_spikes == s2.alerted_spikes,
                self.poll_count == s2.poll_count,
                volumes_wf(self.volume_trackers@),
                volume_entries(self.volume_trackers@) == volumes_after(v0, fresh@.subrange(0, j as int), now),
            decreases fresh@.len() - j,
        {
            proof {
                assert(fresh@.subrange(0, j + 1).drop_last() =~= fresh@.subrange(0, j as int));
            }
            track_volume(&mut self.volume_trackers, &fresh[j], now);
            j += 1;
        }
        proof {
            assert(fresh@.subrange(0, i as int) =~= fresh@);
            assert(fresh@.subrange(0, j as int) =~= fresh@);
        }
        let report = run_filters(&fresh, cfg);
        PollBatch { new_trades: fresh, report }
    }

    /// Whether analysing a trade by `address` at time `now` needs the actor's
    /// activity: their cached statistics are missing or stale.
    pub fn needs_activity(&self, address: &String, now: u64) -> (r: bool)
        requires
            self.wf(),
        ensures
            r == (fresh_stats(self.user_stats_cache@, address@, now) is None),
    {
        lookup_stats(&self.user_stats_cache, address, now).is_none()
    }

    /// Analyses a filtered trade at time `now`. Fresh cached statistics of its
    /// actor are used as they are; otherwise `fetched` holds the actor's
    /// activity records, or `None` when fetching them failed, and then the
    /// trade is skipped. Statistics derived from the records are cached.
    pub fn analyze_trade(&mut self, trade: Trade, fetched: Option<Vec<UserActivity>>, now: u64, cfg: &Config) -> (r: Option<SuspectTrade>)
        requires
            old(self).wf(),
        ensures
            final(self).wf(),
            final(self).processed_trade_ids == old(self).processed_trade_ids,
            final(self).market_clusters == old(self).market_clusters,
            final(self).volume_trackers == old(self).volume_trackers,
            final(self).alerted_clusters == old(self).alerted_clusters,
            final(self).alerted_spikes == old(self).alerted_spikes,
            final(self).poll_count == old(self).poll_count,
            match fresh_stats(old(self).user_stats_cache@, trade.proxy_wallet@, now) {
                Some(s) => judged(r, trade, s, cfg.max_unique_markets)
                    && final(self).user_stats_cache@ == old(self).user_stats_cache@,
                None => match fetched {
                    None => r is None && final(self).user_stats_cache@ == old(self).user_stats_cache@,
                    Some(acts) => exists|s: UserStats|
                        derived(s, trade.proxy_wallet@, acts@) && judged(r, trade, s, cfg.max_unique_markets)
                            && final(self).user_stats_cache@ == cache_stored(
                            old(self).user_stats_cache@,
                            CachedStats { stats: s, fetched_at: now },
                        ),
                },
            },
    {
        let stats = match lookup_stats(&self.user_stats_cache, &trade.proxy_wallet, now) {
            Some(s) => s,
            None => match fetched {
                None => {
                    return None;
                },
                Some(acts) => {
                    let s = ApiClient::calculate_user_stats(trade.proxy_wallet.as_str(), acts.as_slice());
                    store_stats(&mut self.user_stats_cache, CachedStats { stats: s.clone(), fetched_at: now });
                    s
                },
            },
        };
        classify(trade, stats, cfg.max_unique_markets)
    }

    /// The last step of a poll: raises an alert for each cluster with enough
    /// actors and each volume spike whose market was not alerted before, marks
    /// those markets, and bounds the trackers.
    pub fn finish_poll(&mut self, cfg: &Config) -> (r: PollAlerts)
        requires
            old(self).wf(),
        ensures
            final(self).wf(),
            cluster_entries(r.clusters@) == cluster_entries(old(self).market_clusters@).filter(
                cluster_due(views(old(self).alerted_clusters@), cfg.cluster_min_wallets),
            ),
            volume_entries(r.spikes@) == volume_entries(old(self).volume_trackers@).filter(
                spike_due(views(old(self).alerted_spikes@), cfg.spike_multiplier_pct),
            ),
            views(final(self).alerted_clusters@) == views(old(self).alerted_clusters@) + keys_of(
                cluster_entries(r.clusters@),
            ),
            views(final(self).alerted_spikes@) == views(old(self).alerted_spikes@) + keys_of(
                volume_entries(r.spikes@),
            ),
            final(self).market_clusters@ == if old(self).market_clusters@.len() > MAX_TRACKED_MARKETS {
                old(self).market_clusters@.subrange(TRACKED_EVICT as int, old(self).market_clusters@.len() as int)
            } else {
                old(self).market_clusters@
            },
            final(self).volume_trackers@ == if old(self).volume_trackers@.len() > MAX_TRACKED_MARKETS {
                old(self).volume_trackers@.subrange(TRACKED_EVICT as int, old(self).volume_trackers@.len() as int)
            } else {
                old(self).volume_trackers@
            },
            final(self).processed_trade_ids == old(self).processed_trade_ids,
            final(self).user_stats_cache == old(self).user_stats_cache,
            final(self).poll_count == old(self).poll_count,
    {
        let clusters = collect_cluster_alerts(&self.market_clusters, &mut self.alerted_clusters, cfg.cluster_min_wallets);
        let spikes = collect_spike_alerts(&self.volume_trackers, &mut self.alerted_spikes, cfg.spike_multiplier_pct);
        limit_clusters(&mut self.market_clusters);
        limit_volumes(&mut self.volume_trackers);
        PollAlerts { clusters, spikes }
    }
}

/// The counts that a poll reports.
#[derive(Clone, Copy, Debug, PartialEq, Eq, Structural)]
pub struct PollSummary {
    pub poll_count: u64,
    pub new_count: usize,
    pub contrarian_count: usize,
    pub suspects: usize,
    pub clusters: usize,
    pub spikes: usize,
}

/// The one line that a poll prints.
pub open spec fn summary_text(s: PollSummary) -> Seq<char> {
    "[POLL #"@ + decimal(s.poll_count as nat) + "] New: "@ + decimal(s.new_count as nat) + " | Contrarian: "@
        + decimal(s.contrarian_count as nat) + " | Suspects: "@ + decimal(s.suspects as nat) + " | Clusters: "@
        + decimal(s.clusters as nat) + " | Spikes: "@ + decimal(s.spikes as nat)
}

impl PollSummary {
    /// The one line that a poll prints.
    pub fn summary_line(&self) -> (r: String)
        ensures
            r@ == summary_text(*self),
    {
        proof {
            reveal_strlit("[POLL #");
            reveal_strlit("] New: ");
            reveal_strlit(" | Contrarian: ");
            reveal_strlit(" | Suspects: ");
            reveal_strlit(" | Clusters: ");
            reveal_strlit(" | Spikes: ");
        }
        let mut r = String::from_str("[POLL #");
        r.append(decimal_string(self.poll_count as u128).as_str());
        r.append("] New: ");
        r.append(decimal_string(self.new_count as u128).as_str());
        r.append(" | Contrarian: ");
        r.append(decimal_string(self.contrarian_count as u128).as_str());
        r.append(" | Suspects: ");
        r.append(decimal_string(self.suspects as u128).as_str());
        r.append(" | Clusters: ");
        r.append(decimal_string(self.clusters as u128).as_str());
        r.append(" | Spikes: ");
        r.append(decimal_string(self.spikes as u128).as_str());
        assert(r@ =~= summary_text(*self));
        r
    }
}

} // verus!
