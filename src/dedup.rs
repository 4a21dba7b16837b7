use vstd::prelude::*;

use crate::text::{list_contains, views};
use crate::trade::{trade_key, Trade};

verus! {

/// The most keys a [`Deduplicator`] holds.
pub const DEDUP_CAP: usize = 10_000;

/// How many keys leave at once when the cap is exceeded.
pub const DEDUP_EVICT: usize = 5_000;

/// The keys of events already processed, bounded by [`DEDUP_CAP`]: when one
/// more key would exceed it, the oldest [`DEDUP_EVICT`] keys are dropped.
pub struct Deduplicator {
    ids: Vec<String>,
}

/// The keys after marking `id`: it is added unless already present, and when
/// that makes more than [`DEDUP_CAP`], the oldest [`DEDUP_EVICT`] leave.
pub open spec fn marked(ids: Seq<Seq<char>>, id: Seq<char>) -> Seq<Seq<char>> {
    if ids.contains(id) {
        ids
    } else if ids.len() + 1 > DEDUP_CAP {
        ids.push(id).subrange(DEDUP_EVICT as int, ids.len() + 1 as int)
    } else {
        ids.push(id)
    }
}

/// The keys after marking each of `more` in turn.
pub open spec fn marked_all(ids: Seq<Seq<char>>, more: Seq<Seq<char>>) -> Seq<Seq<char>>
    decreases more.len(),
{
    if more.len() == 0 {
        ids
    } else {
        marked(marked_all(ids, more.drop_last()), more.last())
    }
}

/// The key of a trade as a character sequence.
pub open spec fn key_of(t: Trade) -> Seq<char> {
    trade_key(t.proxy_wallet@, t.timestamp, t.size_micros)
}

/// Whether a trade's key is missing from `keys`.
pub open spec fn unseen_in(keys: Seq<Seq<char>>) -> spec_fn(Trade) -> bool {
    |t: Trade| !keys.contains(key_of(t))
}

/// The cap is enforced only past [`DEDUP_CAP`] keys: while marking leaves at
/// most that many, every key already held stays, and the marked key joins them.
pub proof fn lemma_no_eviction_within_cap(ids: Seq<Seq<char>>, id: Seq<char>, kept: Seq<char>)
    requires
        ids.len() + 1 <= DEDUP_CAP,
        ids.contains(kept),
    ensures
        marked(ids, id).contains(kept),
        marked(ids, id).contains(id),
{
    if !ids.contains(id) {
        let k = choose|k: int| 0 <= k < ids.len() && ids[k] == kept;
        assert(ids.push(id)[k] == kept);
        assert(ids.push(id)[ids.len() as int] == id);
    }
}

/// Once marked, a key stays seen through later marks for as long as the
/// total stays within [`DEDUP_CAP`]: only a bulk eviction can remove it.
pub proof fn lemma_seen_until_evicted(ids: Seq<Seq<char>>, id: Seq<char>, more: Seq<Seq<char>>)
    requires
        ids.len() + 1 + more.len() <= DEDUP_CAP,
    ensures
        marked_all(marked(ids, id), more).contains(id),
        marked_all(marked(ids, id), more).len() <= ids.len() + 1 + more.len(),
    decreases more.len(),
{
    if more.len() == 0 {
        if !ids.contains(id) {
            assert(ids.push(id)[ids.len() as int] == id);
        }
    } else {
        lemma_seen_until_evicted(ids, id, more.drop_last());
        let before = marked_all(marked(ids, id), more.drop_last());
        if !before.contains(more.last()) {
            let k = choose|k: int| 0 <= k < before.len() && before[k] == id;
            assert(before.push(more.last())[k] == id);
        }
    }
}

impl Deduplicator {
    pub closed spec fn wf(&self) -> bool {
        &&& views(self.ids@).no_duplicates()
        &&& self.ids@.len() <= DEDUP_CAP
    }

    /// The keys held, oldest first.
    pub closed spec fn keys(&self) -> Seq<Seq<char>> {
        views(self.ids@)
    }

    /// An empty deduplicator.
    pub fn new() -> (r: Self)
        ensures
            r.wf(),
            r.keys() == Seq::<Seq<char>>::empty(),
    {
        let r = Deduplicator { ids: Vec::new() };
        assert(r.keys() =~= Seq::<Seq<char>>::empty());
        r
    }

    /// The number of keys held.
    pub fn len(&self) -> (r: usize)
        ensures
            r == self.keys().len(),
    {
        self.ids.len()
    }

    /// Whether `id` has been marked and not evicted since.
    pub fn seen(&self, id: &String) -> (r: bool)
        ensures
            r == self.keys().contains(id@),
    {
        list_contains(&self.ids, id)
    }

    /// Marks `id` as seen, evicting the oldest half of the keys when the cap
    /// would be exceeded.
    pub fn mark_seen(&mut self, id: &String)
        requires
            old(self).wf(),
        ensures
            final(self).wf(),
            final(self).keys() == marked(old(self).keys(), id@),
            final(self).keys().contains(id@),
    {
        if list_contains(&self.ids, id) {
            return;
        }
        let ghost before = self.keys();
        self.ids.push(id.clone());
        assert(self.keys() =~= before.push(id@));
        proof {
            assert(self.keys()[before.len() as int] == id@);
        }
        if self.ids.len() > DEDUP_CAP {
            let kept = self.ids.split_off(DEDUP_EVICT);
            self.ids = kept;
            assert(self.keys() =~= before.push(id@).subrange(DEDUP_EVICT as int, before.len() + 1 as int));
            assert(self.keys()[self.keys().len() - 1] == id@);
        }
    }

    /// Keeps the trades whose keys were not seen before this batch, in order,
    /// then marks the keys of all of them.
    pub fn filter_new(&mut self, trades: &Vec<Trade>) -> (r: Vec<Trade>)
        requires
            old(self).wf(),
        ensures
            final(self).wf(),
            r@ == trades@.filter(unseen_in(old(self).keys())),
            final(self).keys() == marked_all(old(self).keys(), trades@.map_values(|t: Trade| key_of(t))),
    {
        let ghost start = self.keys();
        let mut fresh: Vec<Trade> = Vec::new();
        let mut i: usize = 0;
        while i < trades.len()
            invariant
                i <= trades@.len(),
                self.keys() == start,
                fresh@ == trades@.subrange(0, i as int).filter(unseen_in(start)),
            decreases trades@.len() - i,
        {
            let t = &trades[i];
            let id = t.unique_id();
            let is_new = list_contains(&self.ids, &id);
            proof {
                assert(trades@.subrange(0, i as int).push(*t) =~= trades@.subrange(0, i + 1));
                trades@.subrange(0, i as int).lemma_filter_push(*t, unseen_in(start));
            }
            assert(unseen_in(start)(*t) == !is_new);
            if !is_new {
                let c = t.clone();
                assert(c == *t);
                fresh.push(c);
            }
            i += 1;
        }
        let ghost keys = trades@.map_values(|t: Trade| key_of(t));
        let mut j: usize = 0;
        while j < trades.len()
            invariant
                j <= trades@.len(),
                self.wf(),
                keys == trades@.map_values(|t: Trade| key_of(t)),
                self.keys() == marked_all(start, keys.subrange(0, j as int)),
            decreases trades@.len() - j,
        {
            let id = trades[j].unique_id();
            proof {
                assert(keys.subrange(0, j + 1).drop_last() =~= keys.subrange(0, j as int));
            }
            self.mark_seen(&id);
            j += 1;
        }
        proof {
            assert(trades@.subrange(0, i as int) =~= trades@);
            assert(keys.subrange(0, j as int) =~= keys);
        }
        fresh
    }
}

} // verus!
