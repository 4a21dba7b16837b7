use vstd::prelude::*;

use crate::trade::{add_capped, capped_sum, market_url_of, text_or, text_or_else, Trade, MAX_VOLUME, USD};

verus! {

/// Completed hours kept per market.
pub const HOURS_KEPT: usize = 24;

/// Seconds in an hour.
pub const HOUR_SECS: u64 = 3600;

/// Hourly volume on one market: up to [`HOURS_KEPT`] completed hours and the
/// hour in progress.
pub struct VolumeTracker {
    pub condition_id: String,
    pub market_title: String,
    pub market_url: String,
    /// Completed hourly totals, oldest first.
    pub hourly_volumes: Vec<u128>,
    /// The total of the hour in progress, held at [`MAX_VOLUME`].
    pub current_hour_volume: u128,
    /// When the hour in progress started, in seconds.
    pub current_hour_start: u64,
}

/// What the spike logic reads of a [`VolumeTracker`].
pub struct VolumeModel {
    pub history: Seq<u128>,
    pub current: int,
    pub hour_start: u64,
}

/// Seconds from `start` to `now`; zero if `now` is earlier.
pub open spec fn elapsed(start: u64, now: u64) -> int {
    if now >= start {
        now - start
    } else {
        0
    }
}

/// The history after one more completed hour: the oldest leaves when more
/// than [`HOURS_KEPT`] would stand.
pub open spec fn pushed_hour(history: Seq<u128>, total: u128) -> Seq<u128> {
    let h = history.push(total);
    if h.len() > HOURS_KEPT {
        h.drop_first()
    } else {
        h
    }
}

/// The tracker after a trade of `value` at time `now`: when an hour or more
/// has passed since the hour in progress started, that hour is completed and a
/// new one starts at `now`.
pub open spec fn fed(v: VolumeModel, value: int, now: u64) -> VolumeModel {
    if elapsed(v.hour_start, now) >= HOUR_SECS {
        VolumeModel {
            history: pushed_hour(v.history, v.current as u128),
            current: capped_sum(0, value),
            hour_start: now,
        }
    } else {
        VolumeModel { history: v.history, current: capped_sum(v.current, value), hour_start: v.hour_start }
    }
}

/// A tracker started at time `now` by a trade of `value`.
pub open spec fn started(value: int, now: u64) -> VolumeModel {
    VolumeModel { history: Seq::empty(), current: capped_sum(0, value), hour_start: now }
}

/// The tracker after trades of `values[i]` at times `times[i]`, in order.
pub open spec fn fed_all(v: VolumeModel, values: Seq<int>, times: Seq<u64>) -> VolumeModel
    decreases values.len(),
{
    if values.len() == 0 || times.len() != values.len() {
        v
    } else {
        fed(fed_all(v, values.drop_last(), times.drop_last()), values.last(), times.last())
    }
}

/// Trades that all come less than an hour after the hour in progress started
/// never complete it: the history and the hour's start stay as they were.
pub proof fn lemma_no_roll_within_hour(v: VolumeModel, values: Seq<int>, times: Seq<u64>)
    requires
        values.len() == times.len(),
        forall|i: int| 0 <= i < times.len() ==> elapsed(v.hour_start, #[trigger] times[i]) < HOUR_SECS,
    ensures
        fed_all(v, values, times).history == v.history,
        fed_all(v, values, times).hour_start == v.hour_start,
    decreases values.len(),
{
    if values.len() > 0 {
        let t = times.drop_last();
        assert forall|i: int| 0 <= i < t.len() implies elapsed(v.hour_start, #[trigger] t[i]) < HOUR_SECS by {
            assert(t[i] == times[i]);
        }
        lemma_no_roll_within_hour(v, values.drop_last(), t);
        assert(elapsed(v.hour_start, times[times.len() - 1]) < HOUR_SECS);
    }
}

/// A tracker started by one trade and fed a second trade an hour or more later
/// has exactly one completed hour, holding the first trade's value.
pub proof fn lemma_one_hour_rolls_once(first: int, start: u64, second: int, now: u64)
    requires
        0 <= first <= MAX_VOLUME,
        now >= start + HOUR_SECS,
    ensures
        fed(started(first, start), second, now).history == seq![first as u128],
        fed(started(first, start), second, now).history.len() == 1,
{
    assert(pushed_hour(Seq::<u128>::empty(), first as u128) =~= seq![first as u128]);
}

/// The sum of a sequence of volumes.
pub open spec fn sum_of(s: Seq<u128>) -> int
    decreases s.len(),
{
    if s.len() == 0 {
        0
    } else {
        sum_of(s.drop_last()) + s.last()
    }
}

/// The mean of the completed hours, rounded down; zero when there are none.
pub open spec fn mean_of(s: Seq<u128>) -> int {
    if s.len() == 0 {
        0
    } else {
        sum_of(s) / (s.len() as int)
    }
}

/// Whether the hour in progress is a spike: the mean is at least 100 dollars
/// and the current hour exceeds it times `multiplier_pct / 100`.
pub open spec fn spike(current: int, mean: int, multiplier_pct: int) -> bool {
    mean >= 100 * USD && current * 100 > mean * multiplier_pct
}

proof fn lemma_sum_bound(s: Seq<u128>, i: int)
    requires
        0 <= i <= s.len(),
        forall|j: int| 0 <= j < s.len() ==> s[j] <= MAX_VOLUME,
    ensures
        0 <= sum_of(s.subrange(0, i)) <= i * MAX_VOLUME,
    decreases i,
{
    if i > 0 {
        lemma_sum_bound(s, i - 1);
        assert(s.subrange(0, i).drop_last() =~= s.subrange(0, i - 1));
    }
}

impl Clone for VolumeTracker {
    fn clone(&self) -> (r: Self)
        ensures
            r.same_as(*self),
    {
        let mut hours: Vec<u128> = Vec::new();
        let mut i: usize = 0;
        while i < self.hourly_volumes.len()
            invariant
                i <= self.hourly_volumes@.len(),
                hours@ == self.hourly_volumes@.subrange(0, i as int),
            decreases self.hourly_volumes@.len() - i,
        {
            hours.push(self.hourly_volumes[i]);
            i += 1;
            assert(hours@ =~= self.hourly_volumes@.subrange(0, i as int));
        }
        assert(hours@ =~= self.hourly_volumes@);
        VolumeTracker {
            condition_id: self.condition_id.clone(),
            market_title: self.market_title.clone(),
            market_url: self.market_url.clone(),
            hourly_volumes: hours,
            current_hour_volume: self.current_hour_volume,
            current_hour_start: self.current_hour_start,
        }
    }
}

impl VolumeTracker {
    /// Field by field equality, lists by their contents.
    pub open spec fn same_as(&self, o: VolumeTracker) -> bool {
        &&& self.condition_id == o.condition_id
        &&& self.market_title == o.market_title
        &&& self.market_url == o.market_url
        &&& self.hourly_volumes@ == o.hourly_volumes@
        &&& self.current_hour_volume == o.current_hour_volume
        &&& self.current_hour_start == o.current_hour_start
    }

    pub open spec fn wf(&self) -> bool {
        &&& self.hourly_volumes@.len() <= HOURS_KEPT
        &&& forall|j: int| 0 <= j < self.hourly_volumes@.len() ==> self.hourly_volumes@[j] <= MAX_VOLUME
        &&& self.current_hour_volume <= MAX_VOLUME
    }

    pub open spec fn model(&self) -> VolumeModel {
        VolumeModel {
            history: self.hourly_volumes@,
            current: self.current_hour_volume as int,
            hour_start: self.current_hour_start,
        }
    }

    /// Starts tracking a market at time `now` with its first trade.
    pub fn new(trade: &Trade, now: u64) -> (r: Self)
        ensures
            r.wf(),
            r.model() == started(trade.price_micros * trade.size_micros, now),
            r.condition_id@ == text_or(trade.condition_id, Seq::empty()),
            r.market_title@ == text_or(trade.title, "Unknown"@),
            r.market_url@ == market_url_of(trade.event_slug, trade.slug),
    {
        proof {
            reveal_strlit("");
        }
        VolumeTracker {
            condition_id: text_or_else(&trade.condition_id, ""),
            market_title: text_or_else(&trade.title, "Unknown"),
            market_url: trade.market_url(),
            hourly_volumes: Vec::new(),
            current_hour_volume: add_capped(0, trade.value_usd()),
            current_hour_start: now,
        }
    }

    /// Adds a trade seen at time `now`, first completing the hour in progress
    /// when an hour or more has passed since it started.
    pub fn add_trade(&mut self, trade: &Trade, now: u64)
        requires
            old(self).wf(),
        ensures
            final(self).wf(),
            final(self).model() == fed(old(self).model(), trade.price_micros * trade.size_micros, now),
            final(self).condition_id == old(self).condition_id,
            final(self).market_title == old(self).market_title,
            final(self).market_url == old(self).market_url,
    {
        let since = if now >= self.current_hour_start {
            now - self.current_hour_start
        } else {
            0
        };
        if since >= HOUR_SECS {
            self.hourly_volumes.push(self.current_hour_volume);
            if self.hourly_volumes.len() > HOURS_KEPT {
                self.hourly_volumes.remove(0);
            }
            self.current_hour_volume = 0;
            self.current_hour_start = now;
        }
        self.current_hour_volume = add_capped(self.current_hour_volume, trade.value_usd());
        proof {
            assert(self.hourly_volumes@ =~= fed(old(self).model(), trade.price_micros * trade.size_micros, now).history);
        }
    }

    /// The mean volume of the completed hours, rounded down; zero when none
    /// has completed. The hour in progress is not counted.
    pub fn avg_hourly_volume(&self) -> (r: u128)
        requires
            self.wf(),
        ensures
            r == mean_of(self.model().history),
            r <= MAX_VOLUME,
    {
        let n = self.hourly_volumes.len();
        if n == 0 {
            return 0;
        }
        let mut total: u128 = 0;
        let mut i: usize = 0;
        while i < n
            invariant
                self.wf(),
                n == self.hourly_volumes@.len(),
                i <= n,
                total == sum_of(self.hourly_volumes@.subrange(0, i as int)),
            decreases n - i,
        {
            proof {
                lemma_sum_bound(self.hourly_volumes@, i as int);
                assert(self.hourly_volumes@.subrange(0, i + 1).drop_last()
                    =~= self.hourly_volumes@.subrange(0, i as int));
            }
            total = total + self.hourly_volumes[i];
            i += 1;
        }
        proof {
            assert(self.hourly_volumes@.subrange(0, n as int) =~= self.hourly_volumes@);
            lemma_sum_bound(self.hourly_volumes@, n as int);
            assert((total as int) / (n as int) <= MAX_VOLUME) by (nonlinear_arith)
                requires
                    total <= n * MAX_VOLUME,
                    n > 0,
            ;
        }
        total / (n as u128)
    }

    /// Whether the hour in progress is a volume spike for a multiplier of
    /// `multiplier_pct / 100`. Never so while the mean of the completed hours
    /// is under 100 dollars.
    pub fn is_spike(&self, multiplier_pct: u64) -> (r: bool)
        requires
            self.wf(),
        ensures
            r == spike(self.current_hour_volume as int, mean_of(self.model().history), multiplier_pct as int),
            mean_of(self.model().history) < 100 * USD ==> !r,
    {
        let avg = self.avg_hourly_volume();
        if avg < 100 * USD {
            return false;
        }
        let current = self.current_hour_volume * 100;
        match avg.checked_mul(multiplier_pct as u128) {
            Some(threshold) => current > threshold,
            None => false,
        }
    }

    /// The current hour's volume as a percentage of the mean of the completed
    /// hours, rounded down; zero while the mean is under one dollar.
    pub fn spike_ratio(&self) -> (r: u128)
        requires
            self.wf(),
        ensures
            r == (if mean_of(self.model().history) < USD {
                0
            } else {
                self.current_hour_volume * 100 / mean_of(self.model().history)
            }),
    {
        let avg = self.avg_hourly_volume();
        if avg < USD {
            return 0;
        }
        self.current_hour_volume * 100 / avg
    }
}

} // verus!
