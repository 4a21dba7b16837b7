use vstd::prelude::*;

use crate::config::{is_gambling_market, lower_of, names_gambling, Config};
use crate::trade::{upper_of, Trade};

verus! {

/// The stages of the filter pipeline, in the order in which they run.
#[derive(Clone, Copy, Debug, PartialEq, Eq, Structural)]
pub enum Stage {
    /// Drops trades on short-duration or derivative-style markets.
    Category,
    /// Keeps trades worth at least the minimum size.
    Size,
    /// Keeps aggressive buys.
    Aggression,
    /// Keeps trades priced under the contrarian bound.
    Contrarian,
}

/// Whether a trade passes a stage.
pub open spec fn passes(stage: Stage, cfg: Config, t: Trade) -> bool {
    match stage {
        Stage::Category => !(t.title matches Some(title) && names_gambling(lower_of(title@))),
        Stage::Size => t.price_micros * t.size_micros >= cfg.min_trade_size,
        Stage::Aggression => upper_of(t.side@) == "BUY"@,
        Stage::Contrarian => t.price_micros < cfg.max_price_micros,
    }
}

/// A stage as a predicate on trades.
pub open spec fn stage_pred(stage: Stage, cfg: Config) -> spec_fn(Trade) -> bool {
    |t: Trade| passes(stage, cfg, t)
}

/// The trades left after each stage in turn.
pub open spec fn after_category(s: Seq<Trade>, cfg: Config) -> Seq<Trade> {
    s.filter(stage_pred(Stage::Category, cfg))
}

pub open spec fn after_size(s: Seq<Trade>, cfg: Config) -> Seq<Trade> {
    after_category(s, cfg).filter(stage_pred(Stage::Size, cfg))
}

pub open spec fn after_aggression(s: Seq<Trade>, cfg: Config) -> Seq<Trade> {
    after_size(s, cfg).filter(stage_pred(Stage::Aggression, cfg))
}

pub open spec fn after_contrarian(s: Seq<Trade>, cfg: Config) -> Seq<Trade> {
    after_aggression(s, cfg).filter(stage_pred(Stage::Contrarian, cfg))
}

/// Whether a trade passes every stage.
pub open spec fn passes_all(cfg: Config) -> spec_fn(Trade) -> bool {
    |t: Trade|
        passes(Stage::Category, cfg, t) && passes(Stage::Size, cfg, t) && passes(Stage::Aggression, cfg, t)
            && passes(Stage::Contrarian, cfg, t)
}

proof fn lemma_filter_fuse(s: Seq<Trade>, p: spec_fn(Trade) -> bool, q: spec_fn(Trade) -> bool)
    ensures
        s.filter(p).filter(q) == s.filter(|t: Trade| p(t) && q(t)),
    decreases s.len(),
{
    let pq = |t: Trade| p(t) && q(t);
    if s.len() > 0 {
        let init = s.drop_last();
        lemma_filter_fuse(init, p, q);
        assert(init.push(s.last()) =~= s);
        init.lemma_filter_push(s.last(), p);
        init.lemma_filter_push(s.last(), pq);
        init.filter(p).lemma_filter_push(s.last(), q);
    } else {
        reveal(Seq::filter);
    }
}

/// The stages only narrow the batch: each leaves at most as many trades as it
/// was given.
pub proof fn lemma_stage_counts_non_increasing(s: Seq<Trade>, cfg: Config)
    ensures
        after_category(s, cfg).len() <= s.len(),
        after_size(s, cfg).len() <= after_category(s, cfg).len(),
        after_aggression(s, cfg).len() <= after_size(s, cfg).len(),
        after_contrarian(s, cfg).len() <= after_aggression(s, cfg).len(),
{
    s.lemma_filter_len(stage_pred(Stage::Category, cfg));
    after_category(s, cfg).lemma_filter_len(stage_pred(Stage::Size, cfg));
    after_size(s, cfg).lemma_filter_len(stage_pred(Stage::Aggression, cfg));
    after_aggression(s, cfg).lemma_filter_len(stage_pred(Stage::Contrarian, cfg));
}

/// The order of the stages matters for the counts only: the survivors are the
/// trades of the batch that pass every stage, in the batch's order.
pub proof fn lemma_survivors_pass_all(s: Seq<Trade>, cfg: Config)
    ensures
        after_contrarian(s, cfg) == s.filter(passes_all(cfg)),
{
    let by_category = stage_pred(Stage::Category, cfg);
    let by_size = stage_pred(Stage::Size, cfg);
    let by_aggression = stage_pred(Stage::Aggression, cfg);
    let by_price = stage_pred(Stage::Contrarian, cfg);
    let first_two = |t: Trade| by_category(t) && by_size(t);
    let first_three = |t: Trade| first_two(t) && by_aggression(t);
    lemma_filter_fuse(s, by_category, by_size);
    lemma_filter_fuse(s, first_two, by_aggression);
    lemma_filter_fuse(s, first_three, by_price);
    assert(passes_all(cfg) =~= (|t: Trade| first_three(t) && by_price(t)));
}

/// Whether a trade passes a stage.
pub fn passes_stage(t: &Trade, stage: Stage, cfg: &Config) -> (r: bool)
    ensures
        r == passes(stage, *cfg, *t),
{
    match stage {
        Stage::Category => match &t.title {
            Some(title) => !is_gambling_market(title.as_str()),
            None => true,
        },
        Stage::Size => t.value_usd() >= cfg.min_trade_size,
        Stage::Aggression => t.is_taker_buy(),
        Stage::Contrarian => t.price_micros < cfg.max_price_micros,
    }
}

/// The trades that pass a stage, in order.
pub fn run_stage(trades: &Vec<Trade>, stage: Stage, cfg: &Config) -> (r: Vec<Trade>)
    ensures
        r@ == trades@.filter(stage_pred(stage, *cfg)),
{
    let mut kept: Vec<Trade> = Vec::new();
    let mut i: usize = 0;
    while i < trades.len()
        invariant
            i <= trades@.len(),
            kept@ == trades@.subrange(0, i as int).filter(stage_pred(stage, *cfg)),
        decreases trades@.len() - i,
    {
        let t = &trades[i];
        proof {
            assert(trades@.subrange(0, i as int).push(*t) =~= trades@.subrange(0, i + 1));
            trades@.subrange(0, i as int).lemma_filter_push(*t, stage_pred(stage, *cfg));
        }
        if passes_stage(t, stage, cfg) {
            kept.push(t.clone());
        }
        i += 1;
    }
    assert(trades@.subrange(0, i as int) =~= trades@);
    kept
}

/// What the filter pipeline made of a batch: how many trades were left after
/// each stage, and the survivors of all four.
pub struct FilterReport {
    pub after_category: usize,
    pub after_size: usize,
    pub after_aggression: usize,
    pub after_contrarian: usize,
    pub survivors: Vec<Trade>,
}

/// Runs the four stages over a batch in order.
pub fn run_filters(trades: &Vec<Trade>, cfg: &Config) -> (r: FilterReport)
    ensures
        r.after_category == after_category(trades@, *cfg).len(),
        r.after_size == after_size(trades@, *cfg).len(),
        r.after_aggression == after_aggression(trades@, *cfg).len(),
        r.after_contrarian == after_contrarian(trades@, *cfg).len(),
        r.survivors@ == after_contrarian(trades@, *cfg),
{
    let s1 = run_stage(trades, Stage::Category, cfg);
    let s2 = run_stage(&s1, Stage::Size, cfg);
    let s3 = run_stage(&s2, Stage::Aggression, cfg);
    let s4 = run_stage(&s3, Stage::Contrarian, cfg);
    FilterReport {
        after_category: s1.len(),
        after_size: s2.len(),
        after_aggression: s3.len(),
        after_contrarian: s4.len(),
        survivors: s4,
    }
}

} // verus!
