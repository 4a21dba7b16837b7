use vstd::prelude::*;

use crate::stats::{derived, earliest, lemma_trade_count_bound, trade_count, traded_markets, UserActivity, UserStats};
use crate::text::{decimal, decimal_string, insert_distinct, views};

verus! {

/// The feed's base address.
pub const DATA_API_BASE: &'static str = "https://data-api.polymarket.com";

/// The first pause after a rate-limit answer, in milliseconds.
pub const INITIAL_BACKOFF_MS: u64 = 1000;

/// The longest pause between retries, in milliseconds.
pub const MAX_BACKOFF_MS: u64 = 60000;

/// Each rate-limit answer multiplies the pause by this.
pub const BACKOFF_MULTIPLIER: u64 = 2;

/// How many characters of an undecodable answer an error shows.
pub const PREVIEW_CHARS: usize = 300;

/// How the server answered one attempt of a request.
pub enum Attempt {
    /// It signalled rate limiting.
    RateLimited,
    /// It answered otherwise.
    Answered,
    /// The request did not reach it.
    TransportFailed,
}

/// What to do after an attempt.
#[derive(Debug, PartialEq, Eq, Structural)]
pub enum Step {
    /// Sleep this many milliseconds, then send the same request again.
    Retry(u64),
    /// Read and decode the answer.
    Decode,
    /// Give up on this call.
    Fail,
}

/// The retry state of the feed client. The pause is shared by all its calls:
/// rate limiting doubles it up to [`MAX_BACKOFF_MS`], and any answer resets it.
pub struct ApiClient {
    current_backoff: u64,
}

/// The pause after one more rate-limit answer.
pub open spec fn doubled(backoff: u64) -> u64 {
    if backoff * BACKOFF_MULTIPLIER > MAX_BACKOFF_MS {
        MAX_BACKOFF_MS
    } else {
        (backoff * BACKOFF_MULTIPLIER) as u64
    }
}

/// The request for the most recent trades.
pub open spec fn trades_url_of(limit: nat) -> Seq<char> {
    DATA_API_BASE@ + "/trades?limit="@ + decimal(limit)
}

/// The request for an actor's recent activity.
pub open spec fn activity_url_of(address: Seq<char>) -> Seq<char> {
    DATA_API_BASE@ + "/activity?user="@ + address + "&limit=500"@
}

/// The first `n` characters of a text, or all of it when shorter.
pub open spec fn prefix_of(s: Seq<char>, n: nat) -> Seq<char> {
    if s.len() <= n {
        s
    } else {
        s.subrange(0, n as int)
    }
}

/// The first `n` characters of a text, or all of it when shorter.
pub fn prefix_chars(s: &str, n: usize) -> (r: String)
    ensures
        r@ == prefix_of(s@, n as nat),
{
    let len = s.unicode_len();
    if len <= n {
        String::from_str(s)
    } else {
        String::from_str(s.substring_char(0, n))
    }
}

/// The label of an activity request in messages: the address's first eight
/// characters.
pub open spec fn activity_context_of(address: Seq<char>) -> Seq<char> {
    "activity("@ + prefix_of(address, 8) + "...)"@
}

/// The message for an answer that could not be decoded: the call's label and
/// the first [`PREVIEW_CHARS`] characters of the answer.
pub open spec fn decode_error_of(context: Seq<char>, body: Seq<char>) -> Seq<char> {
    "JSON parse error from "@ + context + ". Preview: "@ + prefix_of(body, PREVIEW_CHARS as nat)
}

/// The message for a request that did not reach the server.
pub open spec fn request_error_of(context: Seq<char>, cause: Seq<char>) -> Seq<char> {
    "Request failed for "@ + context + ": "@ + cause
}

/// A wallet address shortened for display: its first six and last four
/// characters around `...`; addresses under ten characters stay whole.
pub open spec fn masked_of(address: Seq<char>) -> Seq<char> {
    if address.len() < 10 {
        address
    } else {
        address.subrange(0, 6) + "..."@ + address.subrange(address.len() - 4, address.len() as int)
    }
}

/// Shortens a wallet address for display.
pub fn mask_address(address: &str) -> (r: String)
    ensures
        r@ == masked_of(address@),
{
    let len = address.unicode_len();
    if len < 10 {
        return String::from_str(address);
    }
    proof {
        reveal_strlit("...");
    }
    let head = address.substring_char(0, 6);
    let tail = address.substring_char(len - 4, len);
    let r = String::from_str(head).concat("...").concat(tail);
    r
}

/// The message for an answer that could not be decoded.
pub fn decode_error_message(context: &str, body: &str) -> (r: String)
    ensures
        r@ == decode_error_of(context@, body@),
{
    proof {
        reveal_strlit("JSON parse error from ");
        reveal_strlit(". Preview: ");
    }
    let preview = prefix_chars(body, PREVIEW_CHARS);
    let r = String::from_str("JSON parse error from ").concat(context).concat(". Preview: ").concat(preview.as_str());
    r
}

/// The message for a request that did not reach the server.
pub fn request_error_message(context: &str, cause: &str) -> (r: String)
    ensures
        r@ == request_error_of(context@, cause@),
{
    proof {
        reveal_strlit("Request failed for ");
        reveal_strlit(": ");
    }
    let r = String::from_str("Request failed for ").concat(context).concat(": ").concat(cause);
    r
}

impl ApiClient {
    /// The pause that the next rate-limit answer brings, in milliseconds.
    pub closed spec fn backoff(&self) -> u64 {
        self.current_backoff
    }

    pub closed spec fn wf(&self) -> bool {
        INITIAL_BACKOFF_MS <= self.current_backoff <= MAX_BACKOFF_MS
    }

    /// A client that has not been rate limited.
    pub fn new() -> (r: Self)
        ensures
            r.wf(),
            r.backoff() == INITIAL_BACKOFF_MS,
    {
        ApiClient { current_backoff: INITIAL_BACKOFF_MS }
    }

    /// The pause that the next rate-limit answer brings, in milliseconds.
    pub fn backoff_ms(&self) -> (r: u64)
        ensures
            r == self.backoff(),
    {
        self.current_backoff
    }

    /// Decides what follows an attempt. A rate-limit answer waits the current
    /// pause and doubles it, up to the cap; any other answer resets the pause
    /// and is decoded; a transport failure ends the call and keeps the pause.
    pub fn next_step(&mut self, attempt: Attempt) -> (r: Step)
        requires
            old(self).wf(),
        ensures
            final(self).wf(),
            match attempt {
                Attempt::RateLimited => r == Step::Retry(old(self).backoff()) && final(self).backoff() == doubled(
                    old(self).backoff(),
                ),
                Attempt::Answered => r == Step::Decode && final(self).backoff() == INITIAL_BACKOFF_MS,
                Attempt::TransportFailed => r == Step::Fail && final(self).backoff() == old(self).backoff(),
            },
    {
        match attempt {
            Attempt::RateLimited => {
                let wait = self.current_backoff;
                let next = self.current_backoff * BACKOFF_MULTIPLIER;
                self.current_backoff = if next > MAX_BACKOFF_MS {
                    MAX_BACKOFF_MS
                } else {
                    next
                };
                Step::Retry(wait)
            },
            Attempt::Answered => {
                self.current_backoff = INITIAL_BACKOFF_MS;
                Step::Decode
            },
            Attempt::TransportFailed => Step::Fail,
        }
    }

    /// The request for the `limit` most recent trades.
    pub fn trades_url(limit: usize) -> (r: String)
        ensures
            r@ == trades_url_of(limit as nat),
    {
        proof {
            reveal_strlit("https://data-api.polymarket.com");
            reveal_strlit("/trades?limit=");
        }
        let n = decimal_string(limit as u128);
        let r = String::from_str(DATA_API_BASE).concat("/trades?limit=").concat(n.as_str());
        r
    }

    /// The request for an actor's recent activity.
    pub fn activity_url(address: &str) -> (r: String)
        ensures
            r@ == activity_url_of(address@),
    {
        proof {
            reveal_strlit("https://data-api.polymarket.com");
            reveal_strlit("/activity?user=");
            reveal_strlit("&limit=500");
        }
        let r = String::from_str(DATA_API_BASE).concat("/activity?user=").concat(address).concat("&limit=500");
        r
    }

    /// The label of an actor's activity request in messages.
    pub fn activity_context(address: &str) -> (r: String)
        ensures
            r@ == activity_context_of(address@),
    {
        proof {
            reveal_strlit("activity(");
            reveal_strlit("...)");
        }
        let head = prefix_chars(address, 8);
        let r = String::from_str("activity(").concat(head.as_str()).concat("...)");
        r
    }

    /// Derives an actor's statistics from their activity records.
    pub fn calculate_user_stats(address: &str, activities: &[UserActivity]) -> (r: UserStats)
        ensures
            derived(r, address@, activities@),
    {
        let mut markets: Vec<String> = Vec::new();
        let mut total_trades: usize = 0;
        let mut min_timestamp: Option<i64> = None;
        let mut i: usize = 0;
        while i < activities.len()
            invariant
                i <= activities@.len(),
                views(markets@).no_duplicates(),
                views(markets@).to_set() == traded_markets(activities@.subrange(0, i as int)),
                total_trades == trade_count(activities@.subrange(0, i as int)),
                min_timestamp == earliest(activities@.subrange(0, i as int)),
            decreases activities@.len() - i,
        {
            let a = &activities[i];
            proof {
                let pre = activities@.subrange(0, i as int);
                let next = activities@.subrange(0, i + 1);
                assert(next.drop_last() =~= pre);
                assert(next.last() == *a);
                lemma_trade_count_bound(pre);
            }
            if let Some(ts) = a.timestamp {
                match min_timestamp {
                    Some(m) => {
                        if ts < m {
                            min_timestamp = Some(ts);
                        }
                    },
                    None => {
                        min_timestamp = Some(ts);
                    },
                }
            }
            if a.side.is_some() {
                match &a.condition_id {
                    Some(c) => insert_distinct(&mut markets, c),
                    None => match &a.slug {
                        Some(s) => insert_distinct(&mut markets, s),
                        None => {},
                    },
                }
                total_trades += 1;
            }
            i += 1;
        }
        proof {
            assert(activities@.subrange(0, i as int) =~= activities@);
            views(markets@).unique_seq_to_set();
        }
        UserStats {
            address: String::from_str(address),
            unique_markets: markets.len(),
            total_trades,
            first_activity_timestamp: min_timestamp,
        }
    }
}

} // verus!
