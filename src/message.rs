use vstd::prelude::*;

use crate::cluster::MarketCluster;
use crate::stats::SuspectTrade;
use crate::text::{decimal, decimal_string, digit_char, escape_html, escaped};
use crate::trade::{market_url_of, text_or, USD};
use crate::volume::{mean_of, VolumeTracker};

verus! {

/// Value units in one cent.
pub const CENT: u128 = 10_000_000_000;

/// Two decimal digits, zero-padded.
pub open spec fn two_digits(n: nat) -> Seq<char> {
    seq![digit_char((n / 10) as int), digit_char((n % 10) as int)]
}

/// A value in cents, halves rounded up.
pub open spec fn cents_of(value: nat) -> nat {
    value / (CENT as nat) + if value % (CENT as nat) >= CENT / 2 {
        1nat
    } else {
        0
    }
}

/// A value as dollars with two decimals.
pub open spec fn money_text(value: nat) -> Seq<char> {
    decimal(cents_of(value) / 100) + seq!['.'] + two_digits(cents_of(value) % 100)
}

/// A price in millionths of a dollar as a percentage with one decimal, halves
/// rounded up.
pub open spec fn percent_text(price_micros: nat) -> Seq<char> {
    let tenths = price_micros / 1000 + if price_micros % 1000 >= 500 {
        1nat
    } else {
        0
    };
    decimal(tenths / 10) + seq!['.'] + seq![digit_char((tenths % 10) as int)]
}

/// The time of day of a unix timestamp, as `HH:MM:SS UTC`.
pub open spec fn clock_text(timestamp: int) -> Seq<char> {
    let secs = timestamp % 86400;
    two_digits((secs / 3600) as nat) + seq![':'] + two_digits((secs % 3600 / 60) as nat) + seq![':']
        + two_digits((secs % 60) as nat) + " UTC"@
}

fn two_digit_string(n: u128) -> (r: String)
    requires
        n < 100,
    ensures
        r@ == two_digits(n as nat),
{
    let tens = decimal_string(n / 10);
    let ones = decimal_string(n % 10);
    let r = tens.concat(ones.as_str());
    r
}

/// Writes a value as dollars with two decimals, without the sign.
pub fn format_dollars(value: u128) -> (r: String)
    ensures
        r@ == money_text(value as nat),
{
    proof {
        reveal_strlit(".");
    }
    let cents = value / CENT + if value % CENT >= CENT / 2 {
        1
    } else {
        0
    };
    let whole = decimal_string(cents / 100);
    let frac = two_digit_string(cents % 100);
    let r = whole.concat(".").concat(frac.as_str());
    r
}

/// Writes a price in millionths of a dollar as a percentage with one decimal,
/// without the sign.
pub fn format_percent(price_micros: u64) -> (r: String)
    ensures
        r@ == percent_text(price_micros as nat),
{
    proof {
        reveal_strlit(".");
    }
    let tenths = (price_micros / 1000 + if price_micros % 1000 >= 500 {
        1
    } else {
        0
    }) as u128;
    let whole = decimal_string(tenths / 10);
    let last = decimal_string(tenths % 10);
    let r = whole.concat(".").concat(last.as_str());
    r
}

/// Relies on `chrono::DateTime::from_timestamp` and `DateTime::format` with
/// `%H:%M:%S UTC`: the UTC time of day of a timestamp, with each field
/// zero-padded to two digits. It is known for every timestamp whose day falls
/// in chrono's date range, which holds within 10^11 seconds of the epoch.
#[verifier::external_body]
fn utc_clock(timestamp: i64) -> (r: Option<String>)
    ensures
        r matches Some(s) ==> s@ == clock_text(timestamp as int),
        -100_000_000_000 <= timestamp <= 100_000_000_000 ==> r is Some,
{
    chrono::DateTime::from_timestamp(timestamp, 0).map(|dt| dt.format("%H:%M:%S UTC").to_string())
}

/// The time of day of a trade for messages, or `Unknown` when the timestamp
/// is out of range.
pub fn trade_clock(timestamp: i64) -> (r: String)
    ensures
        -100_000_000_000 <= timestamp <= 100_000_000_000 ==> r@ == clock_text(timestamp as int),
{
    match utc_clock(timestamp) {
        Some(s) => s,
        None => String::from_str("Unknown"),
    }
}

/// The chat message for a suspect trade, in HTML, given the time of day.
pub open spec fn suspect_text(s: SuspectTrade, level: Seq<char>, time: Seq<char>) -> Seq<char> {
    let t = s.trade;
    "<b>INSIDER ALERT ["@ + level + "]</b>\n\n<b>Market:</b> "@ + escaped(text_or(t.title, "Unknown Market"@))
        + "\n<b>Outcome:</b> "@ + escaped(text_or(t.outcome, t.side@)) + "\n<b>Value:</b> $"@ + money_text(
        (t.price_micros * t.size_micros) as nat,
    ) + "\n<b>Price:</b> "@ + percent_text(t.price_micros as nat) + "%\n<b>Wallet:</b> <code>"@
        + s.user_stats.address@ + "</code>\n<b>Reason:</b> "@ + escaped(s.reason@) + "\n<b>Time:</b> "@ + time
        + "\n\n<a href=\""@ + market_url_of(t.event_slug, t.slug) + "\">BUY NOW</a>"@
}

/// Builds the chat message for a suspect trade.
pub fn suspect_message(s: &SuspectTrade) -> (r: String)
    ensures
        -100_000_000_000 <= s.trade.timestamp <= 100_000_000_000 ==> r@ == suspect_text(
            *s,
            s.alert_level.spec_label(),
            clock_text(s.trade.timestamp as int),
        ),
{
    proof {
        reveal_strlit("<b>INSIDER ALERT [");
        reveal_strlit("]</b>\n\n<b>Market:</b> ");
        reveal_strlit("Unknown Market");
        reveal_strlit("\n<b>Outcome:</b> ");
        reveal_strlit("\n<b>Value:</b> $");
        reveal_strlit("\n<b>Price:</b> ");
        reveal_strlit("%\n<b>Wallet:</b> <code>");
        reveal_strlit("</code>\n<b>Reason:</b> ");
        reveal_strlit("\n<b>Time:</b> ");
        reveal_strlit("\n\n<a href=\"");
        reveal_strlit("\">BUY NOW</a>");
    }
    let t = &s.trade;
    let title = crate::trade::text_or_else(&t.title, "Unknown Market");
    let outcome = match &t.outcome {
        Some(o) => o.clone(),
        None => t.side.clone(),
    };
    let mut r = String::from_str("<b>INSIDER ALERT [");
    r.append(s.alert_level.label());
    r.append("]</b>\n\n<b>Market:</b> ");
    r.append(escape_html(title.as_str()).as_str());
    r.append("\n<b>Outcome:</b> ");
    r.append(escape_html(outcome.as_str()).as_str());
    r.append("\n<b>Value:</b> $");
    r.append(format_dollars(t.value_usd()).as_str());
    r.append("\n<b>Price:</b> ");
    r.append(format_percent(t.price_micros).as_str());
    r.append("%\n<b>Wallet:</b> <code>");
    r.append(s.user_stats.address.as_str());
    r.append("</code>\n<b>Reason:</b> ");
    r.append(escape_html(s.reason.as_str()).as_str());
    r.append("\n<b>Time:</b> ");
    r.append(trade_clock(t.timestamp).as_str());
    r.append("\n\n<a href=\"");
    r.append(t.market_url().as_str());
    r.append("\">BUY NOW</a>");
    proof {
        if -100_000_000_000 <= s.trade.timestamp <= 100_000_000_000 {
            assert(r@ =~= suspect_text(*s, s.alert_level.spec_label(), clock_text(s.trade.timestamp as int)));
        }
    }
    r
}

/// The chat message for a cluster alert, `mins` minutes after it formed.
pub open spec fn cluster_text(c: MarketCluster, mins: nat) -> Seq<char> {
    "<b>CLUSTER DETECTED</b>\n\n<b>Market:</b> "@ + escaped(c.market_title@) + "\n<b>Outcome:</b> "@ + escaped(
        c.outcome@,
    ) + "\n<b>Wallets:</b> "@ + decimal(c.model().wallets.len()) + " fresh wallets in "@ + decimal(mins)
        + " mins\n<b>Volume:</b> $"@ + money_text(c.total_volume as nat) + "\n<b>Avg Price:</b> "@ + percent_text(
        c.avg_price as nat,
    ) + "%\n\n<i>Multiple fresh wallets entering same market = potential coordination</i>\n\n<a href=\""@
        + c.market_url@ + "\">BUY NOW</a>"@
}

/// Builds the chat message for a cluster alert at time `now`.
pub fn cluster_message(c: &MarketCluster, now: u64) -> (r: String)
    requires
        c.wf(),
    ensures
        r@ == cluster_text(*c, c.spec_age_minutes(now) as nat),
{
    proof {
        reveal_strlit("<b>CLUSTER DETECTED</b>\n\n<b>Market:</b> ");
        reveal_strlit("\n<b>Outcome:</b> ");
        reveal_strlit("\n<b>Wallets:</b> ");
        reveal_strlit(" fresh wallets in ");
        reveal_strlit(" mins\n<b>Volume:</b> $");
        reveal_strlit("\n<b>Avg Price:</b> ");
        reveal_strlit("%\n\n<i>Multiple fresh wallets entering same market = potential coordination</i>\n\n<a href=\"");
        reveal_strlit("\">BUY NOW</a>");
    }
    let mut r = String::from_str("<b>CLUSTER DETECTED</b>\n\n<b>Market:</b> ");
    r.append(escape_html(c.market_title.as_str()).as_str());
    r.append("\n<b>Outcome:</b> ");
    r.append(escape_html(c.outcome.as_str()).as_str());
    r.append("\n<b>Wallets:</b> ");
    r.append(decimal_string(c.wallet_count() as u128).as_str());
    r.append(" fresh wallets in ");
    r.append(decimal_string(c.age_minutes(now) as u128).as_str());
    r.append(" mins\n<b>Volume:</b> $");
    r.append(format_dollars(c.total_volume).as_str());
    r.append("\n<b>Avg Price:</b> ");
    r.append(format_percent(c.avg_price).as_str());
    r.append("%\n\n<i>Multiple fresh wallets entering same market = potential coordination</i>\n\n<a href=\"");
    r.append(c.market_url.as_str());
    r.append("\">BUY NOW</a>");
    assert(r@ =~= cluster_text(*c, c.spec_age_minutes(now) as nat));
    r
}

/// A spike ratio in hundredths as a factor with one decimal, rounded down.
pub open spec fn ratio_text(ratio_pct: nat) -> Seq<char> {
    decimal(ratio_pct / 100) + seq!['.'] + seq![digit_char((ratio_pct % 100 / 10) as int)]
}

/// Writes a spike ratio in hundredths as a factor with one decimal.
pub fn format_ratio(ratio_pct: u128) -> (r: String)
    ensures
        r@ == ratio_text(ratio_pct as nat),
{
    proof {
        reveal_strlit(".");
    }
    let whole = decimal_string(ratio_pct / 100);
    let tenth = decimal_string(ratio_pct % 100 / 10);
    let r = whole.concat(".").concat(tenth.as_str());
    r
}

/// The chat message for a volume spike, given the tracker's spike ratio.
pub open spec fn spike_text(t: VolumeTracker, ratio_pct: nat) -> Seq<char> {
    "<b>VOLUME SPIKE</b>\n\n<b>Market:</b> "@ + escaped(t.market_title@) + "\n<b>Current:</b> $"@ + money_text(
        t.current_hour_volume as nat,
    ) + " this hour\n<b>Average:</b> $"@ + money_text(mean_of(t.hourly_volumes@) as nat)
        + "/hour (24h)\n<b>Spike:</b> "@ + ratio_text(ratio_pct)
        + "x normal\n\n<i>Unusual volume = something might be brewing</i>\n\n<a href=\""@ + t.market_url@
        + "\">CHECK MARKET</a>"@
}

/// Builds the chat message for a volume spike.
pub fn spike_message(t: &VolumeTracker) -> (r: String)
    requires
        t.wf(),
    ensures
        r@ == spike_text(
            *t,
            (if mean_of(t.hourly_volumes@) < USD {
                0
            } else {
                t.current_hour_volume * 100 / mean_of(t.hourly_volumes@)
            }) as nat,
        ),
{
    proof {
        reveal_strlit("<b>VOLUME SPIKE</b>\n\n<b>Market:</b> ");
        reveal_strlit("\n<b>Current:</b> $");
        reveal_strlit(" this hour\n<b>Average:</b> $");
        reveal_strlit("/hour (24h)\n<b>Spike:</b> ");
        reveal_strlit("x normal\n\n<i>Unusual volume = something might be brewing</i>\n\n<a href=\"");
        reveal_strlit("\">CHECK MARKET</a>");
    }
    let ratio = t.spike_ratio();
    let mut r = String::from_str("<b>VOLUME SPIKE</b>\n\n<b>Market:</b> ");
    r.append(escape_html(t.market_title.as_str()).as_str());
    r.append("\n<b>Current:</b> $");
    r.append(format_dollars(t.current_hour_volume).as_str());
    r.append(" this hour\n<b>Average:</b> $");
    r.append(format_dollars(t.avg_hourly_volume()).as_str());
    r.append("/hour (24h)\n<b>Spike:</b> ");
    r.append(format_ratio(ratio).as_str());
    r.append("x normal\n\n<i>Unusual volume = something might be brewing</i>\n\n<a href=\"");
    r.append(t.market_url.as_str());
    r.append("\">CHECK MARKET</a>");
    assert(r@ =~= spike_text(*t, ratio as nat));
    r
}

} // verus!
