//! What is reported about the strategies, and how often.
use crate::runtime::{CryptoArbRuntime, count_up, counted};
use crate::table::Table;
use crate::text::{i64_to_text, int_text, opt_text, u64_to_text};
use crate::time::{DateTime, millis_between};
use vstd::prelude::*;
use vstd::string::*;

verus! {

/// Milliseconds between dashboard updates.
pub const DASHBOARD_INTERVAL_MS: u64 = 5000;

/// Milliseconds between status reports.
pub const STATUS_INTERVAL_MS: u64 = 60000;

/// Whether an interval has passed since the last time, if there was one; a clock reading
/// before the last one counts as no time at all.
pub open spec fn due(last: Option<u64>, now_ms: u64, interval_ms: u64) -> bool {
    match last {
        None => true,
        Some(t) => (if now_ms > t {
            now_ms - t
        } else {
            0
        }) >= interval_ms,
    }
}

/// Whether an interval has passed since the last time, if there was one.
pub fn is_due(last: Option<u64>, now_ms: u64, interval_ms: u64) -> (r: bool)
    ensures
        r == due(last, now_ms, interval_ms),
{
    match last {
        None => true,
        Some(t) => now_ms.saturating_sub(t) >= interval_ms,
    }
}

/// `key=count` for each counter, parted by `, `.
pub open spec fn counters_text(rows: Seq<(Seq<char>, u64)>) -> Seq<char>
    decreases rows.len(),
{
    if rows.len() == 0 {
        Seq::empty()
    } else if rows.len() == 1 {
        rows.last().0 + "="@ + int_text(rows.last().1 as int)
    } else {
        counters_text(rows.drop_last()) + ", "@ + (rows.last().0 + "="@ + int_text(
            rows.last().1 as int,
        ))
    }
}

/// `key=count` for each counter, parted by `, `.
pub fn format_counters(table: &Table<u64>) -> (r: String)
    ensures
        r@ == counters_text(table.rows()),
{
    let ghost rows = table.rows();
    let mut out = String::new();
    let mut i: usize = 0;
    assert(out@ =~= Seq::empty());
    while i < table.len()
        invariant
            i <= rows.len(),
            rows == table.rows(),
            out@ == counters_text(rows.take(i as int)),
        decreases rows.len() - i,
    {
        assert(rows.take(i as int + 1).drop_last() =~= rows.take(i as int));
        let mut part = table.key_at(i).clone();
        part.append("=");
        part.append(u64_to_text(*table.value_at(i)).as_str());
        if i == 0 {
            out = part;
        } else {
            out.append(", ");
            out.append(part.as_str());
        }
        i += 1;
    }
    assert(rows.take(i as int) =~= rows);
    out
}

/// `feed=lag ms` for each feed, parted by `, `.
pub open spec fn lags_text(rows: Seq<(Seq<char>, DateTime)>, now: DateTime) -> Seq<char>
    decreases rows.len(),
{
    if rows.len() == 0 {
        Seq::empty()
    } else {
        let part = rows.last().0 + "="@ + int_text(millis_between(now, rows.last().1)) + "ms"@;
        if rows.len() == 1 {
            part
        } else {
            lags_text(rows.drop_last(), now) + ", "@ + part
        }
    }
}

/// `feed=lag ms` for each feed, parted by `, `.
pub fn format_lags(table: &Table<DateTime>, now: DateTime) -> (r: String)
    ensures
        r@ == lags_text(table.rows(), now),
{
    let ghost rows = table.rows();
    let mut out = String::new();
    let mut i: usize = 0;
    assert(out@ =~= Seq::empty());
    while i < table.len()
        invariant
            i <= rows.len(),
            rows == table.rows(),
            out@ == lags_text(rows.take(i as int), now),
        decreases rows.len() - i,
    {
        assert(rows.take(i as int + 1).drop_last() =~= rows.take(i as int));
        let mut part = table.key_at(i).clone();
        part.append("=");
        part.append(i64_to_text(now.millis_since(*table.value_at(i))).as_str());
        part.append("ms");
        if i == 0 {
            out = part;
        } else {
            out.append(", ");
            out.append(part.as_str());
        }
        i += 1;
    }
    assert(rows.take(i as int) =~= rows);
    out
}

/// How many orders were placed, and what became of them.
#[derive(Clone, Copy, Debug, PartialEq, Eq, Structural)]
pub struct OrderCounts {
    pub total_orders: u64,
    pub total_fills: u64,
    pub total_cancels: u64,
    /// Post-only orders that would have matched.
    pub post_only_rejects: u64,
}

/// Figures for the log.
#[derive(Debug)]
pub struct StatusSummary {
    pub active_markets: usize,
    /// Coins with markets that wait for a price.
    pub pending_markets: usize,
    pub coins_with_prices: usize,
    pub open_positions: usize,
    pub pending_orders: usize,
    /// Why entries were skipped since the last report, if any were.
    pub skips: Option<String>,
    /// Why signals were vetoed since the last report, if any were.
    pub vetoes: Option<String>,
    /// The orders so far, if any were placed.
    pub orders: Option<OrderCounts>,
    /// Lag of each feed, if there is one.
    pub feed_lags: Option<String>,
}

/// A status report was made when it was due; the counters of skips and vetoes then start over.
pub open spec fn status_reported(
    pre: CryptoArbRuntime,
    post: CryptoArbRuntime,
    now_ms: u64,
    now: DateTime,
    r: Option<StatusSummary>,
) -> bool {
    &&& r is Some <==> due(pre.last_status_log, now_ms, STATUS_INTERVAL_MS)
    &&& r is None ==> post == pre
    &&& r is Some ==> {
        let s = r->0;
        &&& s.active_markets == pre.active_markets.rows().len()
        &&& s.pending_markets == pre.pending_discovery.rows().len()
        &&& s.coins_with_prices == pre.price_history.rows().len()
        &&& s.open_positions == pre.positions@.len()
        &&& s.pending_orders == pre.pending_orders.rows().len()
        &&& opt_text(s.skips) == (if pre.tailend_skip_stats.rows().len() > 0 {
            Some(counters_text(pre.tailend_skip_stats.rows()))
        } else {
            None
        })
        &&& opt_text(s.vetoes) == (if pre.signal_veto_stats.rows().len() > 0 {
            Some(counters_text(pre.signal_veto_stats.rows()))
        } else {
            None
        })
        &&& s.orders == (if pre.order_telemetry.total_orders > 0 {
            Some(
                OrderCounts {
                    total_orders: pre.order_telemetry.total_orders,
                    total_fills: pre.order_telemetry.total_fills,
                    total_cancels: pre.order_telemetry.total_cancels,
                    post_only_rejects: pre.order_telemetry.post_only_rejects,
                },
            )
        } else {
            None
        })
        &&& opt_text(s.feed_lags) == (if pre.feed_last_seen.rows().len() > 0 {
            Some(lags_text(pre.feed_last_seen.rows(), now))
        } else {
            None
        })
        &&& post.tailend_skip_stats.rows().len() == 0
        &&& post.signal_veto_stats.rows().len() == 0
        &&& post == (CryptoArbRuntime {
            last_status_log: Some(now_ms),
            tailend_skip_stats: post.tailend_skip_stats,
            signal_veto_stats: post.signal_veto_stats,
            ..pre
        })
    }
}

impl CryptoArbRuntime {
    /// Counts a skipped entry.
    pub fn record_tailend_skip(&mut self, reason: &str)
        ensures
            final(self).tailend_skip_stats.rows() == counted(
                old(self).tailend_skip_stats.rows(),
                reason@,
            ),
            *final(self) == (CryptoArbRuntime {
                tailend_skip_stats: final(self).tailend_skip_stats,
                ..*old(self)
            }),
    {
        count_up(&mut self.tailend_skip_stats, reason);
    }

    /// Whether the dashboard is due for an update; if so, it counts as updated.
    pub fn try_claim_dashboard_emit(&mut self, now_ms: u64) -> (r: bool)
        ensures
            r == due(old(self).last_dashboard_emit, now_ms, DASHBOARD_INTERVAL_MS),
            *final(self) == (CryptoArbRuntime {
                last_dashboard_emit: if r {
                    Some(now_ms)
                } else {
                    old(self).last_dashboard_emit
                },
                ..*old(self)
            }),
    {
        if is_due(self.last_dashboard_emit, now_ms, DASHBOARD_INTERVAL_MS) {
            self.last_dashboard_emit = Some(now_ms);
            true
        } else {
            false
        }
    }

    /// The status report, when it is due; the counters of skips and vetoes then start over.
    pub fn maybe_log_status_summary(&mut self, now_ms: u64, now: DateTime) -> (r: Option<
        StatusSummary,
    >)
        ensures
            status_reported(*old(self), *final(self), now_ms, now, r),
    {
        if !is_due(self.last_status_log, now_ms, STATUS_INTERVAL_MS) {
            return None;
        }
        self.last_status_log = Some(now_ms);
        let skips: Option<String> = if self.tailend_skip_stats.len() > 0 {
            Some(format_counters(&self.tailend_skip_stats))
        } else {
            None
        };
        let vetoes: Option<String> = if self.signal_veto_stats.len() > 0 {
            Some(format_counters(&self.signal_veto_stats))
        } else {
            None
        };
        let orders: Option<OrderCounts> = if self.order_telemetry.total_orders > 0 {
            Some(
                OrderCounts {
                    total_orders: self.order_telemetry.total_orders,
                    total_fills: self.order_telemetry.total_fills,
                    total_cancels: self.order_telemetry.total_cancels,
                    post_only_rejects: self.order_telemetry.post_only_rejects,
                },
            )
        } else {
            None
        };
        let feed_lags: Option<String> = if self.feed_last_seen.len() > 0 {
            Some(format_lags(&self.feed_last_seen, now))
        } else {
            None
        };
        self.tailend_skip_stats = Table::new();
        self.signal_veto_stats = Table::new();
        Some(
            StatusSummary {
                active_markets: self.active_markets.len(),
                pending_markets: self.pending_discovery.len(),
                coins_with_prices: self.price_history.len(),
                open_positions: self.positions.len(),
                pending_orders: self.pending_orders.len(),
                skips,
                vetoes,
                orders,
                feed_lags,
            },
        )
    }
}

/// After an update, the next one is not due before the interval has passed.
pub proof fn updates_keep_their_distance(at_ms: u64, later_ms: u64, interval_ms: u64)
    requires
        at_ms <= later_ms,
    ensures
        due(Some(at_ms), later_ms, interval_ms) == (later_ms - at_ms >= interval_ms),
{
}

/// A status is reported once a minute, counts what there is, and starts the counters of skips and
/// vetoes over.
pub proof fn a_status_is_reported_each_minute(
    pre: CryptoArbRuntime,
    post: CryptoArbRuntime,
    now_ms: u64,
    now: DateTime,
    r: Option<StatusSummary>,
)
    requires
        status_reported(pre, post, now_ms, now, r),
    ensures
        r is Some <==> pre.last_status_log is None || now_ms - pre.last_status_log->0 >= 60_000,
        r is Some ==> post.last_status_log == Some(now_ms) && post.tailend_skip_stats.rows().len()
            == 0 && post.signal_veto_stats.rows().len() == 0,
        r is Some ==> r->0.active_markets == pre.active_markets.rows().len() && r->0.open_positions
            == pre.positions@.len() && r->0.pending_orders == pre.pending_orders.rows().len(),
        r is None ==> post == pre,
{
}

} // verus!
