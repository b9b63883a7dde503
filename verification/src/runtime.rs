//! The shared state of the strategies.
use crate::config::ArbitrageConfig;
use crate::decimal::Decimal;
use crate::domain::lifecycle::PositionLifecycle;
use crate::domain::market::{BoundarySnapshot, CompositePriceResult, MarketWithReference};
use crate::domain::position::{ArbitragePosition, ExitOrderMeta, OpenLimitOrder, PendingOrder};
use crate::domain::telemetry::{ModeStats, OrderTelemetry, SpikeEvent, StatsView};
use crate::exchange::MarketInfo;
use crate::table::{Table, lookup, stored};
use crate::text::{owned, same_text};
use crate::time::DateTime;
use vstd::prelude::*;

verus! {

/// Length of a market window, in seconds.
pub const WINDOW_SECS: i64 = 900;

/// Most prices kept per coin.
pub const PRICE_HISTORY_SIZE: usize = 200;

/// Seconds from a window boundary within which a snapshot is exact.
pub const BOUNDARY_TOLERANCE_SECS: i64 = 2;

/// A recorded price.
#[derive(Debug)]
pub struct PriceEntry {
    /// When it came in.
    pub received_at: DateTime,
    pub price: Decimal,
    /// The feed it came from.
    pub source: String,
    /// When the feed quoted it.
    pub source_ts: DateTime,
}

impl Clone for PriceEntry {
    fn clone(&self) -> (r: Self)
        ensures
            r == *self,
    {
        PriceEntry {
            received_at: self.received_at,
            price: self.price,
            source: self.source.clone(),
            source_ts: self.source_ts,
        }
    }
}

/// The state that the strategies share.
#[derive(Debug)]
pub struct CryptoArbRuntime {
    pub config: ArbitrageConfig,
    /// Markets being traded, by id.
    pub active_markets: Table<MarketWithReference>,
    /// Prices by coin, oldest first.
    pub price_history: Table<Vec<PriceEntry>>,
    /// Prices at window boundaries, by coin and boundary.
    pub boundary_prices: Table<BoundarySnapshot>,
    /// Open positions, oldest first.
    pub positions: Vec<ArbitragePosition>,
    /// Orders not confirmed yet, by token.
    pub pending_orders: Table<PendingOrder>,
    /// Limit orders on the book, by order.
    pub open_limit_orders: Table<OpenLimitOrder>,
    /// Markets that wait for a price, by coin.
    pub pending_discovery: Table<Vec<MarketInfo>>,
    /// Recent spikes, oldest first.
    pub spike_events: Vec<SpikeEvent>,
    pub stats: ModeStats,
    /// Latest best ask, by token.
    pub cached_asks: Table<Decimal>,
    /// When the dashboard was last updated, in milliseconds of a steady clock.
    pub last_dashboard_emit: Option<u64>,
    /// When the status was last reported, in milliseconds of a steady clock.
    pub last_status_log: Option<u64>,
    /// When a market may be tried again after a rejection.
    pub rejection_cooldowns: Table<DateTime>,
    /// When a market may be tried again after a stale position.
    pub stale_market_cooldowns: Table<DateTime>,
    /// When a market may be tried again after a recovery.
    pub recovery_exit_cooldowns: Table<DateTime>,
    /// Why entries were skipped.
    pub tailend_skip_stats: Table<u64>,
    /// Why signals were vetoed.
    pub signal_veto_stats: Table<u64>,
    /// Nearest end of a market, by coin.
    pub coin_nearest_expiry: Table<DateTime>,
    /// Slots held for markets under evaluation.
    pub market_reservations: Table<usize>,
    pub order_telemetry: OrderTelemetry,
    /// When each feed was last seen.
    pub feed_last_seen: Table<DateTime>,
    /// Composite prices for stop-losses, with the time they were computed, by coin.
    pub sl_composite_cache: Table<(CompositePriceResult, DateTime)>,
    /// Lifecycles of positions, by token.
    pub position_lifecycle: Table<PositionLifecycle>,
    /// Exit and hedge orders in flight, by order.
    pub exit_orders_by_id: Table<ExitOrderMeta>,
    /// Tracked coins.
    pub coins: Vec<String>,
    /// Time of the latest event.
    pub last_event_time: DateTime,
}

/// A text is in a list.
pub open spec fn lists(v: Seq<String>, s: Seq<char>) -> bool {
    exists|i: int| 0 <= i < v.len() && (#[trigger] v[i])@ == s
}

/// Whether a text is in a list.
pub fn list_has(v: &Vec<String>, s: &str) -> (r: bool)
    ensures
        r == lists(v@, s@),
{
    let mut i: usize = 0;
    while i < v.len()
        invariant
            i <= v@.len(),
            forall|j: int| 0 <= j < i ==> (#[trigger] v@[j])@ != s@,
        decreases v@.len() - i,
    {
        if same_text(v[i].as_str(), s) {
            return true;
        }
        i += 1;
    }
    false
}

/// The first occurrences in a list of texts.
pub open spec fn first_occurrences(v: Seq<String>) -> Seq<String>
    decreases v.len(),
{
    if v.len() == 0 {
        v
    } else if lists(v.drop_last(), v.last()@) {
        first_occurrences(v.drop_last())
    } else {
        first_occurrences(v.drop_last()).push(v.last())
    }
}

proof fn lemma_first_occurrences_list(v: Seq<String>, s: Seq<char>)
    ensures
        lists(first_occurrences(v), s) == lists(v, s),
    decreases v.len(),
{
    if v.len() > 0 {
        let h = v.drop_last();
        lemma_first_occurrences_list(h, s);
        lemma_first_occurrences_list(h, v.last()@);
        let f = first_occurrences(h);
        if lists(v, s) {
            let i = choose|i: int| 0 <= i < v.len() && (#[trigger] v[i])@ == s;
            if i < h.len() {
                assert(h[i]@ == s);
            } else if !lists(h, s) {
                assert(first_occurrences(v)[f.len() as int]@ == s);
            }
        }
        if lists(h, s) {
            let i = choose|i: int| 0 <= i < h.len() && (#[trigger] h[i])@ == s;
            assert(v[i]@ == s);
            let j = choose|j: int| 0 <= j < f.len() && (#[trigger] f[j])@ == s;
            assert(first_occurrences(v)[j]@ == s);
        }
        if lists(first_occurrences(v), s) {
            let j = choose|j: int|
                0 <= j < first_occurrences(v).len() && (#[trigger] first_occurrences(v)[j])@ == s;
            if j < f.len() {
                assert(f[j]@ == s);
            } else {
                assert(v[v.len() - 1]@ == s);
            }
        }
    }
}

/// The list of tracked coins: each configured coin once.
pub fn distinct_coins(coins: &Vec<String>) -> (r: Vec<String>)
    ensures
        r@ == first_occurrences(coins@),
        forall|s: Seq<char>| #[trigger] lists(r@, s) == lists(coins@, s),
{
    let mut r: Vec<String> = Vec::new();
    let mut i: usize = 0;
    while i < coins.len()
        invariant
            i <= coins@.len(),
            r@ =~= first_occurrences(coins@.take(i as int)),
        decreases coins@.len() - i,
    {
        let ghost h = coins@.take(i as int);
        proof {
            assert(coins@.take(i as int + 1).drop_last() =~= h);
            assert(coins@.take(i as int + 1).last() == coins@[i as int]);
            lemma_first_occurrences_list(h, coins@[i as int]@);
        }
        if !list_has(&r, coins[i].as_str()) {
            r.push(coins[i].clone());
        }
        i += 1;
    }
    assert(coins@.take(i as int) =~= coins@);
    proof {
        assert forall|s: Seq<char>| #[trigger] lists(r@, s) == lists(coins@, s) by {
            lemma_first_occurrences_list(coins@, s);
        }
    }
    r
}

impl CryptoArbRuntime {
    /// The state at the start.
    pub fn new(config: ArbitrageConfig, now: DateTime) -> (r: Self)
        ensures
            r.config == config,
            r.coins@ == first_occurrences(config.coins@),
            r.last_event_time == now,
            r.stats@ == StatsView::blank(config.performance.window_size as int),
            r.positions@ == Seq::<ArbitragePosition>::empty(),
            r.spike_events@ == Seq::<SpikeEvent>::empty(),
            r.last_dashboard_emit is None,
            r.last_status_log is None,
            r.active_markets.rows().len() == 0,
            r.price_history.rows().len() == 0,
            r.boundary_prices.rows().len() == 0,
            r.pending_orders.rows().len() == 0,
            r.open_limit_orders.rows().len() == 0,
            r.pending_discovery.rows().len() == 0,
            r.cached_asks.rows().len() == 0,
            r.rejection_cooldowns.rows().len() == 0,
            r.stale_market_cooldowns.rows().len() == 0,
            r.recovery_exit_cooldowns.rows().len() == 0,
            r.tailend_skip_stats.rows().len() == 0,
            r.signal_veto_stats.rows().len() == 0,
            r.coin_nearest_expiry.rows().len() == 0,
            r.market_reservations.rows().len() == 0,
            r.feed_last_seen.rows().len() == 0,
            r.sl_composite_cache.rows().len() == 0,
            r.position_lifecycle.rows().len() == 0,
            r.exit_orders_by_id.rows().len() == 0,
            r.order_telemetry.total_orders == 0,
            r.order_telemetry.total_fills == 0,
            r.order_telemetry.total_cancels == 0,
            r.order_telemetry.post_only_rejects == 0,
    {
        let coins: Vec<String> = distinct_coins(&config.coins);
        let window: usize = config.performance.window_size;
        CryptoArbRuntime {
            config,
            active_markets: Table::new(),
            price_history: Table::new(),
            boundary_prices: Table::new(),
            positions: Vec::new(),
            pending_orders: Table::new(),
            open_limit_orders: Table::new(),
            pending_discovery: Table::new(),
            spike_events: Vec::new(),
            stats: ModeStats::new(window),
            cached_asks: Table::new(),
            last_dashboard_emit: None,
            last_status_log: None,
            rejection_cooldowns: Table::new(),
            stale_market_cooldowns: Table::new(),
            recovery_exit_cooldowns: Table::new(),
            tailend_skip_stats: Table::new(),
            signal_veto_stats: Table::new(),
            coin_nearest_expiry: Table::new(),
            market_reservations: Table::new(),
            order_telemetry: OrderTelemetry::new(),
            feed_last_seen: Table::new(),
            sl_composite_cache: Table::new(),
            position_lifecycle: Table::new(),
            exit_orders_by_id: Table::new(),
            coins,
            last_event_time: now,
        }
    }

    /// Sets the time of the latest event.
    pub fn update_event_time(&mut self, now: DateTime)
        ensures
            *final(self) == (CryptoArbRuntime { last_event_time: now, ..*old(self) }),
    {
        self.last_event_time = now;
    }

    /// The time of the latest event.
    pub fn event_time(&self) -> (r: DateTime)
        ensures
            r == self.last_event_time,
    {
        self.last_event_time
    }
}

/// A count of seconds as a signed number, the upper half of the range being negative.
pub open spec fn signed(n: u64) -> int {
    if n <= i64::MAX {
        n as int
    } else {
        n - 0x1_0000_0000_0000_0000
    }
}

/// A count of seconds as a signed number, the upper half of the range being negative.
pub fn to_signed(n: u64) -> (r: i64)
    ensures
        r == signed(n),
{
    if n <= 0x7fff_ffff_ffff_ffff {
        n as i64
    } else {
        -((u64::MAX - n) as i64) - 1
    }
}

/// A signed number as an unsigned one, negative numbers being the upper half of the range.
pub open spec fn unsigned(n: i64) -> int {
    if n >= 0 {
        n as int
    } else {
        n + 0x1_0000_0000_0000_0000
    }
}

/// A signed number as an unsigned one, negative numbers being the upper half of the range.
pub fn to_unsigned(n: i64) -> (r: u64)
    ensures
        r == unsigned(n),
{
    if n >= 0 {
        n as u64
    } else {
        u64::MAX - ((-(n + 1)) as u64)
    }
}

/// `n + 1`, staying at the largest number.
pub open spec fn bumped(n: u64) -> u64 {
    if n < u64::MAX {
        (n + 1) as u64
    } else {
        n
    }
}

/// The counters once `key` is counted one more time; a count stays at the largest number.
pub open spec fn counted(rows: Seq<(Seq<char>, u64)>, key: Seq<char>) -> Seq<(Seq<char>, u64)> {
    match lookup(rows, key) {
        Some(n) => stored(rows, key, bumped(n)),
        None => stored(rows, key, 1),
    }
}

/// Counts `key` one more time.
pub fn count_up(counters: &mut Table<u64>, key: &str)
    ensures
        final(counters).rows() == counted(old(counters).rows(), key@),
{
    let n: u64 = match counters.get(key) {
        Some(n) => if *n < u64::MAX {
            *n + 1
        } else {
            *n
        },
        None => 1,
    };
    counters.insert(owned(key), n);
}

} // verus!
