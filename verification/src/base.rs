//! The shared state with the simple stop-loss: sales that are checked on every book, retried
//! on a schedule, and fall back to resting orders.
use crate::config::{ArbitrageConfig, PerformanceConfig, StopLossConfig};
use crate::decimal::{
    Decimal, Overflow, at_most, dec, difference_of, larger, lemma_dec_parts, less, minus, ok_of,
    over, product_of, same, sum_of, times,
};
use crate::domain::lifecycle::{trailing_distance_at, trailing_distance_of};
use crate::domain::market::{CompositePriceResult, MarketWithReference};
use crate::domain::position::{ArbitrageMode, ArbitragePosition, OpenLimitOrder};
use crate::domain::telemetry::{ModeStats, StatsView, StopLossRejectionKind, rejection_kind};
use crate::exchange::{
    Action, ChainQuote, ChainlinkPrice, MarketId, OrderId, OrderRequest, OrderSide, OrderType,
    OrderbookSnapshot, OutcomeSide, SourcedPrice, TokenId,
};
use crate::runtime::{CryptoArbRuntime, PriceEntry, signed, to_signed};
use crate::services::feed::{
    chain_instant, chain_time, price_entry, price_recorded_as, price_taken,
};
use crate::services::market::{
    cancels, in_market, is_winner, nearest_ends, other_positions_stay, outcome_of, outside_market,
    positions_in, settle_outcome, take_limit_orders, take_positions, wins, without_exits,
    without_lifecycles,
};
use crate::services::order::{cooling, is_cancel};
use crate::services::position::{
    find_position, first_position, holds_token, lemma_position_of, position_of, reduction,
    without_token,
};
use crate::services::pricing::{
    composite_cached, composite_of, composite_price, history_of, opt_rows, settlement_of,
    with_price,
};
use crate::table::{
    Table, distinct_keys, dropped, filtering_keeps_what_fits, has_key, kept, lemma_has_row,
    lemma_kept_step, lemma_lookup_dropped, lemma_lookup_stored, lookup, row_of, stored,
};
use crate::text::{owned, same_text};
use crate::time::{
    DateTime, millis_between, secs_between, shifted, shifting_moves_by_seconds,
    whole_millis_have_passed,
};
use crate::value::{
    comparing_compares_values, difference_is_exact, differences_add_up, is_amount, is_within,
    lemma_within_more, max_of, picking_picks_values, quotients_compare, slack,
    small_products_are_exact, small_sums_are_exact, sum_is_exact, sums_add_up, value,
    value_of_parts,
};
use vstd::prelude::*;

verus! {

/// A sale that awaits its confirmation.
#[derive(Clone, Copy, Debug)]
pub struct PendingStopLoss {
    pub exit_price: Decimal,
    pub order_type: OrderType,
}

impl View for PendingStopLoss {
    type V = PendingStopLoss;

    open spec fn view(&self) -> PendingStopLoss {
        *self
    }
}

/// A sale that rests on the book.
#[derive(Debug)]
pub struct GtcStopLossOrder {
    pub order_id: OrderId,
    pub token_id: TokenId,
    pub market_id: MarketId,
    pub price: Decimal,
    pub size: Decimal,
    pub placed_at: DateTime,
}

impl View for GtcStopLossOrder {
    type V = GtcStopLossOrder;

    open spec fn view(&self) -> GtcStopLossOrder {
        *self
    }
}

/// Which stop-loss fired.
#[derive(Clone, Copy, Debug, PartialEq, Eq, Structural)]
pub enum StopLossReason {
    TrailingStop,
    DualTrigger,
}

impl StopLossReason {
    /// Name of the reason.
    pub fn name(self) -> (r: &'static str)
        ensures
            r@ == (match self {
                StopLossReason::TrailingStop => "trailing_stop"@,
                StopLossReason::DualTrigger => "dual_trigger"@,
            }),
    {
        match self {
            StopLossReason::TrailingStop => "trailing_stop",
            StopLossReason::DualTrigger => "dual_trigger",
        }
    }
}

/// Why a stop-loss fired.
#[derive(Clone, Copy, Debug)]
pub struct StopLossTrigger {
    pub reason: StopLossReason,
    pub peak_bid: Decimal,
    /// Trailing distance in force.
    pub effective_distance: Decimal,
    pub time_remaining: i64,
}

/// A sale that a stop-loss asks for.
#[derive(Debug)]
pub struct StopLossOrder {
    pub order: OrderRequest,
    pub exit_price: Decimal,
    pub order_type: OrderType,
    pub trigger: StopLossTrigger,
}

/// The shared state with the simple stop-loss.
#[derive(Debug)]
pub struct CryptoArbBase {
    pub rt: CryptoArbRuntime,
    /// Results by mode.
    pub mode_stats: Table<ModeStats>,
    /// Sales that await their confirmation, by token.
    pub pending_stop_loss: Table<PendingStopLoss>,
    /// When a sale may be tried again, by token.
    pub stop_loss_cooldowns: Table<DateTime>,
    /// Rejected sales in a row, by token.
    pub stop_loss_retry_counts: Table<u32>,
    /// Tokens whose next sale rests on the book.
    pub stop_loss_use_gtc: Table<bool>,
    /// Sales that rest on the book, by order.
    pub gtc_stop_loss_orders: Table<GtcStopLossOrder>,
}

/// The external price has moved against a position by enough; not without a price. `None` is
/// an overflow.
pub open spec fn crypto_reversed_of(rt: CryptoArbRuntime, pos: ArbitragePosition) -> Option<bool> {
    let entries = history_of(rt.price_history.rows(), pos.coin@);
    if entries.len() == 0 {
        Some(false)
    } else {
        let current = entries.last().price;
        let diff = if pos.side.bets_up() {
            minus(Some(pos.reference_price), Some(current))
        } else {
            minus(Some(current), Some(pos.reference_price))
        };
        match over(diff, Some(pos.reference_price)) {
            Some(d) => Some(at_most(rt.config.stop_loss.reversal_pct, d)),
            None => None,
        }
    }
}

/// Whether the trailing stop fires, and the distance in force. `None` is an overflow.
pub open spec fn trailing_fires(
    sl: StopLossConfig,
    pos: ArbitragePosition,
    bid: Decimal,
    time_remaining: i64,
) -> Option<(bool, Decimal)> {
    if !sl.trailing_enabled {
        Some((false, sl.trailing_min_distance))
    } else {
        match sum_of(pos.entry_price, sl.trailing_min_distance) {
            None => None,
            Some(level) => if less(pos.peak_bid, level) {
                Some((false, sl.trailing_min_distance))
            } else {
                match (trailing_distance_of(time_remaining, sl), difference_of(pos.peak_bid, bid)) {
                    (Some(distance), Some(fall)) => Some((at_most(distance, fall), distance)),
                    _ => None,
                }
            },
        }
    }
}

/// The price of a sale: the bid, or some ticks below it, at least one tick, for an order that
/// rests. `None` is an overflow.
pub open spec fn sale_price_of(
    sl: StopLossConfig,
    pos: ArbitragePosition,
    bid: Decimal,
    rests: bool,
) -> Option<Decimal> {
    if rests {
        match minus(
            Some(bid),
            times(Some(pos.tick_size), Some(dec(sl.gtc_fallback_tick_offset as int, 0))),
        ) {
            Some(p) => Some(larger(p, pos.tick_size)),
            None => None,
        }
    } else {
        Some(bid)
    }
}

/// The sale that a stop-loss asks for: not near the market's end, not for dust, and only when
/// the trailing stop fires, or both the external price has reversed and the market price
/// dropped. The outer `None` is an overflow.
pub open spec fn stop_loss_of(
    rt: CryptoArbRuntime,
    rests: bool,
    pos: ArbitragePosition,
    snapshot: OrderbookSnapshot,
    now: DateTime,
) -> Option<Option<StopLossOrder>> {
    let sl = rt.config.stop_loss;
    match lookup(rt.active_markets.rows(), pos.market_id@) {
        None => Some(None),
        Some(m) => {
            let left = secs_between(m.market.end_date, now) as i64;
            if left <= sl.min_remaining_secs || less(pos.size, m.market.min_order_size) {
                Some(None)
            } else {
                match crypto_reversed_of(rt, pos) {
                    None => None,
                    Some(reversed) => match snapshot.bid() {
                        None => Some(None),
                        Some(bid) => match (
                            difference_of(pos.entry_price, bid),
                            trailing_fires(sl, pos, bid, left),
                        ) {
                            (Some(drop), Some((trailing, distance))) => if trailing || (reversed
                                && at_most(sl.min_drop, drop)) {
                                match sale_price_of(sl, pos, bid, rests) {
                                    None => None,
                                    Some(price) => {
                                        let order_type = if rests {
                                            OrderType::Gtc
                                        } else {
                                            OrderType::Fok
                                        };
                                        Some(
                                            Some(
                                                StopLossOrder {
                                                    order: OrderRequest {
                                                        token_id: pos.token_id,
                                                        price,
                                                        size: pos.size,
                                                        side: OrderSide::Sell,
                                                        order_type,
                                                        neg_risk: m.market.neg_risk,
                                                        tick_size: Some(pos.tick_size),
                                                        fee_rate_bps: Some(pos.fee_rate_bps),
                                                        post_only: false,
                                                    },
                                                    exit_price: price,
                                                    order_type,
                                                    trigger: StopLossTrigger {
                                                        reason: if trailing {
                                                            StopLossReason::TrailingStop
                                                        } else {
                                                            StopLossReason::DualTrigger
                                                        },
                                                        peak_bid: pos.peak_bid,
                                                        effective_distance: distance,
                                                        time_remaining: left,
                                                    },
                                                },
                                            ),
                                        )
                                    },
                                }
                            } else {
                                Some(None)
                            },
                            _ => None,
                        },
                    },
                }
            }
        },
    }
}

/// The rows without the tokens of some orders.
pub open spec fn without_tokens<T>(
    rows: Seq<(Seq<char>, T)>,
    orders: Seq<(Seq<char>, GtcStopLossOrder)>,
) -> Seq<(Seq<char>, T)>
    decreases orders.len(),
{
    if orders.len() == 0 {
        rows
    } else {
        dropped(without_tokens(rows, orders.drop_last()), orders.last().1.token_id@)
    }
}

/// The results of positions at a settlement price. `None` is an overflow.
pub open spec fn settled_pnls(gone: Seq<ArbitragePosition>, settle: Option<Decimal>) -> Option<
    Seq<Decimal>,
>
    decreases gone.len(),
{
    if gone.len() == 0 {
        Some(Seq::empty())
    } else {
        match (
            settled_pnls(gone.drop_last(), settle),
            outcome_of(gone.last(), wins(gone.last(), settle)),
        ) {
            (Some(s), Some(p)) => Some(s.push(p)),
            _ => None,
        }
    }
}

proof fn lemma_settled_overflows(gone: Seq<ArbitragePosition>, settle: Option<Decimal>, n: int)
    requires
        0 <= n <= gone.len(),
        settled_pnls(gone.take(n), settle) is None,
    ensures
        settled_pnls(gone, settle) is None,
    decreases gone.len(),
{
    if n < gone.len() {
        assert(gone.drop_last().take(n) =~= gone.take(n));
        lemma_settled_overflows(gone.drop_last(), settle, n);
    } else {
        assert(gone.take(n) =~= gone);
    }
}

/// The results of positions at a settlement price.
pub fn settle_all(gone: &Vec<ArbitragePosition>, settle: Option<Decimal>) -> (r: Result<
    Vec<Decimal>,
    Overflow,
>)
    ensures
        match settled_pnls(gone@, settle) {
            Some(s) => r is Ok && r->Ok_0@ == s,
            None => r is Err,
        },
{
    let mut pnls: Vec<Decimal> = Vec::new();
    let mut i: usize = 0;
    assert(pnls@ =~= Seq::empty());
    while i < gone.len()
        invariant
            i <= gone@.len(),
            settled_pnls(gone@.take(i as int), settle) == Some(pnls@),
        decreases gone@.len() - i,
    {
        assert(gone@.take(i as int + 1).drop_last() =~= gone@.take(i as int));
        match settle_outcome(&gone[i], is_winner(&gone[i], settle)) {
            Ok(d) => {
                pnls.push(d);
            },
            Err(_) => {
                proof {
                    lemma_settled_overflows(gone@, settle, i as int + 1);
                }
                return Err(Overflow);
            },
        }
        i += 1;
    }
    assert(gone@.take(i as int) =~= gone@);
    Ok(pnls)
}

/// A history with one more price; a price that repeats the latest one is left out.
pub open spec fn with_new_price(entries: Seq<PriceEntry>, e: PriceEntry) -> Seq<PriceEntry> {
    if entries.len() > 0 && same(entries.last().price, e.price) {
        entries
    } else {
        with_price(entries, e)
    }
}

/// A price of the oracle's chain was added to a coin's history on a fresh start.
pub open spec fn seeded(
    pre: CryptoArbBase,
    post: CryptoArbBase,
    coin: String,
    answer: ChainlinkPrice,
    now: DateTime,
    source: String,
) -> bool {
    let at = chain_instant(answer, now);
    &&& source@ == "chainlink"@
    &&& post.rt.price_history.rows() == stored(
        pre.rt.price_history.rows(),
        coin@,
        history_of(pre.rt.price_history.rows(), coin@).push(
            price_entry(answer.price, source, at, at),
        ),
    )
    &&& post == (CryptoArbBase {
        rt: CryptoArbRuntime { price_history: post.rt.price_history, ..pre.rt },
        ..pre
    })
}

/// The wait before the next try: by the number of tries so far, the last one of the schedule
/// for every later try, 60 s without a schedule.
pub open spec fn retry_wait(schedule: Seq<u64>, tries: int) -> u64 {
    if schedule.len() == 0 {
        60
    } else if tries <= 1 {
        schedule[0]
    } else if tries - 1 < schedule.len() {
        schedule[tries - 1]
    } else {
        schedule.last()
    }
}

/// The wait before the next try.
pub fn wait_before_retry(schedule: &[u64], tries: u32) -> (r: u64)
    ensures
        r == retry_wait(schedule@, tries as int),
{
    let n: usize = schedule.len();
    if n == 0 {
        60
    } else if tries <= 1 {
        schedule[0]
    } else if ((tries - 1) as usize) < n {
        schedule[(tries - 1) as usize]
    } else {
        schedule[n - 1]
    }
}

/// On a schedule that never shortens, waits never shorten from one try to the next.
pub proof fn waits_do_not_shorten(schedule: Seq<u64>, tries: int)
    requires
        tries >= 1,
        forall|i: int, j: int| 0 <= i <= j < schedule.len() ==> schedule[i] <= schedule[j],
    ensures
        retry_wait(schedule, tries) <= retry_wait(schedule, tries + 1),
{
}

/// The name under which a mode's results are kept; all leaders count together.
pub open spec fn mode_key(mode: ArbitrageMode) -> Seq<char> {
    match mode {
        ArbitrageMode::TailEnd => "TailEnd"@,
        ArbitrageMode::TwoSided => "TwoSided"@,
        ArbitrageMode::Confirmed => "Confirmed"@,
        ArbitrageMode::CrossCorrelated { .. } => "CrossCorrelated"@,
    }
}

/// The name under which a mode's results are kept.
pub fn mode_name(mode: &ArbitrageMode) -> (r: &'static str)
    ensures
        r@ == mode_key(*mode),
{
    match mode {
        ArbitrageMode::TailEnd => "TailEnd",
        ArbitrageMode::TwoSided => "TwoSided",
        ArbitrageMode::Confirmed => "Confirmed",
        ArbitrageMode::CrossCorrelated { .. } => "CrossCorrelated",
    }
}

/// Whether poor results have switched a mode off; not before it has traded. `None` is an
/// overflow.
pub open spec fn mode_disabled_of(stats: Option<StatsView>, perf: PerformanceConfig) -> Option<bool> {
    match stats {
        None => Some(false),
        Some(s) => if !perf.auto_disable || s.won + s.lost < perf.min_trades {
            Some(false)
        } else {
            match s.win_rate() {
                Some(rate) => Some(less(rate, perf.min_win_rate)),
                None => None,
            }
        },
    }
}

/// The figures of a mode, blank before it has traded.
pub open spec fn mode_figures(base: CryptoArbBase, mode: ArbitrageMode) -> StatsView {
    match lookup(base.mode_stats.rows(), mode_key(mode)) {
        Some(s) => s,
        None => StatsView::blank(base.rt.config.performance.window_size as int),
    }
}

/// The books on a market were closed: resting sales and entry orders are cancelled, positions
/// settled and counted.
pub open spec fn base_market_closed(
    pre: CryptoArbBase,
    post: CryptoArbBase,
    market_id: MarketId,
    chain: Option<ChainlinkPrice>,
    r: Result<Vec<Action>, Overflow>,
) -> bool {
    match lookup(pre.rt.active_markets.rows(), market_id@) {
        None => r is Ok && r->Ok_0@.len() == 0 && post == pre,
        Some(m) => {
            let ids = m.market.token_ids;
            let gone = in_market(pre.rt.positions@, market_id@);
            let settle = settlement_of(
                lookup(pre.rt.price_history.rows(), m.coin@),
                m.market.end_date,
                chain,
            );
            let stats = match settled_pnls(gone, settle) {
                Some(pnls) => pre.rt.stats@.recorded_all(pnls),
                None => None,
            };
            let sales = kept(
                pre.gtc_stop_loss_orders.rows(),
                |id: Seq<char>, o: GtcStopLossOrder| o.market_id@ == market_id@,
            );
            let entries = kept(
                pre.rt.open_limit_orders.rows(),
                |id: Seq<char>, lo: OpenLimitOrder| lo.market_id@ == market_id@,
            );
            &&& stats is None ==> r is Err && post == pre
            &&& stats is Some ==> {
                &&& r is Ok
                &&& r->Ok_0@.len() == sales.len() + entries.len() + 1
                &&& cancels(r->Ok_0@.take(sales.len() as int), sales)
                &&& cancels(
                    r->Ok_0@.subrange(sales.len() as int, (sales.len() + entries.len()) as int),
                    entries,
                )
                &&& r->Ok_0@.last() == Action::UnsubscribeMarket(market_id)
                &&& post.gtc_stop_loss_orders.rows() == kept(
                    pre.gtc_stop_loss_orders.rows(),
                    |id: Seq<char>, o: GtcStopLossOrder| o.market_id@ != market_id@,
                )
                &&& post.pending_stop_loss.rows() == without_tokens(
                    pre.pending_stop_loss.rows(),
                    sales,
                )
                &&& post.stop_loss_use_gtc.rows() == without_tokens(
                    pre.stop_loss_use_gtc.rows(),
                    sales,
                )
                &&& post.rt.active_markets.rows() == dropped(
                    pre.rt.active_markets.rows(),
                    market_id@,
                )
                &&& post.rt.cached_asks.rows() == dropped(
                    dropped(pre.rt.cached_asks.rows(), ids.outcome_a@),
                    ids.outcome_b@,
                )
                &&& post.rt.market_reservations.rows() == dropped(
                    pre.rt.market_reservations.rows(),
                    market_id@,
                )
                &&& post.rt.open_limit_orders.rows() == kept(
                    pre.rt.open_limit_orders.rows(),
                    |id: Seq<char>, lo: OpenLimitOrder| lo.market_id@ != market_id@,
                )
                &&& post.rt.positions@ == outside_market(pre.rt.positions@, market_id@)
                &&& post.rt.stats@ == stats->0
                &&& post.rt.position_lifecycle.rows() == without_lifecycles(
                    pre.rt.position_lifecycle.rows(),
                    gone,
                )
                &&& post.rt.exit_orders_by_id.rows() == without_exits(
                    pre.rt.exit_orders_by_id.rows(),
                    gone,
                )
                &&& post.rt.coin_nearest_expiry.rows() == nearest_ends(
                    post.rt.active_markets.rows(),
                )
                &&& post == (CryptoArbBase {
                    gtc_stop_loss_orders: post.gtc_stop_loss_orders,
                    pending_stop_loss: post.pending_stop_loss,
                    stop_loss_use_gtc: post.stop_loss_use_gtc,
                    rt: CryptoArbRuntime {
                        active_markets: post.rt.active_markets,
                        cached_asks: post.rt.cached_asks,
                        market_reservations: post.rt.market_reservations,
                        open_limit_orders: post.rt.open_limit_orders,
                        positions: post.rt.positions,
                        stats: post.rt.stats,
                        position_lifecycle: post.rt.position_lifecycle,
                        exit_orders_by_id: post.rt.exit_orders_by_id,
                        coin_nearest_expiry: post.rt.coin_nearest_expiry,
                        ..pre.rt
                    },
                    ..pre
                })
            }
        },
    }
}

/// What closing a position leaves: the position, its lifecycle and exit orders, and its
/// stop-loss state are gone.
pub open spec fn position_closed(
    pre: CryptoArbBase,
    post: CryptoArbBase,
    token: Seq<char>,
    positions: Seq<ArbitragePosition>,
) -> bool {
    &&& post.rt.positions@ == positions
    &&& post.rt.position_lifecycle.rows() == dropped(pre.rt.position_lifecycle.rows(), token)
    &&& post.rt.exit_orders_by_id.rows() == without_token(pre.rt.exit_orders_by_id.rows(), token)
    &&& post.stop_loss_retry_counts.rows() == dropped(pre.stop_loss_retry_counts.rows(), token)
    &&& post.stop_loss_use_gtc.rows() == dropped(pre.stop_loss_use_gtc.rows(), token)
    &&& post == (CryptoArbBase {
        stop_loss_retry_counts: post.stop_loss_retry_counts,
        stop_loss_use_gtc: post.stop_loss_use_gtc,
        rt: CryptoArbRuntime {
            positions: post.rt.positions,
            position_lifecycle: post.rt.position_lifecycle,
            exit_orders_by_id: post.rt.exit_orders_by_id,
            ..pre.rt
        },
        ..pre
    })
}

/// A rejected sale was noted: dust is dropped; anything else waits by its schedule, and a
/// sale without takers rests next time.
pub open spec fn sale_rejection_noted(
    pre: CryptoArbBase,
    post: CryptoArbBase,
    token: Seq<char>,
    reason: Seq<char>,
    ok: bool,
) -> bool {
    let kind = rejection_kind(reason);
    let sl = pre.rt.config.stop_loss;
    if kind == StopLossRejectionKind::InvalidSize {
        &&& ok
        &&& post.pending_stop_loss.rows() == dropped(pre.pending_stop_loss.rows(), token)
        &&& post.stop_loss_cooldowns.rows() == dropped(pre.stop_loss_cooldowns.rows(), token)
        &&& if holds_token(pre.rt.positions@, token) {
            &&& post.rt.positions@ == pre.rt.positions@.remove(position_of(pre.rt.positions@, token))
            &&& post.rt.position_lifecycle.rows() == dropped(
                pre.rt.position_lifecycle.rows(),
                token,
            )
            &&& post.rt.exit_orders_by_id.rows() == without_token(
                pre.rt.exit_orders_by_id.rows(),
                token,
            )
            &&& post.stop_loss_retry_counts.rows() == dropped(
                dropped(pre.stop_loss_retry_counts.rows(), token),
                token,
            )
            &&& post.stop_loss_use_gtc.rows() == dropped(
                dropped(pre.stop_loss_use_gtc.rows(), token),
                token,
            )
        } else {
            &&& post.rt == pre.rt
            &&& post.stop_loss_retry_counts.rows() == dropped(
                pre.stop_loss_retry_counts.rows(),
                token,
            )
            &&& post.stop_loss_use_gtc.rows() == dropped(pre.stop_loss_use_gtc.rows(), token)
        }
        &&& post == (CryptoArbBase {
            pending_stop_loss: post.pending_stop_loss,
            stop_loss_cooldowns: post.stop_loss_cooldowns,
            stop_loss_retry_counts: post.stop_loss_retry_counts,
            stop_loss_use_gtc: post.stop_loss_use_gtc,
            rt: CryptoArbRuntime {
                positions: post.rt.positions,
                position_lifecycle: post.rt.position_lifecycle,
                exit_orders_by_id: post.rt.exit_orders_by_id,
                ..pre.rt
            },
            ..pre
        })
    } else {
        let count = match lookup(pre.stop_loss_retry_counts.rows(), token) {
            Some(n) => n + 1,
            None => 1,
        };
        let schedule = if kind == StopLossRejectionKind::Liquidity {
            sl.liquidity_cooldowns@
        } else {
            sl.balance_cooldowns@
        };
        let until = shifted(pre.rt.last_event_time, signed(retry_wait(schedule, count)));
        if count > u32::MAX || until is None {
            !ok && post == pre
        } else {
            &&& ok
            &&& post.pending_stop_loss.rows() == dropped(pre.pending_stop_loss.rows(), token)
            &&& post.stop_loss_retry_counts.rows() == stored(
                pre.stop_loss_retry_counts.rows(),
                token,
                count as u32,
            )
            &&& post.stop_loss_use_gtc.rows() == (if kind == StopLossRejectionKind::Liquidity
                && sl.gtc_fallback {
                stored(pre.stop_loss_use_gtc.rows(), token, true)
            } else {
                pre.stop_loss_use_gtc.rows()
            })
            &&& post.stop_loss_cooldowns.rows() == stored(
                pre.stop_loss_cooldowns.rows(),
                token,
                until->0,
            )
            &&& post == (CryptoArbBase {
                pending_stop_loss: post.pending_stop_loss,
                stop_loss_cooldowns: post.stop_loss_cooldowns,
                stop_loss_retry_counts: post.stop_loss_retry_counts,
                stop_loss_use_gtc: post.stop_loss_use_gtc,
                ..pre
            })
        }
    }
}

impl CryptoArbBase {
    /// The state at the start.
    pub fn new(config: ArbitrageConfig, now: DateTime) -> (r: Self)
        ensures
            call_ensures(CryptoArbRuntime::new, (config, now), r.rt),
            r.mode_stats.rows().len() == 0,
            r.pending_stop_loss.rows().len() == 0,
            r.stop_loss_cooldowns.rows().len() == 0,
            r.stop_loss_retry_counts.rows().len() == 0,
            r.stop_loss_use_gtc.rows().len() == 0,
            r.gtc_stop_loss_orders.rows().len() == 0,
    {
        CryptoArbBase {
            rt: CryptoArbRuntime::new(config, now),
            mode_stats: Table::new(),
            pending_stop_loss: Table::new(),
            stop_loss_cooldowns: Table::new(),
            stop_loss_retry_counts: Table::new(),
            stop_loss_use_gtc: Table::new(),
            gtc_stop_loss_orders: Table::new(),
        }
    }

    /// Records a price; one that repeats the latest price of its coin is not recorded again.
    pub fn record_price(
        &mut self,
        symbol: &String,
        price: Decimal,
        source: &String,
        now: DateTime,
        quotes: &Vec<ChainQuote>,
    ) -> (r: (Result<Option<Decimal>, Overflow>, Vec<Action>))
        ensures
            price_recorded_as(
                old(self).rt,
                final(self).rt,
                with_new_price(
                    history_of(old(self).rt.price_history.rows(), symbol@),
                    price_entry(price, *source, now, now),
                ),
                *symbol,
                price,
                *source,
                now,
                quotes@,
                r.0,
                r.1@,
            ),
            *final(self) == (CryptoArbBase { rt: final(self).rt, ..*old(self) }),
    {
        let ghost entries = history_of(self.rt.price_history.rows(), symbol@);
        let repeated: Option<usize> = match self.rt.price_history.get(symbol.as_str()) {
            Some(v) => {
                let n: usize = v.len();
                if n > 0 && v[n - 1].price.same_as(price) {
                    Some(n)
                } else {
                    None
                }
            },
            None => None,
        };
        self.rt.feed_last_seen.insert(source.clone(), now);
        let count: usize = match repeated {
            Some(n) => {
                proof {
                    lemma_store_same(self.rt.price_history.rows(), symbol@);
                }
                n
            },
            None => {
                let n: usize = self.rt.add_to_history(symbol.as_str(), price, source, now, now);
                proof {
                    lemma_lookup_stored(
                        old(self).rt.price_history.rows(),
                        symbol@,
                        with_price(entries, price_entry(price, *source, now, now)),
                        symbol@,
                    );
                }
                n
            },
        };
        assert(price_taken(old(self).rt, self.rt, *symbol, *source, now));
        self.rt.apply_price(symbol, price, source, now, quotes, count)
    }

    /// Records what the oracle's chain answered for a window on a fresh start: it comes last
    /// in the coin's history, as of when the chain saw it.
    pub fn warm_up(&mut self, coin: &String, answer: ChainlinkPrice, now: DateTime)
        ensures
            exists|source: String| #[trigger]
                seeded(*old(self), *final(self), *coin, answer, now, source),
    {
        let ts: DateTime = chain_time(answer, now);
        let source: String = owned("chainlink");
        let entry = PriceEntry {
            received_at: ts,
            price: answer.price,
            source: source.clone(),
            source_ts: ts,
        };
        let i: usize = self.rt.price_history.find(coin.as_str());
        if i < self.rt.price_history.len() {
            let ghost before = self.rt.price_history.rows();
            let mut list: Vec<PriceEntry> = self.rt.price_history.replace_at(i, Vec::new());
            list.push(entry);
            self.rt.price_history.set_at(i, list);
            assert(self.rt.price_history.rows() =~= before.update(
                i as int,
                (before[i as int].0, before[i as int].1.push(entry)),
            ));
        } else {
            let mut list: Vec<PriceEntry> = Vec::new();
            assert(list@ =~= Seq::empty());
            list.push(entry);
            self.rt.price_history.insert(coin.clone(), list);
        }
        assert(seeded(*old(self), *self, *coin, answer, now, source));
    }

    /// The latest price of a coin, when it came in recently enough.
    pub fn get_sl_single_fresh(&self, coin: &str, max_age_ms: i64, now: DateTime) -> (r: Option<
        Decimal,
    >)
        ensures
            ({
                let s = history_of(self.rt.price_history.rows(), coin@);
                r == (if s.len() > 0 && millis_between(now, s.last().received_at) <= max_age_ms {
                    Some(s.last().price)
                } else {
                    None
                })
            }),
            ({
                let s = history_of(self.rt.price_history.rows(), coin@);
                let age = now.nanos_of() - s.last().received_at.nanos_of();
                s.len() > 0 && max_age_ms >= 0 ==> (r == Some(s.last().price) <==> age < (max_age_ms
                    + 1) * 1_000_000)
            }),
    {
        match self.rt.price_history.get(coin) {
            Some(v) => {
                let n: usize = v.len();
                proof {
                    if n > 0 {
                        whole_millis_have_passed(now, v@.last().received_at);
                        whole_millis_have_passed(v@.last().received_at, now);
                    }
                }
                if n > 0 && now.millis_since(v[n - 1].received_at) <= max_age_ms {
                    Some(v[n - 1].price)
                } else {
                    None
                }
            },
            None => None,
        }
    }

    /// The composite price of a coin's feeds; nothing when there are too few.
    pub fn composite_fair_price(
        &self,
        sources: Option<&Table<SourcedPrice>>,
        now: DateTime,
        max_stale_secs: i64,
        min_sources: usize,
        max_dispersion_bps: Decimal,
    ) -> (r: Result<Option<CompositePriceResult>, Overflow>)
        ensures
            ok_of(r) == (match sources {
                None => Some(None),
                Some(t) => composite_of(
                    t.rows(),
                    now,
                    max_stale_secs as int,
                    min_sources as int,
                    max_dispersion_bps,
                    false,
                ),
            }),
    {
        match sources {
            None => Ok(None),
            Some(t) => composite_price(
                t,
                now,
                max_stale_secs,
                min_sources,
                max_dispersion_bps,
                false,
            ),
        }
    }

    /// Recomputes the composite price that stop-losses use, and passes it on to the
    /// lifecycles of the coin's positions.
    pub fn update_sl_composite_cache(
        &mut self,
        coin: &str,
        sources: Option<&Table<SourcedPrice>>,
        now: DateTime,
    ) -> (r: Result<(), Overflow>)
        ensures
            composite_cached(
                old(self).rt,
                final(self).rt,
                coin@,
                opt_rows(sources),
                now,
                false,
                r is Ok,
            ),
            *final(self) == (CryptoArbBase { rt: final(self).rt, ..*old(self) }),
    {
        self.rt.renew_composite(coin, sources, now, false)
    }

    /// Takes out the first position with a token, its lifecycle and its stop-loss state.
    pub fn remove_position_by_token(&mut self, token_id: &str) -> (r: Option<ArbitragePosition>)
        ensures
            r is Some <==> holds_token(old(self).rt.positions@, token_id@),
            r is None ==> *final(self) == *old(self),
            r is Some ==> {
                let i = position_of(old(self).rt.positions@, token_id@);
                &&& r->0 == old(self).rt.positions@[i]
                &&& position_closed(
                    *old(self),
                    *final(self),
                    token_id@,
                    old(self).rt.positions@.remove(i),
                )
            },
    {
        match self.rt.remove_position_by_token(token_id) {
            None => None,
            Some(pos) => {
                let _ = self.stop_loss_retry_counts.remove(token_id);
                let _ = self.stop_loss_use_gtc.remove(token_id);
                Some(pos)
            },
        }
    }

    /// Takes shares off the first position with a token; a closed position takes its
    /// lifecycle and stop-loss state along. Gives back the position as it was, and whether it
    /// is closed.
    pub fn reduce_or_remove_position_by_token(&mut self, token_id: &str, fill_size: Decimal) -> (r:
        Result<Option<(ArbitragePosition, bool)>, Overflow>)
        ensures
            match reduction(old(self).rt.positions@, token_id@, fill_size) {
                None => r is Err && *final(self) == *old(self),
                Some(None) => r == Ok::<Option<(ArbitragePosition, bool)>, Overflow>(None)
                    && *final(self) == *old(self),
                Some(Some((left, snapshot, closed))) => {
                    &&& r == Ok::<Option<(ArbitragePosition, bool)>, Overflow>(
                        Some((snapshot, closed)),
                    )
                    &&& closed ==> position_closed(*old(self), *final(self), token_id@, left)
                    &&& !closed ==> final(self).rt.positions@ == left && *final(self) == (
                    CryptoArbBase {
                        rt: CryptoArbRuntime { positions: final(self).rt.positions, ..old(self).rt },
                        ..*old(self)
                    })
                },
            },
    {
        let r: Option<(ArbitragePosition, bool)> =
            self.rt.reduce_or_remove_position_by_token(token_id, fill_size)?;
        match &r {
            Some((_, true)) => {
                let _ = self.stop_loss_retry_counts.remove(token_id);
                let _ = self.stop_loss_use_gtc.remove(token_id);
            },
            _ => {},
        }
        Ok(r)
    }

    /// Whether the external price has moved against a position by enough.
    fn crypto_reversed(&self, pos: &ArbitragePosition) -> (r: Result<bool, Overflow>)
        ensures
            ok_of(r) == crypto_reversed_of(self.rt, *pos),
    {
        match self.rt.get_latest_price(pos.coin.as_str()) {
            None => Ok(false),
            Some(current) => {
                let diff: Decimal = if pos.side.is_up() {
                    pos.reference_price.minus(current)?
                } else {
                    current.minus(pos.reference_price)?
                };
                let reversal: Decimal = diff.over(pos.reference_price)?;
                Ok(reversal.ge(self.rt.config.stop_loss.reversal_pct))
            },
        }
    }

    /// Whether the trailing stop fires, and the distance in force.
    fn trailing_check(&self, pos: &ArbitragePosition, bid: Decimal, time_remaining: i64) -> (r:
        Result<(bool, Decimal), Overflow>)
        ensures
            ok_of(r) == trailing_fires(self.rt.config.stop_loss, *pos, bid, time_remaining),
    {
        let sl = &self.rt.config.stop_loss;
        if !sl.trailing_enabled {
            return Ok((false, sl.trailing_min_distance));
        }
        let level: Decimal = pos.entry_price.plus(sl.trailing_min_distance)?;
        if pos.peak_bid.lt(level) {
            return Ok((false, sl.trailing_min_distance));
        }
        let distance: Decimal = trailing_distance_at(time_remaining, sl)?;
        let fall: Decimal = pos.peak_bid.minus(bid)?;
        Ok((fall.ge(distance), distance))
    }

    /// The sale that a stop-loss asks for, if any. A sale that rests uses up the mark that
    /// asked for it.
    pub fn check_stop_loss(
        &mut self,
        pos: &ArbitragePosition,
        snapshot: &OrderbookSnapshot,
        now: DateTime,
    ) -> (r: Result<Option<StopLossOrder>, Overflow>)
        ensures
            ok_of(r) == stop_loss_of(
                old(self).rt,
                has_key(old(self).stop_loss_use_gtc.rows(), pos.token_id@),
                *pos,
                *snapshot,
                now,
            ),
            r is Ok && r->Ok_0 is Some ==> final(self).stop_loss_use_gtc.rows() == dropped(
                old(self).stop_loss_use_gtc.rows(),
                pos.token_id@,
            ),
            !(r is Ok && r->Ok_0 is Some) ==> *final(self) == *old(self),
            *final(self) == (CryptoArbBase {
                stop_loss_use_gtc: final(self).stop_loss_use_gtc,
                ..*old(self)
            }),
    {
        let (left, neg_risk, min_order_size): (i64, bool, Decimal) =
            match self.rt.active_markets.get(pos.market_id.as_str()) {
            None => {
                return Ok(None);
            },
            Some(m) => (
                m.market.seconds_remaining_at(now),
                m.market.neg_risk,
                m.market.min_order_size,
            ),
        };
        if left <= self.rt.config.stop_loss.min_remaining_secs || pos.size.lt(min_order_size) {
            return Ok(None);
        }
        let reversed: bool = self.crypto_reversed(pos)?;
        let bid: Decimal = match snapshot.best_bid() {
            None => {
                return Ok(None);
            },
            Some(b) => b,
        };
        let drop: Decimal = pos.entry_price.minus(bid)?;
        let (trailing, distance): (bool, Decimal) = self.trailing_check(pos, bid, left)?;
        if !(trailing || (reversed && drop.ge(self.rt.config.stop_loss.min_drop))) {
            return Ok(None);
        }
        let rests: bool = self.stop_loss_use_gtc.contains_key(pos.token_id.as_str());
        let (order_type, price): (OrderType, Decimal) = if rests {
            let offset: Decimal = Decimal::from_u64(
                self.rt.config.stop_loss.gtc_fallback_tick_offset as u64,
            );
            (OrderType::Gtc, bid.minus(pos.tick_size.times(offset)?)?.max(pos.tick_size))
        } else {
            (OrderType::Fok, bid)
        };
        let _ = self.stop_loss_use_gtc.remove(pos.token_id.as_str());
        let order = OrderRequest::new(
            pos.token_id.clone(),
            price,
            pos.size,
            OrderSide::Sell,
            order_type,
            neg_risk,
        ).with_tick_size(pos.tick_size).with_fee_rate_bps(pos.fee_rate_bps);
        let reason: StopLossReason = if trailing {
            StopLossReason::TrailingStop
        } else {
            StopLossReason::DualTrigger
        };
        Ok(
            Some(
                StopLossOrder {
                    order,
                    exit_price: price,
                    order_type,
                    trigger: StopLossTrigger {
                        reason,
                        peak_bid: pos.peak_bid,
                        effective_distance: distance,
                        time_remaining: left,
                    },
                },
            ),
        )
    }

    /// Starts the wait of a token after a rejected sale.
    pub fn record_stop_loss_cooldown(&mut self, token_id: &str, cooldown_secs: u64) -> (r: Result<
        (),
        Overflow,
    >)
        ensures
            match shifted(old(self).rt.last_event_time, signed(cooldown_secs)) {
                None => r is Err && *final(self) == *old(self),
                Some(until) => r is Ok && final(self).stop_loss_cooldowns.rows() == stored(
                    old(self).stop_loss_cooldowns.rows(),
                    token_id@,
                    until,
                ),
            },
            r is Ok && cooldown_secs <= i64::MAX ==> lookup(
                final(self).stop_loss_cooldowns.rows(),
                token_id@,
            ) is Some && lookup(final(self).stop_loss_cooldowns.rows(), token_id@)->0.nanos_of()
                == old(self).rt.last_event_time.nanos_of() + cooldown_secs * 1_000_000_000,
            *final(self) == (CryptoArbBase {
                stop_loss_cooldowns: final(self).stop_loss_cooldowns,
                ..*old(self)
            }),
    {
        match self.rt.last_event_time.plus_secs(to_signed(cooldown_secs)) {
            None => Err(Overflow),
            Some(until) => {
                proof {
                    shifting_moves_by_seconds(self.rt.last_event_time, signed(cooldown_secs));
                    lemma_lookup_stored(
                        self.stop_loss_cooldowns.rows(),
                        token_id@,
                        until,
                        token_id@,
                    );
                }
                self.stop_loss_cooldowns.insert(owned(token_id), until);
                Ok(())
            },
        }
    }

    /// Whether a token waits after a rejected sale.
    pub fn is_stop_loss_cooled_down(&self, token_id: &str) -> (r: bool)
        ensures
            r == cooling(self.stop_loss_cooldowns.rows(), token_id@, self.rt.last_event_time),
    {
        match self.stop_loss_cooldowns.get(token_id) {
            Some(until) => self.rt.last_event_time.before(*until),
            None => false,
        }
    }

    /// Starts a cooldown of a market after an exit.
    pub fn record_recovery_exit_cooldown(&mut self, market_id: &str) -> (r: Result<(), Overflow>)
        ensures
            match shifted(
                old(self).rt.last_event_time,
                old(self).rt.config.stop_loss.reentry_cooldown_secs as int,
            ) {
                None => r is Err && *final(self) == *old(self),
                Some(until) => r is Ok && final(self).rt.recovery_exit_cooldowns.rows() == stored(
                    old(self).rt.recovery_exit_cooldowns.rows(),
                    market_id@,
                    until,
                ),
            },
            r is Ok ==> lookup(final(self).rt.recovery_exit_cooldowns.rows(), market_id@) is Some
                && lookup(
                final(self).rt.recovery_exit_cooldowns.rows(),
                market_id@,
            )->0.nanos_of() == old(self).rt.last_event_time.nanos_of() + old(
                self,
            ).rt.config.stop_loss.reentry_cooldown_secs * 1_000_000_000,
            *final(self) == (CryptoArbBase {
                rt: CryptoArbRuntime {
                    recovery_exit_cooldowns: final(self).rt.recovery_exit_cooldowns,
                    ..old(self).rt
                },
                ..*old(self)
            }),
    {
        match self.rt.last_event_time.plus_secs(self.rt.config.stop_loss.reentry_cooldown_secs) {
            None => Err(Overflow),
            Some(until) => {
                proof {
                    shifting_moves_by_seconds(
                        self.rt.last_event_time,
                        self.rt.config.stop_loss.reentry_cooldown_secs as int,
                    );
                    lemma_lookup_stored(
                        self.rt.recovery_exit_cooldowns.rows(),
                        market_id@,
                        until,
                        market_id@,
                    );
                }
                self.rt.recovery_exit_cooldowns.insert(owned(market_id), until);
                Ok(())
            },
        }
    }

    /// Takes note of a rejected sale. An error, with nothing changed, where the retries or
    /// the wait leave their range.
    pub fn handle_stop_loss_rejection(&mut self, token_id: &str, reason: &str) -> (r: Result<
        (),
        Overflow,
    >)
        ensures
            sale_rejection_noted(*old(self), *final(self), token_id@, reason@, r is Ok),
    {
        let kind: StopLossRejectionKind = StopLossRejectionKind::classify(reason);
        if kind == StopLossRejectionKind::InvalidSize {
            let _ = self.pending_stop_loss.remove(token_id);
            match find_position(&self.rt.positions, token_id) {
                Some(i) => {
                    let size: Decimal = self.rt.positions[i].size;
                    let _ = self.reduce_or_remove_position_by_token(token_id, size);
                },
                None => {},
            }
            let _ = self.stop_loss_retry_counts.remove(token_id);
            let _ = self.stop_loss_cooldowns.remove(token_id);
            let _ = self.stop_loss_use_gtc.remove(token_id);
            return Ok(());
        }
        let before: u32 = match self.stop_loss_retry_counts.get(token_id) {
            Some(n) => *n,
            None => 0,
        };
        if before == u32::MAX {
            return Err(Overflow);
        }
        let count: u32 = before + 1;
        let schedule: &[u64] = kind.cooldown_schedule(
            self.rt.config.stop_loss.liquidity_cooldowns.as_slice(),
            self.rt.config.stop_loss.balance_cooldowns.as_slice(),
        );
        let wait: u64 = wait_before_retry(schedule, count);
        self.record_stop_loss_cooldown(token_id, wait)?;
        let _ = self.pending_stop_loss.remove(token_id);
        self.stop_loss_retry_counts.insert(owned(token_id), count);
        if kind == StopLossRejectionKind::Liquidity && self.rt.config.stop_loss.gtc_fallback {
            self.stop_loss_use_gtc.insert(owned(token_id), true);
        }
        Ok(())
    }

    /// Takes the resting sales of a market out, with what is noted of their tokens, and asks
    /// for their cancel.
    fn take_resting_sales(&mut self, market_id: &str) -> (r: Vec<Action>)
        ensures
            ({
                let rows = old(self).gtc_stop_loss_orders.rows();
                let sales = kept(
                    rows,
                    |id: Seq<char>, o: GtcStopLossOrder| o.market_id@ == market_id@,
                );
                &&& cancels(r@, sales)
                &&& final(self).gtc_stop_loss_orders.rows() == kept(
                    rows,
                    |id: Seq<char>, o: GtcStopLossOrder| o.market_id@ != market_id@,
                )
                &&& final(self).pending_stop_loss.rows() == without_tokens(
                    old(self).pending_stop_loss.rows(),
                    sales,
                )
                &&& final(self).stop_loss_use_gtc.rows() == without_tokens(
                    old(self).stop_loss_use_gtc.rows(),
                    sales,
                )
            }),
            *final(self) == (CryptoArbBase {
                gtc_stop_loss_orders: final(self).gtc_stop_loss_orders,
                pending_stop_loss: final(self).pending_stop_loss,
                stop_loss_use_gtc: final(self).stop_loss_use_gtc,
                ..*old(self)
            }),
    {
        let ghost rows = self.gtc_stop_loss_orders.rows();
        let ghost stay = |id: Seq<char>, o: GtcStopLossOrder| o.market_id@ != market_id@;
        let ghost go = |id: Seq<char>, o: GtcStopLossOrder| o.market_id@ == market_id@;
        let ghost done: int = 0;
        let mut r: Vec<Action> = Vec::new();
        let mut i: usize = 0;
        assert(kept(rows.take(0), stay) =~= Seq::empty());
        assert(kept(rows.take(0), go) =~= Seq::empty());
        while i < self.gtc_stop_loss_orders.len()
            invariant
                0 <= done <= rows.len(),
                i <= done,
                stay == (|id: Seq<char>, o: GtcStopLossOrder| o.market_id@ != market_id@),
                go == (|id: Seq<char>, o: GtcStopLossOrder| o.market_id@ == market_id@),
                self.gtc_stop_loss_orders.rows() =~= kept(rows.take(done), stay) + rows.skip(done),
                i == kept(rows.take(done), stay).len(),
                cancels(r@, kept(rows.take(done), go)),
                self.pending_stop_loss.rows() == without_tokens(
                    old(self).pending_stop_loss.rows(),
                    kept(rows.take(done), go),
                ),
                self.stop_loss_use_gtc.rows() == without_tokens(
                    old(self).stop_loss_use_gtc.rows(),
                    kept(rows.take(done), go),
                ),
                *self == (CryptoArbBase {
                    gtc_stop_loss_orders: self.gtc_stop_loss_orders,
                    pending_stop_loss: self.pending_stop_loss,
                    stop_loss_use_gtc: self.stop_loss_use_gtc,
                    ..*old(self)
                }),
            decreases rows.len() - done,
        {
            let ghost gone = kept(rows.take(done), go);
            proof {
                lemma_kept_step(rows, stay, done);
                lemma_kept_step(rows, go, done);
                assert(rows.skip(done)[0] == rows[done]);
                assert(gone.push(rows[done]).drop_last() =~= gone);
            }
            if same_text(self.gtc_stop_loss_orders.value_at(i).market_id.as_str(), market_id) {
                r.push(Action::CancelOrder(self.gtc_stop_loss_orders.key_at(i).clone()));
                let o: GtcStopLossOrder = self.gtc_stop_loss_orders.remove_at(i);
                let _ = self.pending_stop_loss.remove(o.token_id.as_str());
                let _ = self.stop_loss_use_gtc.remove(o.token_id.as_str());
            } else {
                i += 1;
            }
            proof {
                done = done + 1;
            }
        }
        assert(rows.take(rows.len() as int) =~= rows);
        r
    }

    /// Closes the books on a market. An error, with nothing changed, where the arithmetic
    /// leaves its range.
    pub fn on_market_expired(&mut self, market_id: &MarketId, chain: Option<ChainlinkPrice>) -> (r:
        Result<Vec<Action>, Overflow>)
        ensures
            base_market_closed(*old(self), *final(self), *market_id, chain, r),
    {
        let m: MarketWithReference = match self.rt.active_markets.get(market_id.as_str()) {
            None => {
                return Ok(Vec::new());
            },
            Some(m) => m.clone(),
        };
        let gone: Vec<ArbitragePosition> = positions_in(&self.rt.positions, market_id.as_str());
        let settle: Option<Decimal> = self.rt.get_settlement_price(
            m.coin.as_str(),
            m.market.end_date,
            chain,
        );
        let pnls: Vec<Decimal> = settle_all(&gone, settle)?;
        let stats: ModeStats = self.rt.stats.after_all(&pnls)?;
        let _ = self.rt.active_markets.remove(market_id.as_str());
        let _ = self.rt.cached_asks.remove(m.market.token_ids.outcome_a.as_str());
        let _ = self.rt.cached_asks.remove(m.market.token_ids.outcome_b.as_str());
        let _ = self.rt.market_reservations.remove(market_id.as_str());
        let mut actions: Vec<Action> = self.take_resting_sales(market_id.as_str());
        let mut more: Vec<Action> = take_limit_orders(
            &mut self.rt.open_limit_orders,
            market_id.as_str(),
        );
        let ghost first = actions@;
        let ghost second = more@;
        actions.append(&mut more);
        actions.push(Action::UnsubscribeMarket(market_id.clone()));
        assert(actions@.take(first.len() as int) =~= first);
        assert(actions@.subrange(first.len() as int, (first.len() + second.len()) as int)
            =~= second);
        let _ = take_positions(&mut self.rt.positions, market_id.as_str());
        self.rt.stats = stats;
        let ghost mid = *self;
        let mut i: usize = 0;
        while i < gone.len()
            invariant
                i <= gone@.len(),
                self.rt.position_lifecycle.rows() == without_lifecycles(
                    mid.rt.position_lifecycle.rows(),
                    gone@.take(i as int),
                ),
                self.rt.exit_orders_by_id.rows() == without_exits(
                    mid.rt.exit_orders_by_id.rows(),
                    gone@.take(i as int),
                ),
                *self == (CryptoArbBase {
                    rt: CryptoArbRuntime {
                        position_lifecycle: self.rt.position_lifecycle,
                        exit_orders_by_id: self.rt.exit_orders_by_id,
                        ..mid.rt
                    },
                    ..mid
                }),
            decreases gone@.len() - i,
        {
            assert(gone@.take(i as int + 1).drop_last() =~= gone@.take(i as int));
            self.rt.remove_lifecycle(gone[i].token_id.as_str());
            i += 1;
        }
        assert(gone@.take(i as int) =~= gone@);
        self.rt.rebuild_nearest_expiry();
        Ok(actions)
    }

    /// Whether poor results have switched a mode off.
    pub fn is_mode_disabled(&self, mode: &ArbitrageMode) -> (r: Result<bool, Overflow>)
        ensures
            ok_of(r) == mode_disabled_of(
                lookup(self.mode_stats.rows(), mode_key(*mode)),
                self.rt.config.performance,
            ),
    {
        match self.mode_stats.get(mode_name(mode)) {
            None => Ok(false),
            Some(s) => {
                if !self.rt.config.performance.auto_disable || s.total_trades_or_max()
                    < self.rt.config.performance.min_trades {
                    return Ok(false);
                }
                let rate: Decimal = s.win_rate()?;
                Ok(rate.lt(self.rt.config.performance.min_win_rate))
            },
        }
    }

    /// Counts the result of a trade of a mode. An error, with nothing changed, where a figure
    /// leaves its range.
    pub fn record_trade_pnl(&mut self, mode: &ArbitrageMode, pnl: Decimal) -> (r: Result<(), Overflow>)
        ensures
            match mode_figures(*old(self), *mode).recorded(pnl) {
                None => r is Err && *final(self) == *old(self),
                Some(s) => r is Ok && final(self).mode_stats.rows() == stored(
                    old(self).mode_stats.rows(),
                    mode_key(*mode),
                    s,
                ),
            },
            *final(self) == (CryptoArbBase { mode_stats: final(self).mode_stats, ..*old(self) }),
    {
        let name: &str = mode_name(mode);
        let mut stats: ModeStats = match self.mode_stats.get(name) {
            Some(s) => s.clone(),
            None => ModeStats::new(self.rt.config.performance.window_size),
        };
        stats.record(pnl)?;
        self.mode_stats.insert(owned(name), stats);
        Ok(())
    }
}

/// Putting a value back under its own key changes nothing.
proof fn lemma_store_same<T>(rows: Seq<(Seq<char>, T)>, k: Seq<char>)
    requires
        lookup(rows, k) is Some,
    ensures
        stored(rows, k, lookup(rows, k)->0) == rows,
{
    lemma_has_row(rows, k);
    let i = row_of(rows, k);
    assert(rows.update(i, (k, rows[i].1)) =~= rows);
}

/// A position reverses where the external price has moved against its side by at least a share of
/// the reference: below it for a bet on a rise, above it for a bet on a fall; never by a move in
/// its favour, for a positive share. The 28th digit is left to rounding.
pub proof fn a_position_reverses_against_its_side(
    rt: CryptoArbRuntime,
    pos: ArbitragePosition,
    prices: Seq<PriceEntry>,
)
    requires
        lookup(rt.price_history.rows(), pos.coin@) == Some(prices),
        prices.len() > 0,
        crypto_reversed_of(rt, pos) is Some,
        value(pos.reference_price) > 0 as real,
        difference_is_exact(pos.reference_price, prices.last().price),
        difference_is_exact(prices.last().price, pos.reference_price),
    ensures
        ({
            let (reference, current) = (value(pos.reference_price), value(prices.last().price));
            let up = pos.side == OutcomeSide::Up || pos.side == OutcomeSide::Yes;
            let adverse = if up {
                reference - current
            } else {
                current - reference
            };
            let share = value(rt.config.stop_loss.reversal_pct);
            let reversed = crypto_reversed_of(rt, pos)->0;
            &&& reversed ==> adverse >= reference * (share - slack(share))
            &&& adverse >= reference * (share + slack(share)) ==> reversed
            &&& share > 0 as real && adverse <= 0 as real ==> !reversed
        }),
{
    let current = prices.last().price;
    let reference = pos.reference_price;
    let diff = if pos.side.bets_up() {
        difference_of(reference, current)->0
    } else {
        difference_of(current, reference)->0
    };
    differences_add_up(reference, current);
    differences_add_up(current, reference);
    quotients_compare(diff, reference, rt.config.stop_loss.reversal_pct);
}

/// The trailing stop fires where it is on, the highest bid has reached the entry price plus the
/// least distance, and the bid has fallen from it by at least the distance in force; and not
/// otherwise.
pub proof fn a_trailing_stop_follows_the_highest_bid(
    sl: StopLossConfig,
    pos: ArbitragePosition,
    bid: Decimal,
    time_remaining: i64,
    distance: Decimal,
)
    requires
        trailing_distance_of(time_remaining, sl) == Some(distance),
        sum_is_exact(pos.entry_price, sl.trailing_min_distance),
        difference_is_exact(pos.peak_bid, bid),
    ensures
        ({
            let out = trailing_fires(sl, pos, bid, time_remaining);
            let armed = value(pos.peak_bid) >= value(pos.entry_price) + value(
                sl.trailing_min_distance,
            );
            let fall = value(pos.peak_bid) - value(bid);
            out is Some && ((out->0).0 <==> sl.trailing_enabled && armed && fall >= value(distance))
        }),
{
    sums_add_up(pos.entry_price, sl.trailing_min_distance);
    differences_add_up(pos.peak_bid, bid);
    comparing_compares_values(
        pos.peak_bid,
        sum_of(pos.entry_price, sl.trailing_min_distance)->0,
    );
    comparing_compares_values(distance, difference_of(pos.peak_bid, bid)->0);
}

/// A stop-loss sells the whole position: with more time left than the least and no less than the
/// least order, where the trailing stop fires, or the external price has moved against the side
/// and the bid has dropped below the entry price, each by at least the configured size; and not
/// otherwise. It sells at the bid at once, or, where the sale is to rest, some ticks below it but
/// not below one tick.
pub proof fn a_stop_loss_sells_the_position(
    rt: CryptoArbRuntime,
    rests: bool,
    pos: ArbitragePosition,
    snapshot: OrderbookSnapshot,
    now: DateTime,
    m: MarketWithReference,
    prices: Seq<PriceEntry>,
    distance: Decimal,
)
    requires
        stop_loss_of(rt, rests, pos, snapshot, now) is Some,
        lookup(rt.active_markets.rows(), pos.market_id@) == Some(m),
        lookup(rt.price_history.rows(), pos.coin@) == Some(prices),
        prices.len() > 0,
        snapshot.bids@.len() > 0,
        i64::MIN <= secs_between(m.market.end_date, now) <= i64::MAX,
        trailing_distance_of(secs_between(m.market.end_date, now) as i64, rt.config.stop_loss)
            == Some(distance),
        value(pos.reference_price) > 0 as real,
        difference_is_exact(pos.reference_price, prices.last().price),
        difference_is_exact(prices.last().price, pos.reference_price),
        difference_is_exact(pos.entry_price, snapshot.bids@[0].price),
        sum_is_exact(pos.entry_price, rt.config.stop_loss.trailing_min_distance),
        difference_is_exact(pos.peak_bid, snapshot.bids@[0].price),
        is_amount(snapshot.bids@[0].price),
        is_amount(pos.tick_size),
        rt.config.stop_loss.gtc_fallback_tick_offset <= 1_000_000,
    ensures
        ({
            let sale = stop_loss_of(rt, rests, pos, snapshot, now)->0;
            let sl = rt.config.stop_loss;
            let bid = value(snapshot.bids@[0].price);
            let open = secs_between(m.market.end_date, now) > sl.min_remaining_secs && value(
                pos.size,
            ) >= value(m.market.min_order_size);
            let (reference, current) = (value(pos.reference_price), value(prices.last().price));
            let up = pos.side == OutcomeSide::Up || pos.side == OutcomeSide::Yes;
            let adverse = if up {
                reference - current
            } else {
                current - reference
            };
            let share = value(sl.reversal_pct);
            let dropped_enough = value(pos.entry_price) - bid >= value(sl.min_drop);
            let trails = sl.trailing_enabled && value(pos.peak_bid) >= value(pos.entry_price)
                + value(sl.trailing_min_distance) && value(pos.peak_bid) - bid >= value(distance);
            let tick = value(pos.tick_size);
            &&& sale is Some ==> open && (trails || (dropped_enough && adverse >= reference * (share
                - slack(share))))
            &&& open && trails ==> sale is Some
            &&& open && dropped_enough && adverse >= reference * (share + slack(share)) ==> sale
                is Some
            &&& sale is Some ==> sale->0.order.token_id == pos.token_id && sale->0.order.size
                == pos.size && sale->0.order.side == OrderSide::Sell
            &&& sale is Some && !rests ==> value(sale->0.order.price) == bid
                && sale->0.order.order_type == OrderType::Fok
            &&& sale is Some && rests ==> value(sale->0.order.price) == max_of(
                bid - tick * (sl.gtc_fallback_tick_offset as real),
                tick,
            ) && sale->0.order.order_type == OrderType::Gtc
        }),
{
    let sl = rt.config.stop_loss;
    let bid = snapshot.bids@[0].price;
    let left = secs_between(m.market.end_date, now) as i64;
    comparing_compares_values(pos.size, m.market.min_order_size);
    if crypto_reversed_of(rt, pos) is Some {
        a_position_reverses_against_its_side(rt, pos, prices);
    }
    differences_add_up(pos.entry_price, bid);
    comparing_compares_values(sl.min_drop, difference_of(pos.entry_price, bid)->0);
    a_trailing_stop_follows_the_highest_bid(sl, pos, bid, left, distance);
    let n = sl.gtc_fallback_tick_offset as int;
    value_of_parts(n, 0);
    lemma_dec_parts(n, 0);
    reveal_with_fuel(crate::decimal::pow10, 7);
    assert(is_within(dec(n, 0), 6, 0));
    small_products_are_exact(pos.tick_size, dec(n, 0), 6, 6, 6, 0);
    let off = product_of(pos.tick_size, dec(n, 0))->0;
    lemma_within_more(bid, 6, 6, 12, 6);
    small_sums_are_exact(bid, off, 12, 6);
    picking_picks_values(difference_of(bid, off)->0, pos.tick_size);
}

/// Each settled position has the result of its own bet.
pub proof fn each_position_settles_on_its_own(
    gone: Seq<ArbitragePosition>,
    settle: Option<Decimal>,
    i: int,
)
    requires
        0 <= i < gone.len(),
        settled_pnls(gone, settle) is Some,
    ensures
        settled_pnls(gone, settle)->0.len() == gone.len(),
        Some(settled_pnls(gone, settle)->0[i]) == outcome_of(gone[i], wins(gone[i], settle)),
    decreases gone.len(),
{
    let h = gone.drop_last();
    if i < h.len() {
        each_position_settles_on_its_own(h, settle, i);
    } else if h.len() > 0 {
        each_position_settles_on_its_own(h, settle, 0);
    }
}

/// A mode is switched off where that is asked for, it has made enough trades, and it has won less
/// than the least share of them; and not otherwise. The 28th digit is left to rounding.
pub proof fn a_mode_that_loses_is_switched_off(s: StatsView, perf: PerformanceConfig)
    requires
        0 <= s.won,
        0 <= s.lost,
        0 < s.won + s.lost <= u64::MAX,
        mode_disabled_of(Some(s), perf) is Some,
    ensures
        ({
            let off = mode_disabled_of(Some(s), perf)->0;
            let enough = perf.auto_disable && s.won + s.lost >= perf.min_trades;
            let (won, all) = (s.won as real, (s.won + s.lost) as real);
            let least = value(perf.min_win_rate);
            &&& off ==> enough && won <= all * (least + slack(least))
            &&& enough && won < all * (least - slack(least)) ==> off
        }),
{
    let n = s.won + s.lost;
    value_of_parts(s.won, 0);
    value_of_parts(n, 0);
    if s.win_rate() is Some {
        quotients_compare(dec(s.won, 0), dec(n, 0), perf.min_win_rate);
    }
}

/// The wait before the next try is the schedule's entry for that try, the last one for every later
/// try.
pub proof fn waits_follow_the_schedule(schedule: Seq<u64>, tries: int)
    requires
        tries >= 1,
        schedule.len() > 0,
    ensures
        tries <= schedule.len() ==> retry_wait(schedule, tries) == schedule[tries - 1],
        tries > schedule.len() ==> retry_wait(schedule, tries) == schedule[schedule.len() - 1],
{
}

/// A resting sale is offered some ticks below the bid, and at one tick at least; any other at the
/// bid itself.
pub proof fn a_resting_sale_is_offered_below_the_bid(
    sl: StopLossConfig,
    pos: ArbitragePosition,
    bid: Decimal,
)
    requires
        is_amount(bid),
        is_amount(pos.tick_size),
        sl.gtc_fallback_tick_offset <= 1_000_000,
    ensures
        sale_price_of(sl, pos, bid, false) == Some(bid),
        sale_price_of(sl, pos, bid, true) is Some,
        value(sale_price_of(sl, pos, bid, true)->0) == max_of(
            value(bid) - value(pos.tick_size) * (sl.gtc_fallback_tick_offset as real),
            value(pos.tick_size),
        ),
{
    let n = sl.gtc_fallback_tick_offset as int;
    lemma_dec_parts(n, 0);
    value_of_parts(n, 0);
    assert(is_within(dec(n, 0), 6, 0)) by {
        reveal_with_fuel(crate::decimal::pow10, 7);
    }
    small_products_are_exact(pos.tick_size, dec(n, 0), 6, 6, 6, 0);
    lemma_within_more(bid, 6, 6, 12, 6);
    let below = product_of(pos.tick_size, dec(n, 0))->0;
    small_sums_are_exact(bid, below, 12, 6);
    picking_picks_values(difference_of(bid, below)->0, pos.tick_size);
}

/// A rejected sale of too small a size drops the position. Any other counts a try and waits out the
/// entry for that try in the schedule for its kind; one without takers rests next time, where that
/// is allowed.
pub proof fn a_rejected_sale_waits_or_is_dropped(
    pre: CryptoArbBase,
    post: CryptoArbBase,
    token: Seq<char>,
    reason: Seq<char>,
    i: int,
)
    requires
        sale_rejection_noted(pre, post, token, reason, true),
        first_position(pre.rt.positions@, token, i),
        distinct_keys(pre.pending_stop_loss.rows()),
    ensures
        ({
            let kind = rejection_kind(reason);
            let sl = pre.rt.config.stop_loss;
            let before = lookup(pre.stop_loss_retry_counts.rows(), token);
            let tries = if before is Some {
                before->0 + 1
            } else {
                1
            };
            let schedule = if kind == StopLossRejectionKind::Liquidity {
                sl.liquidity_cooldowns@
            } else {
                sl.balance_cooldowns@
            };
            let until = lookup(post.stop_loss_cooldowns.rows(), token);
            let rests = lookup(post.stop_loss_use_gtc.rows(), token);
            let dropped = kind == StopLossRejectionKind::InvalidSize;
            &&& lookup(post.pending_stop_loss.rows(), token) is None
            &&& dropped ==> post.rt.positions@ == pre.rt.positions@.remove(i)
            &&& !dropped ==> post.rt.positions == pre.rt.positions && lookup(
                post.stop_loss_retry_counts.rows(),
                token,
            ) is Some && lookup(post.stop_loss_retry_counts.rows(), token)->0 == tries && until
                is Some && (retry_wait(schedule, tries) <= i64::MAX ==> until->0.nanos_of()
                == pre.rt.last_event_time.nanos_of() + retry_wait(schedule, tries) * 1_000_000_000)
            &&& !dropped && kind == StopLossRejectionKind::Liquidity && sl.gtc_fallback ==> rests
                == Some(true)
            &&& !dropped && !(kind == StopLossRejectionKind::Liquidity && sl.gtc_fallback)
                ==> post.stop_loss_use_gtc.rows() == pre.stop_loss_use_gtc.rows()
        }),
{
    lemma_position_of(pre.rt.positions@, token, i);
    lemma_lookup_dropped(pre.pending_stop_loss.rows(), token, token);
    let kind = rejection_kind(reason);
    if kind != StopLossRejectionKind::InvalidSize {
        let sl = pre.rt.config.stop_loss;
        let count = match lookup(pre.stop_loss_retry_counts.rows(), token) {
            Some(n) => n + 1,
            None => 1,
        };
        let schedule = if kind == StopLossRejectionKind::Liquidity {
            sl.liquidity_cooldowns@
        } else {
            sl.balance_cooldowns@
        };
        let secs = signed(retry_wait(schedule, count));
        shifting_moves_by_seconds(pre.rt.last_event_time, secs);
        lemma_lookup_stored(pre.stop_loss_retry_counts.rows(), token, count as u32, token);
        lemma_lookup_stored(pre.stop_loss_use_gtc.rows(), token, true, token);
        lemma_lookup_stored(
            pre.stop_loss_cooldowns.rows(),
            token,
            shifted(pre.rt.last_event_time, secs)->0,
            token,
        );
    }
}

/// Closing a market leaves nothing of it: it is no longer active, none of its positions is held, its
/// resting entries and sales are gone, and it is unsubscribed. What belongs to other markets stays.
pub proof fn a_closed_market_leaves_nothing(
    pre: CryptoArbBase,
    post: CryptoArbBase,
    market_id: MarketId,
    chain: Option<ChainlinkPrice>,
    r: Result<Vec<Action>, Overflow>,
    x: ArbitragePosition,
    entry: (Seq<char>, OpenLimitOrder),
    sale: (Seq<char>, GtcStopLossOrder),
)
    requires
        base_market_closed(pre, post, market_id, chain, r),
        r is Ok,
        lookup(pre.rt.active_markets.rows(), market_id@) is Some,
        distinct_keys(pre.rt.active_markets.rows()),
    ensures
        lookup(post.rt.active_markets.rows(), market_id@) is None,
        post.rt.positions@.contains(x) <==> pre.rt.positions@.contains(x) && x.market_id@
            != market_id@,
        post.rt.open_limit_orders.rows().contains(entry) <==> pre.rt.open_limit_orders.rows().contains(
            entry,
        ) && entry.1.market_id@ != market_id@,
        post.gtc_stop_loss_orders.rows().contains(sale) <==> pre.gtc_stop_loss_orders.rows().contains(
            sale,
        ) && sale.1.market_id@ != market_id@,
        pre.gtc_stop_loss_orders.rows().contains(sale) && sale.1.market_id@ == market_id@
            ==> exists|k: int|
            0 <= k < r->Ok_0@.len() && is_cancel(#[trigger] r->Ok_0@[k], sale.0),
        r->Ok_0@.len() > 0 && r->Ok_0@.last() == Action::UnsubscribeMarket(market_id),
{
    let m = lookup(pre.rt.active_markets.rows(), market_id@)->0;
    lemma_lookup_dropped(pre.rt.active_markets.rows(), market_id@, market_id@);
    other_positions_stay(pre.rt.positions@, market_id@, x);
    filtering_keeps_what_fits(
        pre.rt.open_limit_orders.rows(),
        |id: Seq<char>, lo: OpenLimitOrder| lo.market_id@ != market_id@,
        entry,
    );
    let rows = pre.gtc_stop_loss_orders.rows();
    let ours = |id: Seq<char>, o: GtcStopLossOrder| o.market_id@ == market_id@;
    filtering_keeps_what_fits(
        rows,
        |id: Seq<char>, o: GtcStopLossOrder| o.market_id@ != market_id@,
        sale,
    );
    filtering_keeps_what_fits(rows, ours, sale);
    let sales = kept(rows, ours);
    if sales.contains(sale) {
        let j = choose|j: int| 0 <= j < sales.len() && sales[j] == sale;
        let part = r->Ok_0@.take(sales.len() as int);
        assert(is_cancel(part[j], sales[j].0));
        assert(part[j] == r->Ok_0@[j]);
    }
}

/// A price that repeats the latest one is left out of the history; any other is its latest.
pub proof fn a_repeated_price_is_left_out(entries: Seq<PriceEntry>, e: PriceEntry)
    ensures
        entries.len() > 0 && value(entries.last().price) == value(e.price) ==> with_new_price(
            entries,
            e,
        ) == entries,
        !(entries.len() > 0 && value(entries.last().price) == value(e.price)) ==> with_new_price(
            entries,
            e,
        ).len() > 0 && with_new_price(entries, e).last() == e,
{
    if entries.len() > 0 {
        comparing_compares_values(entries.last().price, e.price);
    }
}

} // verus!
