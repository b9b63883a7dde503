//! Orders: reservations, cooldowns, and what becomes of open limit orders.
use crate::decimal::{Decimal, Overflow, zero};
use crate::domain::lifecycle::LifecycleView;
use crate::domain::position::{ArbitragePosition, OpenLimitOrder, position_from};
use crate::domain::telemetry::OrderTelemetry;
use crate::exchange::{Action, MarketId, OrderId, OrderSide, OrderType, Signal};
use crate::runtime::{CryptoArbRuntime, count_up, counted, list_has, lists, signed, to_signed};
use crate::services::position::{slots, with_lifecycle};
use crate::table::{
    Table, distinct_keys, dropped, filtering_keeps_what_fits, has_key, kept,
    lemma_dropped_undoes_stored, lemma_kept_step, lemma_lookup_dropped, lemma_lookup_stored,
    lookup, mapped, stored,
};
use crate::text::{contains_text, occurs, owned};
use crate::time::{
    DateTime, secs_between, shifted, shifting_moves_by_seconds, whole_seconds_have_passed,
};
use vstd::prelude::*;

verus! {

/// Whether an instant lies before the end of a cooldown.
pub open spec fn cooling(rows: Seq<(Seq<char>, DateTime)>, key: Seq<char>, now: DateTime) -> bool {
    match lookup(rows, key) {
        Some(until) => now.nanos_of() < until.nanos_of(),
        None => false,
    }
}

fn is_cooling(cooldowns: &Table<DateTime>, key: &str, now: DateTime) -> (r: bool)
    ensures
        r == cooling(cooldowns.rows(), key@, now),
{
    match cooldowns.get(key) {
        Some(until) => now.before(*until),
        None => false,
    }
}

/// A recorded cooldown holds at every instant before its end and at none after it, and
/// leaves the other cooldowns alone.
pub proof fn cooldown_holds_until_its_end(
    rows: Seq<(Seq<char>, DateTime)>,
    key: Seq<char>,
    until: DateTime,
    other: Seq<char>,
    at: DateTime,
)
    ensures
        cooling(stored(rows, key, until), key, at) == (at.nanos_of() < until.nanos_of()),
        other != key ==> cooling(stored(rows, key, until), other, at) == cooling(rows, other, at),
{
    lemma_lookup_stored(rows, key, until, key);
    lemma_lookup_stored(rows, key, until, other);
}

/// A reason says that an order is gone for good.
pub open spec fn permanently_gone(reason: Seq<char>) -> bool {
    occurs(reason, "matched"@) || occurs(reason, "canceled"@) || occurs(reason, "not found"@)
}

/// Whether a reason says that an order is gone for good.
pub fn is_permanently_gone(reason: &str) -> (r: bool)
    ensures
        r == permanently_gone(reason@),
{
    contains_text(reason, "matched") || contains_text(reason, "canceled") || contains_text(
        reason,
        "not found",
    )
}

/// The record of an entry order that was filled in full as a maker order.
pub open spec fn is_fill_record(a: Action, id: Seq<char>, lo: OpenLimitOrder) -> bool {
    match a {
        Action::RecordFill {
            order_id,
            market_id,
            token_id,
            side,
            price,
            size,
            realized_pnl,
            fee,
            order_type,
        } => {
            &&& order_id@ == id
            &&& market_id == lo.market_id
            &&& token_id == lo.token_id
            &&& side == OrderSide::Buy
            &&& price == lo.price
            &&& size == lo.size
            &&& realized_pnl is None
            &&& fee == Some(zero())
            &&& order_type == Some(OrderType::Gtc)
        },
        _ => false,
    }
}

fn fill_record(id: &String, lo: &OpenLimitOrder) -> (r: Action)
    ensures
        is_fill_record(r, id@, *lo),
{
    Action::RecordFill {
        order_id: id.clone(),
        market_id: lo.market_id.clone(),
        token_id: lo.token_id.clone(),
        side: OrderSide::Buy,
        price: lo.price,
        size: lo.size,
        realized_pnl: None,
        fee: Some(Decimal::zero()),
        order_type: Some(OrderType::Gtc),
    }
}

/// The notice of a fill found through a failed cancel.
pub open spec fn is_matched_signal(a: Action, id: Seq<char>, lo: OpenLimitOrder) -> bool {
    match a {
        Action::EmitSignal(Signal::MatchedFill { order_id, market_id, token_id }) => {
            order_id@ == id && market_id == lo.market_id && token_id == lo.token_id
        },
        _ => false,
    }
}

/// The notice of a fill found by reconciling.
pub open spec fn is_reconciled_signal(a: Action, id: Seq<char>, lo: OpenLimitOrder) -> bool {
    match a {
        Action::EmitSignal(
            Signal::ReconciledFill { order_id, market_id, token_id, price, size, side },
        ) => {
            &&& order_id@ == id
            &&& market_id == lo.market_id
            &&& token_id == lo.token_id
            &&& price == lo.price
            &&& size == lo.size
            &&& side == lo.side
        },
        _ => false,
    }
}

/// The request to cancel an order.
pub open spec fn is_cancel(a: Action, id: Seq<char>) -> bool {
    match a {
        Action::CancelOrder(order_id) => order_id@ == id,
        _ => false,
    }
}

/// The position that an order filled in full opens.
pub open spec fn is_fill_position(
    pos: ArbitragePosition,
    id: Seq<char>,
    lo: OpenLimitOrder,
    now: DateTime,
) -> bool {
    &&& pos.order_id is Some
    &&& pos.order_id->0@ == id
    &&& pos == position_from(lo, lo.price, lo.size, pos.order_id, now)
}

/// An order after one more snapshot of the exchange's open orders, which has it or not. An
/// order with a cancel in flight is left alone; the count of misses stays at 255.
pub open spec fn checked_off(lo: OpenLimitOrder, open: bool) -> OpenLimitOrder {
    if lo.cancel_pending {
        lo
    } else if open {
        OpenLimitOrder { reconcile_miss_count: 0, ..lo }
    } else if lo.reconcile_miss_count < 255 {
        OpenLimitOrder { reconcile_miss_count: (lo.reconcile_miss_count + 1) as u8, ..lo }
    } else {
        lo
    }
}

/// An order was missing from two snapshots in a row, and no cancel is in flight.
pub open spec fn confirmed_missing(lo: OpenLimitOrder) -> bool {
    !lo.cancel_pending && lo.reconcile_miss_count >= 2
}

/// An order is taken as filled only when it is missing now and was missing before; an
/// order that is there again starts over; an order that is missing twice from a clean
/// start is taken as filled; one with a cancel in flight never is.
pub proof fn a_fill_takes_two_misses(lo: OpenLimitOrder, open: bool)
    ensures
        confirmed_missing(checked_off(lo, open)) ==> !open && !lo.cancel_pending
            && lo.reconcile_miss_count >= 1,
        open && !lo.cancel_pending ==> checked_off(lo, open).reconcile_miss_count == 0,
        lo.reconcile_miss_count == 0 ==> !confirmed_missing(checked_off(lo, open)),
        !lo.cancel_pending && lo.reconcile_miss_count == 0 ==> confirmed_missing(
            checked_off(checked_off(lo, false), false),
        ),
        lo.cancel_pending ==> !confirmed_missing(checked_off(lo, open)),
{
}

/// An open order is older than allowed, and no cancel is in flight.
pub open spec fn is_stale(lo: OpenLimitOrder, now: DateTime, max_age: int) -> bool {
    !lo.cancel_pending && secs_between(now, lo.placed_at) >= max_age
}

/// An order with a cancel in flight where it is stale.
pub open spec fn flagged(lo: OpenLimitOrder, now: DateTime, max_age: int) -> OpenLimitOrder {
    if is_stale(lo, now, max_age) {
        OpenLimitOrder { cancel_pending: true, ..lo }
    } else {
        lo
    }
}

/// A stale order is asked to be cancelled once: after that it is not stale, at any time.
pub proof fn a_cancel_is_asked_once(lo: OpenLimitOrder, now: DateTime, later: DateTime, max_age: int)
    ensures
        is_stale(lo, now, max_age) ==> !is_stale(flagged(lo, now, max_age), later, max_age),
        flagged(lo, now, max_age).order_id == lo.order_id,
        flagged(lo, now, max_age).size == lo.size,
{
}

/// The counters once the coins of some orders are counted.
pub open spec fn counted_coins(
    rows: Seq<(Seq<char>, u64)>,
    orders: Seq<(Seq<char>, OpenLimitOrder)>,
) -> Seq<(Seq<char>, u64)>
    decreases orders.len(),
{
    if orders.len() == 0 {
        rows
    } else {
        counted(counted_coins(rows, orders.drop_last()), orders.last().1.coin@)
    }
}

/// The lifecycles once the tokens of some orders have one.
pub open spec fn with_lifecycles(
    rows: Seq<(Seq<char>, LifecycleView)>,
    orders: Seq<(Seq<char>, OpenLimitOrder)>,
) -> Seq<(Seq<char>, LifecycleView)>
    decreases orders.len(),
{
    if orders.len() == 0 {
        rows
    } else {
        with_lifecycle(with_lifecycles(rows, orders.drop_last()), orders.last().1.token_id@)
    }
}

/// `a + b`, staying at the largest number.
pub open spec fn capped_sum(a: u64, b: int) -> int {
    if a + b <= u64::MAX {
        a + b
    } else {
        u64::MAX as int
    }
}

/// Slots grow by what a new reservation holds.
proof fn lemma_slots_push(rows: Seq<(Seq<char>, usize)>, k: Seq<char>, n: usize)
    ensures
        slots(rows.push((k, n))) == slots(rows) + n,
{
    assert(rows.push((k, n)).drop_last() =~= rows);
}

/// Releasing a reservation right after it was made restores the reservations.
pub proof fn release_undoes_reserve(rows: Seq<(Seq<char>, usize)>, market: Seq<char>, count: usize)
    requires
        !has_key(rows, market),
    ensures
        dropped(stored(rows, market, count), market) == rows,
{
    lemma_dropped_undoes_stored(rows, market, count);
}

/// The open limit orders were held against the exchange's own list: an order that was missing
/// twice in a row is taken as filled, opens a position and is reported.
pub open spec fn orders_reconciled(
    pre: CryptoArbRuntime,
    post: CryptoArbRuntime,
    open_ids: Seq<OrderId>,
    r: Seq<Action>,
) -> bool {
    &&& ({
        let seen = mapped(
            pre.open_limit_orders.rows(),
            |id: Seq<char>, lo: OpenLimitOrder| checked_off(lo, lists(open_ids, id)),
        );
        let filled = kept(seen, |id: Seq<char>, lo: OpenLimitOrder| confirmed_missing(lo));
        let n = pre.positions@.len();
        &&& post.open_limit_orders.rows() == kept(
            seen,
            |id: Seq<char>, lo: OpenLimitOrder| !confirmed_missing(lo),
        )
        &&& post.positions@.len() == n + filled.len()
        &&& post.positions@.take(n as int) == pre.positions@
        &&& forall|j: int|
            0 <= j < filled.len() ==> is_fill_position(
                #[trigger] post.positions@[n + j],
                filled[j].0,
                filled[j].1,
                pre.last_event_time,
            )
        &&& post.position_lifecycle.rows() == with_lifecycles(
            pre.position_lifecycle.rows(),
            filled,
        )
        &&& r.len() == 2 * filled.len()
        &&& forall|j: int|
            0 <= j < filled.len() ==> is_fill_record(
                r[2 * j],
                (#[trigger] filled[j]).0,
                filled[j].1,
            ) && is_reconciled_signal(r[2 * j + 1], filled[j].0, filled[j].1)
    })
    &&& post == (CryptoArbRuntime {
        open_limit_orders: post.open_limit_orders,
        positions: post.positions,
        position_lifecycle: post.position_lifecycle,
        ..pre
    })
}

/// The failed cancel of an entry order was noted.
pub open spec fn cancel_failure_noted(
    pre: CryptoArbRuntime,
    post: CryptoArbRuntime,
    order_id: OrderId,
    reason: Seq<char>,
    found: bool,
    actions: Seq<Action>,
) -> bool {
    &&& match lookup(pre.open_limit_orders.rows(), order_id@) {
        None => !found && actions.len() == 0 && post == pre,
        Some(lo) => {
            &&& found
            &&& post.open_limit_orders.rows() == (if permanently_gone(reason) {
                dropped(pre.open_limit_orders.rows(), order_id@)
            } else {
                stored(
                    pre.open_limit_orders.rows(),
                    order_id@,
                    (OpenLimitOrder { cancel_pending: false, ..lo }),
                )
            })
            &&& occurs(reason, "matched"@) ==> {
                &&& post.positions@ == pre.positions@.push(
                    position_from(
                        lo,
                        lo.price,
                        lo.size,
                        Some(order_id),
                        pre.last_event_time,
                    ),
                )
                &&& post.position_lifecycle.rows() == with_lifecycle(
                    pre.position_lifecycle.rows(),
                    lo.token_id@,
                )
                &&& actions.len() == 2
                &&& is_fill_record(actions[0], order_id@, lo)
                &&& is_matched_signal(actions[1], order_id@, lo)
            }
            &&& !occurs(reason, "matched"@) ==> actions.len() == 0 && post == (
            CryptoArbRuntime {
                open_limit_orders: post.open_limit_orders,
                ..pre
            })
        },
    }
    &&& post == (CryptoArbRuntime {
        open_limit_orders: post.open_limit_orders,
        positions: post.positions,
        position_lifecycle: post.position_lifecycle,
        ..pre
    })
}

/// Limit orders that are too old were flagged, and their cancel asked for.
pub open spec fn stale_orders_flagged(
    pre: CryptoArbRuntime,
    post: CryptoArbRuntime,
    r: Seq<Action>,
) -> bool {
    &&& ({
        let now = pre.last_event_time;
        let max_age = signed(pre.config.order.max_age_secs);
        let rows = pre.open_limit_orders.rows();
        let stale = kept(
            rows,
            |id: Seq<char>, lo: OpenLimitOrder| is_stale(lo, now, max_age),
        );
        &&& post.open_limit_orders.rows() == mapped(
            rows,
            |id: Seq<char>, lo: OpenLimitOrder| flagged(lo, now, max_age),
        )
        &&& r.len() == stale.len()
        &&& forall|j: int|
            0 <= j < stale.len() ==> is_cancel(r[j], (#[trigger] stale[j]).0)
        &&& post.order_telemetry.total_cancels == capped_sum(
            pre.order_telemetry.total_cancels,
            stale.len() as int,
        )
        &&& post.order_telemetry.cancel_before_fill.rows() == counted_coins(
            pre.order_telemetry.cancel_before_fill.rows(),
            stale,
        )
        &&& post.order_telemetry == (OrderTelemetry {
            total_cancels: post.order_telemetry.total_cancels,
            cancel_before_fill: post.order_telemetry.cancel_before_fill,
            ..pre.order_telemetry
        })
    })
    &&& post == (CryptoArbRuntime {
        open_limit_orders: post.open_limit_orders,
        order_telemetry: post.order_telemetry,
        ..pre
    })
}

impl CryptoArbRuntime {
    /// Reserves slots for a market that has no exposure, where the limit allows.
    pub fn try_reserve_market(&mut self, market_id: &MarketId, slot_count: usize) -> (r: bool)
        ensures
            r == (!old(self).exposed(market_id@) && old(self).used_slots() + slot_count <= old(
                self,
            ).config.max_positions),
            r ==> final(self).market_reservations.rows() == stored(
                old(self).market_reservations.rows(),
                market_id@,
                slot_count,
            ),
            r ==> final(self).used_slots() == old(self).used_slots() + slot_count,
            r ==> final(self).used_slots() <= old(self).config.max_positions,
            !r && !old(self).exposed(market_id@) ==> old(self).used_slots() + slot_count > old(
                self,
            ).config.max_positions,
            r ==> final(self).exposed(market_id@),
            !r ==> *final(self) == *old(self),
            *final(self) == (CryptoArbRuntime {
                market_reservations: final(self).market_reservations,
                ..*old(self)
            }),
    {
        if self.has_market_exposure(market_id.as_str()) {
            return false;
        }
        let total: usize = match self.slots_in_use() {
            Some(n) => n,
            None => {
                return false;
            },
        };
        if total > self.config.max_positions || slot_count > self.config.max_positions - total {
            return false;
        }
        let ghost before = self.market_reservations.rows();
        self.market_reservations.insert(market_id.clone(), slot_count);
        proof {
            lemma_slots_push(before, market_id@, slot_count);
            lemma_lookup_stored(before, market_id@, slot_count, market_id@);
        }
        true
    }

    /// Gives up a reservation.
    pub fn release_reservation(&mut self, market_id: &str)
        ensures
            final(self).market_reservations.rows() == dropped(
                old(self).market_reservations.rows(),
                market_id@,
            ),
            *final(self) == (CryptoArbRuntime {
                market_reservations: final(self).market_reservations,
                ..*old(self)
            }),
    {
        let _ = self.market_reservations.remove(market_id);
    }

    /// Turns a reservation into an order: the slot passes on to the pending orders.
    pub fn consume_reservation(&mut self, market_id: &str)
        ensures
            final(self).market_reservations.rows() == dropped(
                old(self).market_reservations.rows(),
                market_id@,
            ),
            *final(self) == (CryptoArbRuntime {
                market_reservations: final(self).market_reservations,
                ..*old(self)
            }),
    {
        let _ = self.market_reservations.remove(market_id);
    }

    /// Starts a cooldown of a market after a rejected order.
    pub fn record_rejection_cooldown(&mut self, market_id: &str, cooldown_secs: u64) -> (r: Result<
        (),
        Overflow,
    >)
        ensures
            match shifted(old(self).last_event_time, signed(cooldown_secs)) {
                None => r is Err && *final(self) == *old(self),
                Some(until) => r is Ok && final(self).rejection_cooldowns.rows() == stored(
                    old(self).rejection_cooldowns.rows(),
                    market_id@,
                    until,
                ),
            },
            r is Ok && cooldown_secs <= i64::MAX ==> lookup(
                final(self).rejection_cooldowns.rows(),
                market_id@,
            ) is Some && lookup(final(self).rejection_cooldowns.rows(), market_id@)->0.nanos_of() == old(
                self,
            ).last_event_time.nanos_of() + cooldown_secs * 1_000_000_000,
            *final(self) == (CryptoArbRuntime {
                rejection_cooldowns: final(self).rejection_cooldowns,
                ..*old(self)
            }),
    {
        match self.last_event_time.plus_secs(to_signed(cooldown_secs)) {
            None => Err(Overflow),
            Some(until) => {
                proof {
                    shifting_moves_by_seconds(
                        self.last_event_time,
                        signed(cooldown_secs),
                    );
                    lemma_lookup_stored(
                        self.rejection_cooldowns.rows(),
                        market_id@,
                        until,
                        market_id@,
                    );
                }
                self.rejection_cooldowns.insert(owned(market_id), until);
                Ok(())
            },
        }
    }

    /// Whether a market is in its cooldown after a rejected order.
    pub fn is_rejection_cooled_down(&self, market_id: &str) -> (r: bool)
        ensures
            r == cooling(self.rejection_cooldowns.rows(), market_id@, self.last_event_time),
    {
        is_cooling(&self.rejection_cooldowns, market_id, self.last_event_time)
    }

    /// Starts a cooldown of a market after a stale position.
    pub fn record_stale_market_cooldown(&mut self, market_id: &str, cooldown_secs: u64) -> (r: Result<
        (),
        Overflow,
    >)
        ensures
            match shifted(old(self).last_event_time, signed(cooldown_secs)) {
                None => r is Err && *final(self) == *old(self),
                Some(until) => r is Ok && final(self).stale_market_cooldowns.rows() == stored(
                    old(self).stale_market_cooldowns.rows(),
                    market_id@,
                    until,
                ),
            },
            r is Ok && cooldown_secs <= i64::MAX ==> lookup(
                final(self).stale_market_cooldowns.rows(),
                market_id@,
            ) is Some && lookup(final(self).stale_market_cooldowns.rows(), market_id@)->0.nanos_of() == old(
                self,
            ).last_event_time.nanos_of() + cooldown_secs * 1_000_000_000,
            *final(self) == (CryptoArbRuntime {
                stale_market_cooldowns: final(self).stale_market_cooldowns,
                ..*old(self)
            }),
    {
        match self.last_event_time.plus_secs(to_signed(cooldown_secs)) {
            None => Err(Overflow),
            Some(until) => {
                proof {
                    shifting_moves_by_seconds(
                        self.last_event_time,
                        signed(cooldown_secs),
                    );
                    lemma_lookup_stored(
                        self.stale_market_cooldowns.rows(),
                        market_id@,
                        until,
                        market_id@,
                    );
                }
                self.stale_market_cooldowns.insert(owned(market_id), until);
                Ok(())
            },
        }
    }

    /// Whether a market is in its cooldown after a stale position.
    pub fn is_stale_market_cooled_down(&self, market_id: &str) -> (r: bool)
        ensures
            r == cooling(self.stale_market_cooldowns.rows(), market_id@, self.last_event_time),
    {
        is_cooling(&self.stale_market_cooldowns, market_id, self.last_event_time)
    }

    /// Starts a cooldown of a market after a recovery.
    pub fn record_recovery_exit_cooldown(&mut self, market_id: &str) -> (r: Result<(), Overflow>)
        ensures
            match shifted(
                old(self).last_event_time,
                signed(old(self).config.stop_loss.recovery_cooldown_secs),
            ) {
                None => r is Err && *final(self) == *old(self),
                Some(until) => r is Ok && final(self).recovery_exit_cooldowns.rows() == stored(
                    old(self).recovery_exit_cooldowns.rows(),
                    market_id@,
                    until,
                ),
            },
            r is Ok && old(self).config.stop_loss.recovery_cooldown_secs <= i64::MAX ==> lookup(
                final(self).recovery_exit_cooldowns.rows(),
                market_id@,
            ) is Some && lookup(final(self).recovery_exit_cooldowns.rows(), market_id@)->0.nanos_of() == old(
                self,
            ).last_event_time.nanos_of() + old(self).config.stop_loss.recovery_cooldown_secs * 1_000_000_000,
            *final(self) == (CryptoArbRuntime {
                recovery_exit_cooldowns: final(self).recovery_exit_cooldowns,
                ..*old(self)
            }),
    {
        match self.last_event_time.plus_secs(
            to_signed(self.config.stop_loss.recovery_cooldown_secs),
        ) {
            None => Err(Overflow),
            Some(until) => {
                proof {
                    shifting_moves_by_seconds(
                        self.last_event_time,
                        signed(self.config.stop_loss.recovery_cooldown_secs),
                    );
                    lemma_lookup_stored(
                        self.recovery_exit_cooldowns.rows(),
                        market_id@,
                        until,
                        market_id@,
                    );
                }
                self.recovery_exit_cooldowns.insert(owned(market_id), until);
                Ok(())
            },
        }
    }

    /// Whether a market is in its cooldown after a recovery.
    pub fn is_recovery_exit_cooled_down(&self, market_id: &str) -> (r: bool)
        ensures
            r == cooling(self.recovery_exit_cooldowns.rows(), market_id@, self.last_event_time),
    {
        is_cooling(&self.recovery_exit_cooldowns, market_id, self.last_event_time)
    }

    /// Takes note of a cancel that failed. An order that is gone for good is no longer
    /// tracked, and opens a position if it was matched; any other may be cancelled again.
    /// Says whether the order was tracked.
    pub fn handle_cancel_failed(&mut self, order_id: &OrderId, reason: &str) -> (r: (
        bool,
        Vec<Action>,
    ))
        ensures
            cancel_failure_noted(*old(self), *final(self), *order_id, reason@, r.0, r.1@),
    {
        let mut actions: Vec<Action> = Vec::new();
        let i: usize = self.open_limit_orders.find(order_id.as_str());
        if i >= self.open_limit_orders.len() {
            return (false, actions);
        }
        if is_permanently_gone(reason) {
            let lo: OpenLimitOrder = self.open_limit_orders.remove_at(i);
            if contains_text(reason, "matched") {
                let now: DateTime = self.last_event_time;
                let position = ArbitragePosition::from_limit_order(
                    &lo,
                    lo.price,
                    lo.size,
                    Some(order_id.clone()),
                    now,
                );
                self.record_position(position);
                actions.push(fill_record(order_id, &lo));
                actions.push(
                    Action::EmitSignal(
                        Signal::MatchedFill {
                            order_id: order_id.clone(),
                            market_id: lo.market_id.clone(),
                            token_id: lo.token_id.clone(),
                        },
                    ),
                );
            }
        } else {
            let mut lo: OpenLimitOrder = self.open_limit_orders.value_at(i).clone();
            lo.cancel_pending = false;
            self.open_limit_orders.set_at(i, lo);
        }
        (true, actions)
    }

    /// Holds the open limit orders against the exchange's own list. An order that is
    /// missing twice in a row is taken as filled: it opens a position and is reported.
    pub fn reconcile_limit_orders(&mut self, clob_open_ids: &Vec<OrderId>) -> (r: Vec<Action>)
        ensures
            orders_reconciled(*old(self), *final(self), clob_open_ids@, r@),
    {
        let ghost rows = self.open_limit_orders.rows();
        let ghost note = |id: Seq<char>, lo: OpenLimitOrder|
            checked_off(lo, lists(clob_open_ids@, id));
        let ghost seen = mapped(rows, note);
        let ghost gone = |id: Seq<char>, lo: OpenLimitOrder| confirmed_missing(lo);
        let ghost stays = |id: Seq<char>, lo: OpenLimitOrder| !confirmed_missing(lo);
        let mut i: usize = 0;
        while i < self.open_limit_orders.len()
            invariant
                i <= rows.len(),
                self.open_limit_orders.rows().len() == rows.len(),
                note == (|id: Seq<char>, lo: OpenLimitOrder|
                    checked_off(lo, lists(clob_open_ids@, id))),
                seen == mapped(rows, note),
                forall|j: int|
                    0 <= j < i ==> (#[trigger] self.open_limit_orders.rows()[j]) == seen[j],
                forall|j: int|
                    i <= j < rows.len() ==> (#[trigger] self.open_limit_orders.rows()[j])
                        == rows[j],
                *self == (CryptoArbRuntime {
                    open_limit_orders: self.open_limit_orders,
                    ..*old(self)
                }),
            decreases rows.len() - i,
        {
            let open: bool = list_has(clob_open_ids, self.open_limit_orders.key_at(i).as_str());
            let mut lo: OpenLimitOrder = self.open_limit_orders.value_at(i).clone();
            if !lo.cancel_pending {
                if open {
                    lo.reconcile_miss_count = 0;
                } else if lo.reconcile_miss_count < 255 {
                    lo.reconcile_miss_count = lo.reconcile_miss_count + 1;
                }
            }
            self.open_limit_orders.set_at(i, lo);
            i += 1;
        }
        assert(self.open_limit_orders.rows() =~= seen);
        let mut fills: Vec<(OrderId, OpenLimitOrder)> = Vec::new();
        let ghost done: int = 0;
        let mut i: usize = 0;
        proof {
            assert(kept(seen.take(0), stays) =~= Seq::empty());
            assert(kept(seen.take(0), gone) =~= Seq::empty());
        }
        while i < self.open_limit_orders.len()
            invariant
                0 <= done <= seen.len(),
                i <= done,
                gone == (|id: Seq<char>, lo: OpenLimitOrder| confirmed_missing(lo)),
                stays == (|id: Seq<char>, lo: OpenLimitOrder| !confirmed_missing(lo)),
                self.open_limit_orders.rows() =~= kept(seen.take(done), stays) + seen.skip(done),
                i == kept(seen.take(done), stays).len(),
                fills@.len() == kept(seen.take(done), gone).len(),
                forall|j: int|
                    0 <= j < fills@.len() ==> (#[trigger] fills@[j]).0@ == kept(
                        seen.take(done),
                        gone,
                    )[j].0 && fills@[j].1 == kept(seen.take(done), gone)[j].1,
                *self == (CryptoArbRuntime {
                    open_limit_orders: self.open_limit_orders,
                    ..*old(self)
                }),
            decreases seen.len() - done,
        {
            proof {
                lemma_kept_step(seen, stays, done);
                lemma_kept_step(seen, gone, done);
                assert(seen.skip(done)[0] == seen[done]);
            }
            let lo = self.open_limit_orders.value_at(i);
            if !lo.cancel_pending && lo.reconcile_miss_count >= 2 {
                let id: OrderId = self.open_limit_orders.key_at(i).clone();
                let lo: OpenLimitOrder = self.open_limit_orders.remove_at(i);
                fills.push((id, lo));
            } else {
                i += 1;
            }
            proof {
                done = done + 1;
            }
        }
        assert(seen.take(seen.len() as int) =~= seen);
        let ghost filled = kept(seen, gone);
        let ghost lives = self.position_lifecycle.rows();
        let ghost n = old(self).positions@.len();
        let ghost limits = self.open_limit_orders;
        let now: DateTime = self.last_event_time;
        let mut actions: Vec<Action> = Vec::new();
        let mut k: usize = 0;
        assert(self.positions@.take(n as int) =~= old(self).positions@);
        while k < fills.len()
            invariant
                k <= fills@.len(),
                fills@.len() == filled.len(),
                forall|j: int|
                    0 <= j < fills@.len() ==> (#[trigger] fills@[j]).0@ == filled[j].0
                        && fills@[j].1 == filled[j].1,
                n == old(self).positions@.len(),
                now == old(self).last_event_time,
                self.positions@.len() == n + k,
                self.positions@.take(n as int) == old(self).positions@,
                forall|j: int|
                    0 <= j < k ==> is_fill_position(
                        #[trigger] self.positions@[n + j],
                        filled[j].0,
                        filled[j].1,
                        now,
                    ),
                self.position_lifecycle.rows() == with_lifecycles(lives, filled.take(k as int)),
                actions@.len() == 2 * k,
                forall|j: int|
                    0 <= j < k ==> is_fill_record(
                        actions@[2 * j],
                        (#[trigger] filled[j]).0,
                        filled[j].1,
                    ) && is_reconciled_signal(actions@[2 * j + 1], filled[j].0, filled[j].1),
                self.open_limit_orders == limits,
                *self == (CryptoArbRuntime {
                    open_limit_orders: self.open_limit_orders,
                    positions: self.positions,
                    position_lifecycle: self.position_lifecycle,
                    ..*old(self)
                }),
            decreases fills@.len() - k,
        {
            let (id, lo) = &fills[k];
            let position = ArbitragePosition::from_limit_order(
                lo,
                lo.price,
                lo.size,
                Some(id.clone()),
                now,
            );
            let ghost before = self.positions@;
            self.record_position(position);
            assert(self.positions@.take(n as int) =~= before.take(n as int));
            assert(filled.take(k as int + 1).drop_last() =~= filled.take(k as int));
            actions.push(fill_record(id, lo));
            actions.push(
                Action::EmitSignal(
                    Signal::ReconciledFill {
                        order_id: id.clone(),
                        market_id: lo.market_id.clone(),
                        token_id: lo.token_id.clone(),
                        price: lo.price,
                        size: lo.size,
                        side: lo.side,
                    },
                ),
            );
            k += 1;
        }
        assert(filled.take(filled.len() as int) =~= filled);
        actions
    }

    /// Asks for the cancel of limit orders that are too old. They stay on the books, with
    /// the cancel noted, so that a fill that comes first still finds them.
    pub fn check_stale_limit_orders(&mut self) -> (r: Vec<Action>)
        ensures
            stale_orders_flagged(*old(self), *final(self), r@),
    {
        let max_age: i64 = to_signed(self.config.order.max_age_secs);
        let now: DateTime = self.last_event_time;
        let ghost rows = self.open_limit_orders.rows();
        let ghost old_test = |id: Seq<char>, lo: OpenLimitOrder| is_stale(lo, now, max_age as int);
        let ghost counts = self.order_telemetry.cancel_before_fill.rows();
        let mut actions: Vec<Action> = Vec::new();
        let mut i: usize = 0;
        assert(kept(rows.take(0), old_test) =~= Seq::empty());
        while i < self.open_limit_orders.len()
            invariant
                i <= rows.len(),
                self.open_limit_orders.rows().len() == rows.len(),
                old_test == (|id: Seq<char>, lo: OpenLimitOrder|
                    is_stale(lo, now, max_age as int)),
                forall|j: int|
                    0 <= j < i ==> (#[trigger] self.open_limit_orders.rows()[j]) == (
                        rows[j].0,
                        flagged(rows[j].1, now, max_age as int),
                    ),
                forall|j: int|
                    i <= j < rows.len() ==> (#[trigger] self.open_limit_orders.rows()[j])
                        == rows[j],
                actions@.len() == kept(rows.take(i as int), old_test).len(),
                forall|j: int|
                    0 <= j < actions@.len() ==> is_cancel(
                        actions@[j],
                        (#[trigger] kept(rows.take(i as int), old_test)[j]).0,
                    ),
                self.order_telemetry.total_cancels == capped_sum(
                    old(self).order_telemetry.total_cancels,
                    actions@.len() as int,
                ),
                self.order_telemetry.cancel_before_fill.rows() == counted_coins(
                    counts,
                    kept(rows.take(i as int), old_test),
                ),
                self.order_telemetry == (OrderTelemetry {
                    total_cancels: self.order_telemetry.total_cancels,
                    cancel_before_fill: self.order_telemetry.cancel_before_fill,
                    ..old(self).order_telemetry
                }),
                *self == (CryptoArbRuntime {
                    open_limit_orders: self.open_limit_orders,
                    order_telemetry: self.order_telemetry,
                    ..*old(self)
                }),
            decreases rows.len() - i,
        {
            proof {
                lemma_kept_step(rows, old_test, i as int);
            }
            let ghost seen = kept(rows.take(i as int), old_test);
            let lo = self.open_limit_orders.value_at(i);
            if !lo.cancel_pending && now.secs_since(lo.placed_at) >= max_age {
                let coin: String = lo.coin.clone();
                actions.push(Action::CancelOrder(self.open_limit_orders.key_at(i).clone()));
                let mut lo: OpenLimitOrder = self.open_limit_orders.value_at(i).clone();
                lo.cancel_pending = true;
                self.open_limit_orders.set_at(i, lo);
                self.order_telemetry.total_cancels =
                self.order_telemetry.total_cancels.saturating_add(1);
                count_up(&mut self.order_telemetry.cancel_before_fill, coin.as_str());
                assert(seen.push(rows[i as int]).drop_last() =~= seen);
            }
            i += 1;
        }
        assert(rows.take(rows.len() as int) =~= rows);
        assert(self.open_limit_orders.rows() =~= mapped(
            rows,
            |id: Seq<char>, lo: OpenLimitOrder| flagged(lo, now, max_age as int),
        ));
        actions
    }
}

/// An order is cancelled for its age once the whole of its allowed seconds has passed, unless a
/// cancel is under way.
pub proof fn an_order_is_stale_after_its_age(lo: OpenLimitOrder, now: DateTime, max_age: int)
    requires
        max_age >= 1,
    ensures
        is_stale(lo, now, max_age) <==> !lo.cancel_pending && now.nanos_of()
            - lo.placed_at.nanos_of() >= max_age * 1_000_000_000,
{
    whole_seconds_have_passed(now, lo.placed_at);
    whole_seconds_have_passed(lo.placed_at, now);
}

/// Each order that has rested for its allowed seconds, with no cancel under way, is cancelled and
/// marked; every other stays as it is, and nothing else is cancelled.
pub proof fn old_orders_are_cancelled(
    pre: CryptoArbRuntime,
    post: CryptoArbRuntime,
    r: Seq<Action>,
    i: int,
)
    requires
        stale_orders_flagged(pre, post, r),
        0 <= i < pre.open_limit_orders.rows().len(),
        1 <= pre.config.order.max_age_secs <= i64::MAX,
    ensures
        ({
            let (id, lo) = pre.open_limit_orders.rows()[i];
            let (id2, lo2) = post.open_limit_orders.rows()[i];
            let age = pre.last_event_time.nanos_of() - lo.placed_at.nanos_of();
            let old = !lo.cancel_pending && age >= pre.config.order.max_age_secs * 1_000_000_000;
            &&& post.open_limit_orders.rows().len() == pre.open_limit_orders.rows().len()
            &&& id2 == id
            &&& old ==> lo2 == (OpenLimitOrder { cancel_pending: true, ..lo }) && exists|j: int|
                0 <= j < r.len() && is_cancel(#[trigger] r[j], id)
            &&& !old ==> lo2 == lo
        }),
{
    let now = pre.last_event_time;
    let max_age = signed(pre.config.order.max_age_secs);
    let rows = pre.open_limit_orders.rows();
    let (id, lo) = rows[i];
    an_order_is_stale_after_its_age(lo, now, max_age);
    let f = |id: Seq<char>, lo: OpenLimitOrder| is_stale(lo, now, max_age);
    let stale = kept(rows, f);
    filtering_keeps_what_fits(rows, f, rows[i]);
    assert(rows.contains(rows[i]));
    if is_stale(lo, now, max_age) {
        let j = choose|j: int| 0 <= j < stale.len() && stale[j] == rows[i];
        assert(is_cancel(r[j], stale[j].0));
    }
}

/// A cancel that is asked for is of an order that has rested for its allowed seconds.
pub proof fn only_old_orders_are_cancelled(
    pre: CryptoArbRuntime,
    post: CryptoArbRuntime,
    r: Seq<Action>,
    j: int,
)
    requires
        stale_orders_flagged(pre, post, r),
        0 <= j < r.len(),
        1 <= pre.config.order.max_age_secs <= i64::MAX,
    ensures
        exists|i: int|
            0 <= i < pre.open_limit_orders.rows().len() && is_cancel(
                r[j],
                (#[trigger] pre.open_limit_orders.rows()[i]).0,
            ) && pre.last_event_time.nanos_of()
                - pre.open_limit_orders.rows()[i].1.placed_at.nanos_of()
                >= pre.config.order.max_age_secs * 1_000_000_000,
{
    let now = pre.last_event_time;
    let max_age = signed(pre.config.order.max_age_secs);
    let rows = pre.open_limit_orders.rows();
    let f = |id: Seq<char>, lo: OpenLimitOrder| is_stale(lo, now, max_age);
    let stale = kept(rows, f);
    filtering_keeps_what_fits(rows, f, stale[j]);
    assert(stale.contains(stale[j]));
    let i = choose|i: int| 0 <= i < rows.len() && rows[i] == stale[j];
    an_order_is_stale_after_its_age(rows[i].1, now, max_age);
}

/// An order that is missing from the open orders for the second time in a row counts as filled: it
/// becomes a position at its price and size and rests no more. One that is open stays, with its
/// misses forgotten.
pub proof fn a_missing_order_counts_as_filled(
    pre: CryptoArbRuntime,
    post: CryptoArbRuntime,
    open_ids: Seq<OrderId>,
    r: Seq<Action>,
    i: int,
)
    requires
        orders_reconciled(pre, post, open_ids, r),
        0 <= i < pre.open_limit_orders.rows().len(),
        !pre.open_limit_orders.rows()[i].1.cancel_pending,
    ensures
        ({
            let (id, lo) = pre.open_limit_orders.rows()[i];
            let open = exists|k: int| 0 <= k < open_ids.len() && (#[trigger] open_ids[k])@ == id;
            let n = pre.positions@.len() as int;
            &&& open ==> post.open_limit_orders.rows().contains(
                (id, (OpenLimitOrder { reconcile_miss_count: 0, ..lo })),
            )
            &&& !open && lo.reconcile_miss_count == 0 ==> post.open_limit_orders.rows().contains(
                (id, (OpenLimitOrder { reconcile_miss_count: 1, ..lo })),
            )
            &&& !open && lo.reconcile_miss_count >= 1 ==> exists|k: int|
                n <= k < post.positions@.len() && (#[trigger] post.positions@[k]).token_id
                    == lo.token_id && post.positions@[k].entry_price == lo.price
                    && post.positions@[k].size == lo.size && post.positions@[k].side == lo.side
        }),
{
    let rows = pre.open_limit_orders.rows();
    let (id, lo) = rows[i];
    let f = |id: Seq<char>, lo: OpenLimitOrder| checked_off(lo, lists(open_ids, id));
    let seen = mapped(rows, f);
    let missing = |id: Seq<char>, lo: OpenLimitOrder| confirmed_missing(lo);
    let here = |id: Seq<char>, lo: OpenLimitOrder| !confirmed_missing(lo);
    assert(seen[i] == (id, checked_off(lo, lists(open_ids, id))));
    assert(seen.contains(seen[i]));
    filtering_keeps_what_fits(seen, missing, seen[i]);
    filtering_keeps_what_fits(seen, here, seen[i]);
    let filled = kept(seen, missing);
    if confirmed_missing(seen[i].1) {
        let j = choose|j: int| 0 <= j < filled.len() && filled[j] == seen[i];
        let n = pre.positions@.len() as int;
        let pos = post.positions@[n + j];
        assert(is_fill_position(pos, filled[j].0, filled[j].1, pre.last_event_time));
    }
}

/// An order whose cancel failed because it was matched becomes a position at its price and size;
/// one that is gone is forgotten; any other stays, and its cancel may be asked for again.
pub proof fn a_failed_cancel_tells_what_became_of_the_order(
    pre: CryptoArbRuntime,
    post: CryptoArbRuntime,
    order_id: OrderId,
    reason: Seq<char>,
    found: bool,
    actions: Seq<Action>,
    lo: OpenLimitOrder,
)
    requires
        cancel_failure_noted(pre, post, order_id, reason, found, actions),
        lookup(pre.open_limit_orders.rows(), order_id@) == Some(lo),
        distinct_keys(pre.open_limit_orders.rows()),
    ensures
        ({
            let matched = occurs(reason, "matched"@);
            let gone = occurs(reason, "canceled"@) || occurs(reason, "not found"@);
            let after = lookup(post.open_limit_orders.rows(), order_id@);
            let pos = post.positions@.last();
            &&& matched || gone ==> after is None
            &&& !matched && !gone ==> after == Some(
                (OpenLimitOrder { cancel_pending: false, ..lo }),
            )
            &&& matched ==> post.positions@.len() == pre.positions@.len() + 1 && pos.entry_price
                == lo.price && pos.size == lo.size && pos.token_id == lo.token_id && pos.side
                == lo.side
            &&& !matched ==> post.positions == pre.positions && actions.len() == 0
        }),
{
    lemma_lookup_dropped(pre.open_limit_orders.rows(), order_id@, order_id@);
    lemma_lookup_stored(
        pre.open_limit_orders.rows(),
        order_id@,
        (OpenLimitOrder { cancel_pending: false, ..lo }),
        order_id@,
    );
}

} // verus!
