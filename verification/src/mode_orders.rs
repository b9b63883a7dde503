//! Orders and positions that belong to one trading mode among several that share a state.
use crate::base::{
    CryptoArbBase, PendingStopLoss, StopLossOrder, mode_figures, mode_key, stop_loss_of,
};
use crate::decimal::{Decimal, Overflow, difference_of, minus, ok_of, product_of, times, zero};
use crate::domain::position::{
    ArbitrageMode, ArbitragePosition, OpenLimitOrder, PendingOrder, copy_id, position_from,
};
use crate::exchange::{
    Action, ActionView, OrderId, OrderResult, OrderType, OrderbookSnapshot, acts, lemma_acts_push,
};
use crate::fee_math::{checked_taker_fee, taker_fee_of};
use crate::runtime::CryptoArbRuntime;
use crate::services::position::{
    find_position, first_position, holds_token, lemma_position_of, position_of, with_lifecycle,
    without_token,
};
use crate::table::{
    distinct_keys, dropped, has_key, lemma_lookup_dropped, lemma_lookup_stored, lookup, stored,
};
use crate::tailend::exit::book_noted;
use crate::tailend::order_routing::{limit_from, position_at_once};
use crate::text::same_text;
use crate::time::DateTime;
use crate::value::{
    comparing_compares_values, difference_is_exact, differences_add_up, is_amount,
    lemma_within_more, product_is_exact, products_multiply, signs_agree, small_products_are_exact,
    small_sums_are_exact, value,
};
use vstd::prelude::*;

verus! {

/// The modes that share a state.
#[derive(Clone, Copy, Debug, PartialEq, Eq, Structural)]
pub enum ModeClass {
    Confirmed,
    CrossCorrelated,
}

impl ModeClass {
    /// An order or position of `mode` belongs to this mode.
    pub open spec fn owns(self, mode: ArbitrageMode) -> bool {
        match self {
            ModeClass::Confirmed => mode is Confirmed,
            ModeClass::CrossCorrelated => mode is CrossCorrelated,
        }
    }

    /// Whether an order or position of `mode` belongs to this mode.
    pub fn is_mine(self, mode: &ArbitrageMode) -> (r: bool)
        ensures
            r == self.owns(*mode),
    {
        match self {
            ModeClass::Confirmed => matches!(mode, ArbitrageMode::Confirmed),
            ModeClass::CrossCorrelated => matches!(mode, ArbitrageMode::CrossCorrelated { .. }),
        }
    }
}

/// The result of a sale at a price:
/// `(exit - entry) * size - estimated_fee * size - taker_fee(exit) * size`.
pub open spec fn sale_pnl_of(pos: ArbitragePosition, exit: Decimal, rate: Decimal) -> Option<Decimal> {
    minus(
        minus(
            times(minus(Some(exit), Some(pos.entry_price)), Some(pos.size)),
            times(Some(pos.estimated_fee), Some(pos.size)),
        ),
        times(taker_fee_of(exit, rate), Some(pos.size)),
    )
}

/// The result of a sale at a price.
pub fn sale_pnl(pos: &ArbitragePosition, exit: Decimal, rate: Decimal) -> (r: Result<
    Decimal,
    Overflow,
>)
    ensures
        ok_of(r) == sale_pnl_of(*pos, exit, rate),
{
    let fee: Decimal = checked_taker_fee(exit, rate)?;
    let gain: Decimal = exit.minus(pos.entry_price)?.times(pos.size)?;
    let entry: Decimal = pos.estimated_fee.times(pos.size)?;
    let paid: Decimal = fee.times(pos.size)?;
    gain.minus(entry)?.minus(paid)
}

/// A sale was confirmed: the position of the mode is closed and counted; one of another mode
/// is put back, with a new lifecycle.
pub open spec fn sale_confirmed(
    pre: CryptoArbBase,
    post: CryptoArbBase,
    class: ModeClass,
    token: Seq<char>,
    psl: PendingStopLoss,
    ok: bool,
) -> bool {
    let positions = pre.rt.positions@;
    let i = position_of(positions, token);
    let pos = positions[i];
    let pnl = sale_pnl_of(pos, psl.exit_price, pre.rt.config.fee.taker_fee_rate);
    let figures = match pnl {
        Some(p) => mode_figures(pre, pos.mode).recorded(p),
        None => None,
    };
    if !holds_token(positions, token) {
        &&& ok
        &&& post.pending_stop_loss.rows() == dropped(pre.pending_stop_loss.rows(), token)
        &&& post == (CryptoArbBase { pending_stop_loss: post.pending_stop_loss, ..pre })
    } else if class.owns(pos.mode) && figures is None {
        !ok && post == pre
    } else {
        &&& ok
        &&& post.pending_stop_loss.rows() == dropped(pre.pending_stop_loss.rows(), token)
        &&& post.stop_loss_retry_counts.rows() == dropped(pre.stop_loss_retry_counts.rows(), token)
        &&& post.stop_loss_use_gtc.rows() == dropped(pre.stop_loss_use_gtc.rows(), token)
        &&& post.rt.exit_orders_by_id.rows() == without_token(
            pre.rt.exit_orders_by_id.rows(),
            token,
        )
        &&& if class.owns(pos.mode) {
            &&& post.mode_stats.rows() == stored(
                pre.mode_stats.rows(),
                mode_key(pos.mode),
                figures->0,
            )
            &&& post.rt.positions@ == positions.remove(i)
            &&& post.rt.position_lifecycle.rows() == dropped(
                pre.rt.position_lifecycle.rows(),
                token,
            )
        } else {
            &&& post.mode_stats == pre.mode_stats
            &&& post.rt.positions@ == positions.remove(i).push(pos)
            &&& post.rt.position_lifecycle.rows() == with_lifecycle(
                dropped(pre.rt.position_lifecycle.rows(), token),
                token,
            )
        }
        &&& post == (CryptoArbBase {
            pending_stop_loss: post.pending_stop_loss,
            stop_loss_retry_counts: post.stop_loss_retry_counts,
            stop_loss_use_gtc: post.stop_loss_use_gtc,
            mode_stats: post.mode_stats,
            rt: CryptoArbRuntime {
                positions: post.rt.positions,
                position_lifecycle: post.rt.position_lifecycle,
                exit_orders_by_id: post.rt.exit_orders_by_id,
                ..pre.rt
            },
            ..pre
        })
    }
}

/// An entry order was answered: a resting one becomes a limit order, one filled at once a
/// position; an order of another mode is left alone.
pub open spec fn mode_entry_placed(
    pre: CryptoArbRuntime,
    post: CryptoArbRuntime,
    class: ModeClass,
    result: OrderResult,
    now: DateTime,
) -> bool {
    match lookup(pre.pending_orders.rows(), result.token_id@) {
        None => post == pre,
        Some(p) => if !class.owns(p.mode) {
            post == pre
        } else {
            &&& post.pending_orders.rows() == dropped(pre.pending_orders.rows(), result.token_id@)
            &&& if !result.success {
                post == (CryptoArbRuntime { pending_orders: post.pending_orders, ..pre })
            } else if p.order_type == OrderType::Gtc {
                &&& post.open_limit_orders.rows() == (match result.order_id {
                    Some(id) => stored(pre.open_limit_orders.rows(), id@, limit_from(p, id, now)),
                    None => pre.open_limit_orders.rows(),
                })
                &&& post == (CryptoArbRuntime {
                    pending_orders: post.pending_orders,
                    open_limit_orders: post.open_limit_orders,
                    ..pre
                })
            } else {
                &&& post.positions@ == pre.positions@.push(
                    position_at_once(p, result.order_id, p.estimated_fee, now),
                )
                &&& post.position_lifecycle.rows() == with_lifecycle(
                    pre.position_lifecycle.rows(),
                    p.token_id@,
                )
                &&& post == (CryptoArbRuntime {
                    pending_orders: post.pending_orders,
                    positions: post.positions,
                    position_lifecycle: post.position_lifecycle,
                    ..pre
                })
            }
        },
    }
}

/// An order was answered.
pub open spec fn mode_order_placed(
    pre: CryptoArbBase,
    post: CryptoArbBase,
    class: ModeClass,
    result: OrderResult,
    now: DateTime,
    ok: bool,
) -> bool {
    match lookup(pre.pending_stop_loss.rows(), result.token_id@) {
        Some(psl) => if result.success {
            sale_confirmed(pre, post, class, result.token_id@, psl, ok)
        } else {
            &&& ok
            &&& post.pending_stop_loss.rows() == dropped(
                pre.pending_stop_loss.rows(),
                result.token_id@,
            )
            &&& post == (CryptoArbBase { pending_stop_loss: post.pending_stop_loss, ..pre })
        },
        None => {
            &&& ok
            &&& mode_entry_placed(pre.rt, post.rt, class, result, now)
            &&& post == (CryptoArbBase { rt: post.rt, ..pre })
        },
    }
}

/// A limit order of the mode was filled and became a position; any other is left alone.
pub open spec fn mode_order_filled(
    pre: CryptoArbRuntime,
    post: CryptoArbRuntime,
    class: ModeClass,
    order_id: OrderId,
    price: Decimal,
    size: Decimal,
    now: DateTime,
) -> bool {
    match lookup(pre.open_limit_orders.rows(), order_id@) {
        Some(lo) => if class.owns(lo.mode) {
            &&& post.open_limit_orders.rows() == dropped(pre.open_limit_orders.rows(), order_id@)
            &&& post.positions@ == pre.positions@.push(
                position_from(lo, price, size, Some(order_id), now),
            )
            &&& post.position_lifecycle.rows() == with_lifecycle(
                pre.position_lifecycle.rows(),
                lo.token_id@,
            )
            &&& post == (CryptoArbRuntime {
                open_limit_orders: post.open_limit_orders,
                positions: post.positions,
                position_lifecycle: post.position_lifecycle,
                ..pre
            })
        } else {
            post == pre
        },
        None => post == pre,
    }
}

/// A limit order of the mode was filled in part and keeps what is not filled yet.
pub open spec fn mode_partly_filled(
    pre: CryptoArbRuntime,
    post: CryptoArbRuntime,
    class: ModeClass,
    order_id: Seq<char>,
    remaining: Decimal,
) -> bool {
    &&& post.open_limit_orders.rows() == (match lookup(pre.open_limit_orders.rows(), order_id) {
        Some(lo) => if class.owns(lo.mode) {
            stored(
                pre.open_limit_orders.rows(),
                order_id,
                (OpenLimitOrder { size: remaining, ..lo }),
            )
        } else {
            pre.open_limit_orders.rows()
        },
        None => pre.open_limit_orders.rows(),
    })
    &&& post == (CryptoArbRuntime { open_limit_orders: post.open_limit_orders, ..pre })
}

/// A rejected order was noted: a pending entry of the mode is dropped, and a sale is no
/// longer awaited.
pub open spec fn mode_rejected(
    pre: CryptoArbBase,
    post: CryptoArbBase,
    class: ModeClass,
    token: Option<Seq<char>>,
) -> bool {
    match token {
        None => post == pre,
        Some(t) => {
            &&& post.pending_stop_loss.rows() == dropped(pre.pending_stop_loss.rows(), t)
            &&& post.rt.pending_orders.rows() == (match lookup(pre.rt.pending_orders.rows(), t) {
                Some(p) => if class.owns(p.mode) {
                    dropped(pre.rt.pending_orders.rows(), t)
                } else {
                    pre.rt.pending_orders.rows()
                },
                None => pre.rt.pending_orders.rows(),
            })
            &&& post == (CryptoArbBase {
                pending_stop_loss: post.pending_stop_loss,
                rt: CryptoArbRuntime { pending_orders: post.rt.pending_orders, ..pre.rt },
                ..pre
            })
        },
    }
}

/// What checking sales changes: the sales awaited, the marks for resting sales, and the
/// actions so far.
pub ghost struct SaleBook {
    pub awaited: Seq<(Seq<char>, PendingStopLoss)>,
    pub marks: Seq<(Seq<char>, bool)>,
    pub actions: Seq<ActionView>,
}

/// What an order book means for one position of the mode. `None` is an overflow.
pub open spec fn sale_step(
    rt: CryptoArbRuntime,
    b: SaleBook,
    pos: ArbitragePosition,
    snapshot: OrderbookSnapshot,
    now: DateTime,
) -> Option<SaleBook> {
    if has_key(b.awaited, pos.token_id@) {
        Some(b)
    } else {
        match stop_loss_of(rt, has_key(b.marks, pos.token_id@), pos, snapshot, now) {
            None => None,
            Some(None) => Some(b),
            Some(Some(o)) => Some(
                SaleBook {
                    awaited: stored(
                        b.awaited,
                        pos.token_id@,
                        (PendingStopLoss { exit_price: o.exit_price, order_type: o.order_type }),
                    ),
                    marks: dropped(b.marks, pos.token_id@),
                    actions: b.actions.push(ActionView::PlaceOrder(o.order@)),
                },
            ),
        }
    }
}

/// What an order book means for the positions of the mode, one after the other.
pub open spec fn sale_path(
    rt: CryptoArbRuntime,
    b: SaleBook,
    class: ModeClass,
    positions: Seq<ArbitragePosition>,
    snapshot: OrderbookSnapshot,
    now: DateTime,
) -> Option<SaleBook>
    decreases positions.len(),
{
    if positions.len() == 0 {
        Some(b)
    } else {
        let pos = positions.last();
        match sale_path(rt, b, class, positions.drop_last(), snapshot, now) {
            None => None,
            Some(c) => if class.owns(pos.mode) && pos.token_id@ == snapshot.token_id@ {
                sale_step(rt, c, pos, snapshot, now)
            } else {
                Some(c)
            },
        }
    }
}

proof fn lemma_sale_path_overflows(
    rt: CryptoArbRuntime,
    b: SaleBook,
    class: ModeClass,
    positions: Seq<ArbitragePosition>,
    snapshot: OrderbookSnapshot,
    now: DateTime,
    n: int,
)
    requires
        0 <= n <= positions.len(),
        sale_path(rt, b, class, positions.take(n), snapshot, now) is None,
    ensures
        sale_path(rt, b, class, positions, snapshot, now) is None,
    decreases positions.len(),
{
    if n < positions.len() {
        assert(positions.drop_last().take(n) =~= positions.take(n));
        lemma_sale_path_overflows(rt, b, class, positions.drop_last(), snapshot, now, n);
    } else {
        assert(positions.take(n) =~= positions);
    }
}

/// A sale that is awaited is not asked for again.
pub proof fn a_sale_is_asked_once(
    rt: CryptoArbRuntime,
    b: SaleBook,
    pos: ArbitragePosition,
    snapshot: OrderbookSnapshot,
    now: DateTime,
    later: OrderbookSnapshot,
    then: DateTime,
)
    requires
        sale_step(rt, b, pos, snapshot, now) is Some,
        (sale_step(rt, b, pos, snapshot, now)->0).actions != b.actions,
    ensures
        ({
            let c = sale_step(rt, b, pos, snapshot, now)->0;
            sale_step(rt, c, pos, later, then) == Some(c)
        }),
{
    match stop_loss_of(rt, has_key(b.marks, pos.token_id@), pos, snapshot, now) {
        Some(Some(o)) => {
            lemma_lookup_stored(
                b.awaited,
                pos.token_id@,
                (PendingStopLoss { exit_price: o.exit_price, order_type: o.order_type }),
                pos.token_id@,
            );
        },
        _ => {},
    }
}

/// The sale side of a state.
pub open spec fn sale_book(base: CryptoArbBase) -> SaleBook {
    SaleBook {
        awaited: base.pending_stop_loss.rows(),
        marks: base.stop_loss_use_gtc.rows(),
        actions: Seq::empty(),
    }
}

/// An order book was handled: what it tells was noted, then the sales of the mode's
/// positions of its token were checked.
pub open spec fn mode_book_run(
    pre: CryptoArbBase,
    post: CryptoArbBase,
    class: ModeClass,
    snapshot: OrderbookSnapshot,
    now: DateTime,
    r: Result<Vec<Action>, Overflow>,
) -> bool {
    &&& book_noted(pre.rt, post.rt, snapshot)
    &&& match sale_path(
        post.rt,
        sale_book(pre),
        class,
        post.rt.positions@,
        snapshot,
        now,
    ) {
        None => r is Err,
        Some(b) => r is Ok && b == (SaleBook { actions: acts(r->Ok_0@), ..sale_book(post) }),
    }
    &&& post == (CryptoArbBase {
        rt: post.rt,
        pending_stop_loss: post.pending_stop_loss,
        stop_loss_use_gtc: post.stop_loss_use_gtc,
        ..pre
    })
}

impl CryptoArbBase {
    /// Takes note of a confirmed sale.
    fn confirm_sale(&mut self, class: ModeClass, token: &str, psl: PendingStopLoss) -> (r: Result<
        (),
        Overflow,
    >)
        requires
            lookup(old(self).pending_stop_loss.rows(), token@) == Some(psl),
        ensures
            sale_confirmed(*old(self), *final(self), class, token@, psl, r is Ok),
    {
        match find_position(&self.rt.positions, token) {
            None => {
                let _ = self.pending_stop_loss.remove(token);
                Ok(())
            },
            Some(i) => {
                let pos: ArbitragePosition = self.rt.positions[i].clone();
                let mine: bool = class.is_mine(&pos.mode);
                if mine {
                    let pnl: Decimal = sale_pnl(
                        &pos,
                        psl.exit_price,
                        self.rt.config.fee.taker_fee_rate,
                    )?;
                    self.record_trade_pnl(&pos.mode, pnl)?;
                }
                let _ = self.pending_stop_loss.remove(token);
                let _ = self.remove_position_by_token(token);
                if !mine {
                    self.rt.record_position(pos);
                }
                Ok(())
            },
        }
    }

    /// Takes note of the answer to an entry order of the mode.
    fn entry_answered(&mut self, class: ModeClass, result: &OrderResult, now: DateTime)
        ensures
            mode_entry_placed(old(self).rt, final(self).rt, class, *result, now),
            *final(self) == (CryptoArbBase { rt: final(self).rt, ..*old(self) }),
    {
        let i: usize = self.rt.pending_orders.find(result.token_id.as_str());
        if i >= self.rt.pending_orders.len() || !class.is_mine(
            &self.rt.pending_orders.value_at(i).mode,
        ) {
            return;
        }
        let p: PendingOrder = self.rt.pending_orders.remove_at(i);
        if !result.success {
            return;
        }
        if p.order_type == OrderType::Gtc {
            match &result.order_id {
                Some(id) => {
                    self.rt.open_limit_orders.insert(
                        id.clone(),
                        OpenLimitOrder {
                            order_id: id.clone(),
                            market_id: p.market_id,
                            token_id: p.token_id,
                            side: p.side,
                            price: p.price,
                            size: p.size,
                            reference_price: p.reference_price,
                            coin: p.coin,
                            placed_at: now,
                            kelly_fraction: p.kelly_fraction,
                            estimated_fee: p.estimated_fee,
                            tick_size: p.tick_size,
                            fee_rate_bps: p.fee_rate_bps,
                            cancel_pending: false,
                            reconcile_miss_count: 0,
                            mode: p.mode,
                        },
                    );
                },
                None => {},
            }
            return;
        }
        let position = ArbitragePosition {
            market_id: p.market_id,
            token_id: p.token_id,
            side: p.side,
            entry_price: p.price,
            size: p.size,
            reference_price: p.reference_price,
            coin: p.coin,
            order_id: copy_id(&result.order_id),
            entry_time: now,
            kelly_fraction: p.kelly_fraction,
            peak_bid: p.price,
            peak_price: p.price,
            estimated_fee: p.estimated_fee,
            entry_market_price: p.price,
            tick_size: p.tick_size,
            fee_rate_bps: p.fee_rate_bps,
            entry_order_type: p.order_type,
            entry_fee_per_share: p.estimated_fee,
            recovery_cost: Decimal::zero(),
            mode: p.mode,
        };
        self.rt.record_position(position);
    }

    /// Takes note of the answer to an order: a sale that was awaited, else an entry of the
    /// mode. An error, with nothing changed, where the arithmetic leaves its range.
    pub fn note_order_placed(&mut self, class: ModeClass, result: &OrderResult, now: DateTime) -> (r:
        Result<(), Overflow>)
        ensures
            mode_order_placed(*old(self), *final(self), class, *result, now, r is Ok),
    {
        let awaited: Option<PendingStopLoss> = match self.pending_stop_loss.get(
            result.token_id.as_str(),
        ) {
            Some(p) => Some(*p),
            None => None,
        };
        match awaited {
            Some(psl) => {
                if result.success {
                    self.confirm_sale(class, result.token_id.as_str(), psl)
                } else {
                    let _ = self.pending_stop_loss.remove(result.token_id.as_str());
                    Ok(())
                }
            },
            None => {
                self.entry_answered(class, result, now);
                Ok(())
            },
        }
    }

    /// Takes note of a filled limit order of the mode.
    pub fn note_order_filled(
        &mut self,
        class: ModeClass,
        order_id: &OrderId,
        price: Decimal,
        size: Decimal,
        now: DateTime,
    )
        ensures
            mode_order_filled(old(self).rt, final(self).rt, class, *order_id, price, size, now),
            *final(self) == (CryptoArbBase { rt: final(self).rt, ..*old(self) }),
    {
        let i: usize = self.rt.open_limit_orders.find(order_id.as_str());
        if i >= self.rt.open_limit_orders.len() || !class.is_mine(
            &self.rt.open_limit_orders.value_at(i).mode,
        ) {
            return;
        }
        let lo: OpenLimitOrder = self.rt.open_limit_orders.remove_at(i);
        let position = ArbitragePosition::from_limit_order(
            &lo,
            price,
            size,
            Some(order_id.clone()),
            now,
        );
        self.rt.record_position(position);
    }

    /// Takes note of a limit order of the mode that was filled in part.
    pub fn note_partly_filled(&mut self, class: ModeClass, order_id: &str, remaining: Decimal)
        ensures
            mode_partly_filled(old(self).rt, final(self).rt, class, order_id@, remaining),
            *final(self) == (CryptoArbBase { rt: final(self).rt, ..*old(self) }),
    {
        let i: usize = self.rt.open_limit_orders.find(order_id);
        if i < self.rt.open_limit_orders.len() && class.is_mine(
            &self.rt.open_limit_orders.value_at(i).mode,
        ) {
            let mut lo: OpenLimitOrder = self.rt.open_limit_orders.value_at(i).clone();
            lo.size = remaining;
            self.rt.open_limit_orders.set_at(i, lo);
        }
    }

    /// Takes note of a cancelled limit order, of whatever mode.
    pub fn note_cancelled(&mut self, order_id: &str)
        ensures
            final(self).rt.open_limit_orders.rows() == dropped(
                old(self).rt.open_limit_orders.rows(),
                order_id@,
            ),
            *final(self) == (CryptoArbBase {
                rt: CryptoArbRuntime {
                    open_limit_orders: final(self).rt.open_limit_orders,
                    ..old(self).rt
                },
                ..*old(self)
            }),
    {
        let _ = self.rt.open_limit_orders.remove(order_id);
    }

    /// Takes note of a rejected order.
    pub fn note_rejected(&mut self, class: ModeClass, token_id: Option<&str>)
        ensures
            mode_rejected(
                *old(self),
                *final(self),
                class,
                match token_id {
                    Some(t) => Some(t@),
                    None => None,
                },
            ),
    {
        match token_id {
            None => {},
            Some(t) => {
                let i: usize = self.rt.pending_orders.find(t);
                if i < self.rt.pending_orders.len() && class.is_mine(
                    &self.rt.pending_orders.value_at(i).mode,
                ) {
                    let _ = self.rt.pending_orders.remove(t);
                }
                let _ = self.pending_stop_loss.remove(t);
            },
        }
    }

    /// Takes note of an order book, and checks the sales of the mode's positions of its
    /// token. What was done before an overflow stays done.
    pub fn note_orderbook(&mut self, class: ModeClass, snapshot: &OrderbookSnapshot, now: DateTime) -> (r:
        Result<Vec<Action>, Overflow>)
        ensures
            mode_book_run(*old(self), *final(self), class, *snapshot, now, r),
    {
        match snapshot.best_ask() {
            Some(ask) => {
                self.rt.cached_asks.insert(snapshot.token_id.clone(), ask);
            },
            None => {},
        }
        match snapshot.best_bid() {
            Some(bid) => {
                self.rt.update_peak_bid(snapshot.token_id.as_str(), bid);
            },
            None => {},
        }
        let ghost mid = *self;
        let mut actions: Vec<Action> = Vec::new();
        assert(acts(actions@) =~= Seq::empty());
        let mut i: usize = 0;
        while i < self.rt.positions.len()
            invariant
                i <= self.rt.positions@.len(),
                book_noted(old(self).rt, mid.rt, *snapshot),
                mid == (CryptoArbBase { rt: mid.rt, ..*old(self) }),
                *self == (CryptoArbBase {
                    pending_stop_loss: self.pending_stop_loss,
                    stop_loss_use_gtc: self.stop_loss_use_gtc,
                    ..mid
                }),
                sale_path(
                    mid.rt,
                    sale_book(mid),
                    class,
                    mid.rt.positions@.take(i as int),
                    *snapshot,
                    now,
                ) == Some(SaleBook { actions: acts(actions@), ..sale_book(*self) }),
            decreases self.rt.positions@.len() - i,
        {
            let ghost all = mid.rt.positions@;
            assert(all.take(i as int + 1).drop_last() =~= all.take(i as int));
            let pos: ArbitragePosition = self.rt.positions[i].clone();
            if class.is_mine(&pos.mode) && same_text(
                pos.token_id.as_str(),
                snapshot.token_id.as_str(),
            ) && !self.pending_stop_loss.contains_key(pos.token_id.as_str()) {
                match self.check_stop_loss(&pos, snapshot, now) {
                    Err(_) => {
                        proof {
                            lemma_sale_path_overflows(
                                mid.rt,
                                sale_book(mid),
                                class,
                                all,
                                *snapshot,
                                now,
                                i as int + 1,
                            );
                        }
                        return Err(Overflow);
                    },
                    Ok(None) => {},
                    Ok(Some(o)) => {
                        self.pending_stop_loss.insert(
                            pos.token_id.clone(),
                            PendingStopLoss { exit_price: o.exit_price, order_type: o.order_type },
                        );
                        let a = Action::PlaceOrder(o.order);
                        proof {
                            lemma_acts_push(actions@, a);
                        }
                        actions.push(a);
                    },
                }
            }
            i += 1;
        }
        assert(mid.rt.positions@.take(i as int) =~= mid.rt.positions@);
        Ok(actions)
    }
}

/// A sale gains what the position fetches above the entry price, less the estimated entry fee and
/// the taker's fee on each share.
pub proof fn a_sale_pays_both_fees(
    pos: ArbitragePosition,
    exit: Decimal,
    rate: Decimal,
    fee: Decimal,
)
    requires
        taker_fee_of(exit, rate) == Some(fee),
        is_amount(pos.entry_price),
        is_amount(exit),
        is_amount(pos.size),
        is_amount(pos.estimated_fee),
        product_is_exact(fee, pos.size),
        difference_is_exact(
            difference_of(
                product_of(difference_of(exit, pos.entry_price)->0, pos.size)->0,
                product_of(pos.estimated_fee, pos.size)->0,
            )->0,
            product_of(fee, pos.size)->0,
        ),
    ensures
        ({
            let pnl = sale_pnl_of(pos, exit, rate);
            &&& pnl is Some
            &&& value(pnl->0) == (value(exit) - value(pos.entry_price)) * value(pos.size) - value(
                pos.estimated_fee,
            ) * value(pos.size) - value(fee) * value(pos.size)
        }),
{
    let (e, n) = (pos.entry_price, pos.size);
    small_sums_are_exact(exit, e, 6, 6);
    let rise = difference_of(exit, e)->0;
    small_products_are_exact(rise, n, 7, 6, 6, 6);
    small_products_are_exact(pos.estimated_fee, n, 6, 6, 6, 6);
    products_multiply(fee, n);
    let gain = product_of(rise, n)->0;
    let (paid, due) = (product_of(pos.estimated_fee, n)->0, product_of(fee, n)->0);
    lemma_within_more(paid, 12, 12, 13, 12);
    small_sums_are_exact(gain, paid, 13, 12);
    let left = difference_of(gain, paid)->0;
    differences_add_up(left, due);
}

/// A confirmed sale of the mode's own position closes it and counts its result with the mode's
/// figures; the sale is awaited no more.
pub proof fn a_confirmed_sale_closes_the_position(
    pre: CryptoArbBase,
    post: CryptoArbBase,
    class: ModeClass,
    token: Seq<char>,
    psl: PendingStopLoss,
    i: int,
    pnl: Decimal,
)
    requires
        sale_confirmed(pre, post, class, token, psl, true),
        first_position(pre.rt.positions@, token, i),
        class.owns(pre.rt.positions@[i].mode),
        sale_pnl_of(
            pre.rt.positions@[i],
            psl.exit_price,
            pre.rt.config.fee.taker_fee_rate,
        ) == Some(pnl),
        distinct_keys(pre.pending_stop_loss.rows()),
        distinct_keys(pre.rt.position_lifecycle.rows()),
    ensures
        ({
            let key = mode_key(pre.rt.positions@[i].mode);
            let after = lookup(post.mode_stats.rows(), key);
            let before = mode_figures(pre, pre.rt.positions@[i].mode);
            &&& post.rt.positions@ == pre.rt.positions@.remove(i)
            &&& lookup(post.pending_stop_loss.rows(), token) is None
            &&& lookup(post.rt.position_lifecycle.rows(), token) is None
            &&& after is Some && after->0.entered == before.entered + 1
            &&& value(pnl) >= 0 as real ==> after->0.won == before.won + 1
            &&& value(pnl) < 0 as real ==> after->0.lost == before.lost + 1
        }),
{
    let mode = pre.rt.positions@[i].mode;
    lemma_position_of(pre.rt.positions@, token, i);
    lemma_lookup_dropped(pre.pending_stop_loss.rows(), token, token);
    lemma_lookup_dropped(pre.rt.position_lifecycle.rows(), token, token);
    signs_agree(pnl);
    comparing_compares_values(zero(), pnl);
    lemma_lookup_stored(
        pre.mode_stats.rows(),
        mode_key(mode),
        mode_figures(pre, mode).recorded(pnl)->0,
        mode_key(mode),
    );
}

/// An accepted entry of the mode rests at its price and size where it is to rest, and else is held
/// at its price and size with its estimated fee; a refused one is forgotten, and one of another mode
/// left alone.
pub proof fn an_accepted_entry_of_the_mode_rests_or_is_held(
    pre: CryptoArbRuntime,
    post: CryptoArbRuntime,
    class: ModeClass,
    result: OrderResult,
    now: DateTime,
    p: PendingOrder,
)
    requires
        mode_entry_placed(pre, post, class, result, now),
        lookup(pre.pending_orders.rows(), result.token_id@) == Some(p),
        distinct_keys(pre.pending_orders.rows()),
    ensures
        !class.owns(p.mode) ==> post == pre,
        class.owns(p.mode) ==> lookup(post.pending_orders.rows(), result.token_id@) is None,
        !result.success || p.order_type == OrderType::Gtc ==> post.positions == pre.positions,
        class.owns(p.mode) && result.success && p.order_type == OrderType::Gtc && result.order_id
            is Some ==> ({
            let lo = lookup(post.open_limit_orders.rows(), result.order_id->0@);
            lo is Some && lo->0.price == p.price && lo->0.size == p.size && lo->0.token_id
                == p.token_id && lo->0.side == p.side && lo->0.placed_at == now
        }),
        class.owns(p.mode) && result.success && p.order_type != OrderType::Gtc ==> ({
            let pos = post.positions@.last();
            post.positions@.len() == pre.positions@.len() + 1 && pos.entry_price == p.price
                && pos.size == p.size && pos.token_id == p.token_id && pos.side == p.side
                && pos.entry_fee_per_share == p.estimated_fee && pos.entry_time == now
        }),
{
    lemma_lookup_dropped(pre.pending_orders.rows(), result.token_id@, result.token_id@);
    if result.order_id is Some {
        let id = result.order_id->0;
        lemma_lookup_stored(pre.open_limit_orders.rows(), id@, limit_from(p, id, now), id@);
    }
}

/// A filled entry of the mode is held at the price and size of the fill and rests no more; one of
/// another mode is left alone.
pub proof fn a_filled_entry_of_the_mode_is_held(
    pre: CryptoArbRuntime,
    post: CryptoArbRuntime,
    class: ModeClass,
    order_id: OrderId,
    price: Decimal,
    size: Decimal,
    now: DateTime,
    lo: OpenLimitOrder,
)
    requires
        mode_order_filled(pre, post, class, order_id, price, size, now),
        lookup(pre.open_limit_orders.rows(), order_id@) == Some(lo),
        distinct_keys(pre.open_limit_orders.rows()),
    ensures
        !class.owns(lo.mode) ==> post == pre,
        class.owns(lo.mode) ==> ({
            let pos = post.positions@.last();
            &&& lookup(post.open_limit_orders.rows(), order_id@) is None
            &&& post.positions@.len() == pre.positions@.len() + 1
            &&& pos.entry_price == price && pos.size == size && pos.token_id == lo.token_id
                && pos.side == lo.side && pos.market_id == lo.market_id && pos.entry_time == now
        }),
{
    lemma_lookup_dropped(pre.open_limit_orders.rows(), order_id@, order_id@);
}

/// A part fill of an entry of the mode leaves what remains of it; a rejection drops a pending entry
/// of the mode, and no sale of its token is awaited.
pub proof fn part_fills_and_rejections_are_noted(
    pre: CryptoArbBase,
    post: CryptoArbBase,
    class: ModeClass,
    id: Seq<char>,
    remaining: Decimal,
)
    requires
        distinct_keys(pre.pending_stop_loss.rows()),
        distinct_keys(pre.rt.pending_orders.rows()),
    ensures
        mode_partly_filled(pre.rt, post.rt, class, id, remaining) && lookup(
            pre.rt.open_limit_orders.rows(),
            id,
        ) is Some && class.owns(lookup(pre.rt.open_limit_orders.rows(), id)->0.mode) ==> lookup(
            post.rt.open_limit_orders.rows(),
            id,
        ) is Some && lookup(post.rt.open_limit_orders.rows(), id)->0.size == remaining,
        mode_rejected(pre, post, class, Some(id)) ==> lookup(post.pending_stop_loss.rows(), id)
            is None && (lookup(pre.rt.pending_orders.rows(), id) is Some ==> (lookup(
            post.rt.pending_orders.rows(),
            id,
        ) is None <==> class.owns(lookup(pre.rt.pending_orders.rows(), id)->0.mode))),
{
    lemma_lookup_dropped(pre.pending_stop_loss.rows(), id, id);
    lemma_lookup_dropped(pre.rt.pending_orders.rows(), id, id);
    if lookup(pre.rt.open_limit_orders.rows(), id) is Some {
        let lo = lookup(pre.rt.open_limit_orders.rows(), id)->0;
        lemma_lookup_stored(
            pre.rt.open_limit_orders.rows(),
            id,
            (OpenLimitOrder { size: remaining, ..lo }),
            id,
        );
    }
}

/// An order book asks for the sale of the mode's own positions in its token, and of no others.
pub proof fn a_book_sells_the_positions_of_its_token(
    rt: CryptoArbRuntime,
    b: SaleBook,
    class: ModeClass,
    positions: Seq<ArbitragePosition>,
    pos: ArbitragePosition,
    snapshot: OrderbookSnapshot,
    now: DateTime,
    c: SaleBook,
    sale: Option<StopLossOrder>,
)
    requires
        sale_path(rt, b, class, positions, snapshot, now) == Some(c),
        stop_loss_of(rt, has_key(c.marks, pos.token_id@), pos, snapshot, now) == Some(sale),
    ensures
        ({
            let after = sale_path(rt, b, class, positions.push(pos), snapshot, now);
            let asked = class.owns(pos.mode) && pos.token_id@ == snapshot.token_id@ && !has_key(
                c.awaited,
                pos.token_id@,
            ) && sale is Some;
            let awaited = lookup(after->0.awaited, pos.token_id@);
            &&& after is Some
            &&& !asked ==> after->0 == c
            &&& asked ==> after->0.actions == c.actions.push(
                ActionView::PlaceOrder(sale->0.order@),
            ) && awaited is Some && awaited->0.exit_price == sale->0.exit_price
        }),
{
    assert(positions.push(pos).drop_last() =~= positions);
    if sale is Some {
        lemma_lookup_stored(
            c.awaited,
            pos.token_id@,
            (PendingStopLoss { exit_price: sale->0.exit_price, order_type: sale->0.order_type }),
            pos.token_id@,
        );
    }
}

} // verus!
