//! What becomes of orders: placed, filled, partly filled, rejected, cancelled, or not
//! cancelled after all.
use crate::decimal::{
    Decimal, Overflow, dec, decimal_text, difference_of, larger, lemma_dec_parts, less, minus,
    negated, ok_of, product_of, times, zero,
};
use crate::domain::lifecycle::{
    LifecycleView, PositionLifecycle, PositionLifecycleState, StateView,
};
use crate::domain::market::MarketWithReference;
use crate::domain::position::{ArbitragePosition, ExitOrderMeta, ExitView, copy_id};
use crate::domain::telemetry::StatsView;
use crate::exchange::{Action, ActionView, OrderId, OrderRequest, OrderSide, OrderType, acts};
use crate::fee_math::{checked_taker_fee, taker_fee_of};
use crate::runtime::{CryptoArbRuntime, signed, to_signed};
use crate::services::position::{
    costed, find_position, first_position, holds_token, lemma_position_of, position_of, reduction,
    with_lifecycle, without_token,
};
use crate::table::{
    distinct_keys, dropped, lemma_lookup_dropped, lemma_lookup_stored, lookup, stored,
    storing_keeps_keys_distinct,
};
use crate::tailend::exit::{TailEndStrategy, exit_order, life_of, make_stamped_id, stamped_id};
use crate::text::{after_prefix, begins_with, opt_text, owned};
use crate::time::{DateTime, shifted, shifting_moves_by_seconds};
use crate::value::{
    comparing_compares_values, difference_is_exact, differences_add_up, is_amount, is_within,
    lemma_within_more, max_of, negating_negates, picking_picks_values, product_is_exact,
    products_multiply, small_products_are_exact, small_sums_are_exact, sum_is_exact, sums_add_up,
    value, value_of_parts,
};
use vstd::prelude::*;
use vstd::string::*;

verus! {

/// What exit orders touch: positions, lifecycles, exit orders, results, and the cooldowns
/// after a recovery.
pub ghost struct Desk {
    pub positions: Seq<ArbitragePosition>,
    pub lives: Seq<(Seq<char>, LifecycleView)>,
    pub exits: Seq<(Seq<char>, ExitView)>,
    pub stats: StatsView,
    pub recovery: Seq<(Seq<char>, DateTime)>,
}

/// The desk of a state.
pub open spec fn desk(rt: CryptoArbRuntime) -> Desk {
    Desk {
        positions: rt.positions@,
        lives: rt.position_lifecycle.rows(),
        exits: rt.exit_orders_by_id.rows(),
        stats: rt.stats@,
        recovery: rt.recovery_exit_cooldowns.rows(),
    }
}

/// Two states agree but for the desk.
pub open spec fn desk_only(a: CryptoArbRuntime, b: CryptoArbRuntime) -> bool {
    b == (CryptoArbRuntime {
        positions: b.positions,
        position_lifecycle: b.position_lifecycle,
        exit_orders_by_id: b.exit_orders_by_id,
        stats: b.stats,
        recovery_exit_cooldowns: b.recovery_exit_cooldowns,
        ..a
    })
}

/// An exit order is a hedge.
pub open spec fn is_hedge(meta: ExitView) -> bool {
    begins_with(meta.source, "Hedge"@)
}

/// Whether an exit order is a hedge.
pub fn check_hedge(meta: &ExitOrderMeta) -> (r: bool)
    ensures
        r == is_hedge(meta@),
{
    after_prefix(meta.source_state.as_str(), "Hedge").is_some()
}

/// The request to cancel an order, if there is one.
pub open spec fn cancel_list(id: Option<Seq<char>>) -> Seq<ActionView> {
    match id {
        Some(i) => seq![ActionView::CancelOrder(i)],
        None => Seq::empty(),
    }
}

/// The request to cancel an order, if there is one.
pub fn cancel_actions(id: Option<OrderId>) -> (r: Vec<Action>)
    ensures
        acts(r@) == cancel_list(opt_text(id)),
{
    let mut r: Vec<Action> = Vec::new();
    let ghost want = cancel_list(opt_text(id));
    match id {
        Some(i) => {
            r.push(Action::CancelOrder(i));
        },
        None => {},
    }
    assert(acts(r@) =~= want);
    r
}

/// No action.
pub fn no_actions() -> (r: Vec<Action>)
    ensures
        r@.len() == 0,
        acts(r@) == Seq::<ActionView>::empty(),
{
    let r: Vec<Action> = Vec::new();
    assert(acts(r@) =~= Seq::<ActionView>::empty());
    r
}

/// The hedge order of an exit in flight.
pub open spec fn hedge_id_of(state: StateView) -> Option<Seq<char>> {
    match state {
        StateView::ExitExecuting { hedge_order_id, .. } => hedge_order_id,
        _ => None,
    }
}

/// The price of the hedge order of an exit in flight.
pub open spec fn hedge_price_of(state: StateView) -> Option<Decimal> {
    match state {
        StateView::ExitExecuting { hedge_price, .. } => hedge_price,
        _ => None,
    }
}

/// The sell order of an exit in flight.
pub open spec fn sell_id_of(state: StateView) -> Option<Seq<char>> {
    match state {
        StateView::ExitExecuting { order_id, .. } => Some(order_id),
        _ => None,
    }
}

/// The hedge order of an exit in flight, and its price.
pub fn find_hedge_id(state: &PositionLifecycleState) -> (r: (Option<OrderId>, Option<Decimal>))
    ensures
        opt_text(r.0) == hedge_id_of(state@),
        r.1 == hedge_price_of(state@),
{
    match state {
        PositionLifecycleState::ExitExecuting { hedge_order_id, hedge_price, .. } => (
            copy_id(hedge_order_id),
            *hedge_price,
        ),
        _ => (None, None),
    }
}

fn find_sell_id(state: &PositionLifecycleState) -> (r: Option<OrderId>)
    ensures
        opt_text(r) == sell_id_of(state@),
{
    match state {
        PositionLifecycleState::ExitExecuting { order_id, .. } => Some(order_id.clone()),
        _ => None,
    }
}

/// A state without its hedge.
pub open spec fn unhedged(state: StateView) -> StateView {
    match state {
        StateView::ExitExecuting { order_id, order_type, exit_price, submitted_at, .. } =>
        StateView::ExitExecuting {
            order_id,
            order_type,
            exit_price,
            submitted_at,
            hedge_order_id: None,
            hedge_price: None,
        },
        other => other,
    }
}

/// Takes the hedge out of an exit in flight.
pub fn drop_hedge(lc: &mut PositionLifecycle)
    ensures
        final(lc)@ == (LifecycleView { state: unhedged(old(lc)@.state), ..old(lc)@ }),
{
    match &mut lc.state {
        PositionLifecycleState::ExitExecuting { hedge_order_id, hedge_price, .. } => {
            *hedge_order_id = None;
            *hedge_price = None;
        },
        _ => {},
    }
}

/// A lifecycle without a pending exit.
pub open spec fn unpended(lc: LifecycleView) -> LifecycleView {
    LifecycleView { pending_exit: None, ..lc }
}

/// The lifecycles once a token's is back in good health, where that is allowed.
pub open spec fn healed(
    lives: Seq<(Seq<char>, LifecycleView)>,
    token: Seq<char>,
    reason: Seq<char>,
    now: DateTime,
) -> Seq<(Seq<char>, LifecycleView)> {
    stored(
        with_lifecycle(lives, token),
        token,
        unpended(life_of(lives, token)).moved_if_allowed(StateView::Healthy, reason, now),
    )
}

/// The lifecycles once a token's hedge is forgotten.
pub open spec fn hedge_forgotten(lives: Seq<(Seq<char>, LifecycleView)>, token: Seq<char>) -> Seq<
    (Seq<char>, LifecycleView),
> {
    let lc = life_of(lives, token);
    stored(
        with_lifecycle(lives, token),
        token,
        LifecycleView { state: unhedged(lc.state), ..lc },
    )
}

/// The desk once shares are taken off a position, with the position as it was and whether
/// it is closed. The outer `None` is an overflow.
pub open spec fn desk_reduced(d: Desk, token: Seq<char>, size: Decimal) -> Option<
    (Desk, Option<(ArbitragePosition, bool)>),
> {
    match reduction(d.positions, token, size) {
        None => None,
        Some(None) => Some((d, None)),
        Some(Some((left, pos, closed))) => Some(
            (
                Desk {
                    positions: left,
                    lives: if closed {
                        dropped(d.lives, token)
                    } else {
                        d.lives
                    },
                    exits: if closed {
                        without_token(d.exits, token)
                    } else {
                        d.exits
                    },
                    ..d
                },
                Some((pos, closed)),
            ),
        ),
    }
}

/// The desk once a market is in its cooldown after a recovery. `None` is an overflow.
pub open spec fn desk_cooled(rt: CryptoArbRuntime, d: Desk, market: Seq<char>) -> Option<Desk> {
    match shifted(rt.last_event_time, signed(rt.config.stop_loss.recovery_cooldown_secs)) {
        None => None,
        Some(until) => Some(Desk { recovery: stored(d.recovery, market, until), ..d }),
    }
}

/// The fee per share of an exit: none for a resting order.
pub open spec fn exit_fee_of(rt: CryptoArbRuntime, order_type: OrderType, price: Decimal) -> Option<
    Decimal,
> {
    if order_type == OrderType::Gtc {
        Some(zero())
    } else {
        taker_fee_of(price, rt.config.fee.taker_fee_rate)
    }
}

/// The result of selling shares of a position:
/// `(price - entry) * size - entry_fee * size - exit_fee * size`.
pub open spec fn exit_pnl_of(
    pos: ArbitragePosition,
    price: Decimal,
    size: Decimal,
    exit_fee: Option<Decimal>,
) -> Option<Decimal> {
    minus(
        minus(
            times(minus(Some(price), Some(pos.entry_price)), Some(size)),
            times(Some(pos.entry_fee_per_share), Some(size)),
        ),
        times(exit_fee, Some(size)),
    )
}

/// The result of selling shares of a position.
pub fn exit_pnl(pos: &ArbitragePosition, price: Decimal, size: Decimal, exit_fee: Decimal) -> (r: Result<
    Decimal,
    Overflow,
>)
    ensures
        ok_of(r) == exit_pnl_of(*pos, price, size, Some(exit_fee)),
{
    let gain: Decimal = price.minus(pos.entry_price)?.times(size)?;
    let entry: Decimal = pos.entry_fee_per_share.times(size)?;
    let exit: Decimal = exit_fee.times(size)?;
    gain.minus(entry)?.minus(exit)
}

/// A hedge was filled: its cost is booked, the set is complete, and the sale is called off.
/// `None` is an overflow.
pub open spec fn hedge_filled(
    d: Desk,
    id: Seq<char>,
    meta: ExitView,
    price: Decimal,
    size: Decimal,
    reason: Seq<char>,
    now: DateTime,
) -> Option<(Desk, Seq<ActionView>)> {
    match product_of(price, size) {
        None => None,
        Some(cost) => match costed(d.positions, meta.token, negated(cost)) {
            None => None,
            Some(positions) => {
                let lc = life_of(d.lives, meta.token);
                Some(
                    (
                        Desk {
                            positions,
                            lives: stored(
                                with_lifecycle(d.lives, meta.token),
                                meta.token,
                                unpended(
                                    lc.moved_if_allowed(
                                        StateView::Hedged { hedge_cost: cost, hedged_at: now },
                                        reason,
                                        now,
                                    ),
                                ),
                            ),
                            exits: dropped(d.exits, id),
                            ..d
                        },
                        cancel_list(sell_id_of(lc.state)),
                    ),
                )
            },
        },
    }
}

/// The price of a resting order for what is left of an exit: some ticks below the price,
/// at least one tick.
pub open spec fn residual_price_of(rt: CryptoArbRuntime, pos: ArbitragePosition, price: Decimal) -> Option<
    Decimal,
> {
    match minus(
        Some(price),
        times(
            Some(pos.tick_size),
            Some(dec(rt.config.stop_loss.gtc_fallback_tick_offset as int, 0)),
        ),
    ) {
        None => None,
        Some(p) => Some(larger(p, pos.tick_size)),
    }
}

/// What is left of a partly filled exit rests on the book; a lifecycle that may not go on
/// with the exit is reset. `None` is an overflow.
pub open spec fn residual_placed(
    rt: CryptoArbRuntime,
    d: Desk,
    id: Seq<char>,
    meta: ExitView,
    pos: ArbitragePosition,
    price: Decimal,
    remaining: Decimal,
    neg_risk: bool,
    now: DateTime,
) -> Option<(Desk, Seq<ActionView>)> {
    match residual_price_of(rt, pos, price) {
        None => None,
        Some(gtc_price) => {
            let gtc_id = stamped_id("exit-gtc-"@, pos.token_id@, now);
            let lc = life_of(d.lives, meta.token);
            let lives = with_lifecycle(d.lives, meta.token);
            let target = StateView::ExitExecuting {
                order_id: gtc_id,
                order_type: OrderType::Gtc,
                exit_price: gtc_price,
                submitted_at: now,
                hedge_order_id: hedge_id_of(lc.state),
                hedge_price: hedge_price_of(lc.state),
            };
            if lc.state.may_become(target) {
                Some(
                    (
                        Desk {
                            lives: stored(
                                lives,
                                meta.token,
                                LifecycleView {
                                    pending_exit: Some(gtc_id),
                                    ..unpended(lc).moved(
                                        target,
                                        "FAK partial fill, GTC residual for "@ + decimal_text(
                                            remaining,
                                        ),
                                        now,
                                    )
                                },
                            ),
                            exits: stored(
                                dropped(d.exits, id),
                                gtc_id,
                                ExitView {
                                    token: meta.token,
                                    order_token: meta.token,
                                    order_type: OrderType::Gtc,
                                    source: "ExitActive(GTC residual)"@,
                                    exit_price: gtc_price,
                                    clip_size: remaining,
                                },
                            ),
                            ..d
                        },
                        seq![exit_order(pos, gtc_price, remaining, OrderType::Gtc, neg_risk)],
                    ),
                )
            } else {
                Some(
                    (
                        Desk {
                            lives: stored(
                                lives,
                                meta.token,
                                unpended(lc).moved_if_allowed(
                                    StateView::Healthy,
                                    "GTC residual transition failed, reset"@,
                                    now,
                                ),
                            ),
                            exits: dropped(d.exits, id),
                            ..d
                        },
                        Seq::empty(),
                    ),
                )
            }
        },
    }
}

/// What is left of a position is too small for its market, or the market is gone.
pub open spec fn is_dust(rt: CryptoArbRuntime, market: Seq<char>, remaining: Decimal) -> bool {
    match lookup(rt.active_markets.rows(), market) {
        Some(m) => less(remaining, m.market.min_order_size),
        None => true,
    }
}

/// The rules of a market's exits.
pub open spec fn market_neg_risk(rt: CryptoArbRuntime, market: Seq<char>) -> bool {
    match lookup(rt.active_markets.rows(), market) {
        Some(m) => m.market.neg_risk,
        None => false,
    }
}

/// A sale was filled: the position shrinks, the result is counted, and what is left is
/// dropped if it is dust, else put up for sale. A closed position starts a cooldown and its
/// hedge is called off. `None` is an overflow.
pub open spec fn sale_filled(
    rt: CryptoArbRuntime,
    d: Desk,
    id: Seq<char>,
    meta: ExitView,
    price: Decimal,
    size: Decimal,
    now: DateTime,
) -> Option<(Desk, Seq<ActionView>)> {
    let lc = life_of(d.lives, meta.token);
    let hedge = hedge_id_of(lc.state);
    let start = Desk { lives: with_lifecycle(d.lives, meta.token), ..d };
    match desk_reduced(start, meta.token, size) {
        None => None,
        Some((d1, None)) => Some((Desk { exits: dropped(d1.exits, id), ..d1 }, Seq::empty())),
        Some((d1, Some((pos, closed)))) => match exit_pnl_of(
            pos,
            price,
            size,
            exit_fee_of(rt, meta.order_type, price),
        ) {
            None => None,
            Some(pnl) => match d1.stats.recorded(pnl) {
                None => None,
                Some(stats) => {
                    let d2 = Desk { stats, ..d1 };
                    if closed {
                        match desk_cooled(rt, d2, pos.market_id@) {
                            None => None,
                            Some(d3) => Some(
                                (Desk { exits: dropped(d3.exits, id), ..d3 }, cancel_list(hedge)),
                            ),
                        }
                    } else {
                        match difference_of(pos.size, size) {
                            None => None,
                            Some(remaining) => if is_dust(rt, pos.market_id@, remaining) {
                                match desk_reduced(d2, meta.token, remaining) {
                                    None => None,
                                    Some((d3, _)) => match desk_cooled(rt, d3, pos.market_id@) {
                                        None => None,
                                        Some(d4) => Some(
                                            if hedge is Some {
                                                (d4, cancel_list(hedge))
                                            } else {
                                                (
                                                    Desk { exits: dropped(d4.exits, id), ..d4 },
                                                    Seq::empty(),
                                                )
                                            },
                                        ),
                                    },
                                }
                            } else {
                                residual_placed(
                                    rt,
                                    d2,
                                    id,
                                    meta,
                                    pos,
                                    price,
                                    remaining,
                                    market_neg_risk(rt, pos.market_id@),
                                    now,
                                )
                            },
                        }
                    }
                },
            },
        },
    }
}

/// Taking off what was left of a position closes it.
pub proof fn lemma_rest_closes(s: Seq<ArbitragePosition>, token: Seq<char>, size: Decimal)
    requires
        holds_token(s, token),
        reduction(s, token, size) is Some,
        (reduction(s, token, size)->0) is Some,
        !((reduction(s, token, size)->0)->0).2,
    ensures
        ({
            let out = (reduction(s, token, size)->0)->0;
            let rest = difference_of(out.1.size, size)->0;
            let i = position_of(s, token);
            reduction(out.0, token, rest) == Some(Some((out.0.remove(i), out.0[i], true)))
        }),
{
    let i = position_of(s, token);
    lemma_holds_first(s, token);
    let out = (reduction(s, token, size)->0)->0;
    assert(first_position(out.0, token, i));
    lemma_position_of(out.0, token, i);
}

/// A token that is held has a first position.
pub proof fn lemma_holds_first(s: Seq<ArbitragePosition>, token: Seq<char>)
    requires
        holds_token(s, token),
    ensures
        first_position(s, token, position_of(s, token)),
{
    let i = choose|i: int| 0 <= i < s.len() && (#[trigger] s[i]).token_id@ == token;
    lemma_first_held(s, token, i);
}

proof fn lemma_first_held(s: Seq<ArbitragePosition>, token: Seq<char>, i: int)
    requires
        0 <= i < s.len(),
        s[i].token_id@ == token,
    ensures
        exists|j: int| first_position(s, token, j),
    decreases i,
{
    if exists|j: int| 0 <= j < i && (#[trigger] s[j]).token_id@ == token {
        let j = choose|j: int| 0 <= j < i && (#[trigger] s[j]).token_id@ == token;
        lemma_first_held(s, token, j);
    } else {
        assert(first_position(s, token, i));
    }
}

impl TailEndStrategy {
    /// The lifecycle of a token, a new one if there is none.
    pub fn peek_lifecycle(&self, token_id: &str) -> (r: PositionLifecycle)
        ensures
            r@ == life_of(self.base.position_lifecycle.rows(), token_id@),
    {
        match self.base.position_lifecycle.get(token_id) {
            Some(lc) => lc.clone(),
            None => PositionLifecycle::new(),
        }
    }

    /// Puts a token's lifecycle back in good health, where that is allowed.
    pub fn back_to_healthy(&mut self, token_id: &str, reason: &str, now: DateTime)
        ensures
            final(self).base.position_lifecycle.rows() == healed(
                old(self).base.position_lifecycle.rows(),
                token_id@,
                reason@,
                now,
            ),
            final(self).base == (CryptoArbRuntime {
                position_lifecycle: final(self).base.position_lifecycle,
                ..old(self).base
            }),
    {
        let mut lc: PositionLifecycle = self.base.ensure_lifecycle(token_id);
        lc.pending_exit_order_id = None;
        let _ = lc.transition(PositionLifecycleState::Healthy, reason, now);
        self.write_lifecycle(token_id, lc);
    }

    /// Forgets the hedge of a token's exit.
    pub fn forget_hedge(&mut self, token_id: &str)
        ensures
            final(self).base.position_lifecycle.rows() == hedge_forgotten(
                old(self).base.position_lifecycle.rows(),
                token_id@,
            ),
            final(self).base == (CryptoArbRuntime {
                position_lifecycle: final(self).base.position_lifecycle,
                ..old(self).base
            }),
    {
        let mut lc: PositionLifecycle = self.base.ensure_lifecycle(token_id);
        drop_hedge(&mut lc);
        self.write_lifecycle(token_id, lc);
    }

    /// Books a filled hedge.
    pub fn fill_hedge(
        &mut self,
        order_id: &str,
        meta: &ExitOrderMeta,
        price: Decimal,
        size: Decimal,
        reason: &str,
        now: DateTime,
    ) -> (r: Result<Vec<Action>, Overflow>)
        ensures
            match hedge_filled(
                desk(old(self).base),
                order_id@,
                meta@,
                price,
                size,
                reason@,
                now,
            ) {
                None => r is Err && *final(self) == *old(self),
                Some((d, actions)) => r is Ok && desk(final(self).base) == d && acts(r->Ok_0@)
                    == actions,
            },
            desk_only(old(self).base, final(self).base),
    {
        let cost: Decimal = price.times(size)?;
        self.base.add_recovery_cost(meta.token_id.as_str(), cost.neg())?;
        let mut lc: PositionLifecycle = self.base.ensure_lifecycle(meta.token_id.as_str());
        let sell: Option<OrderId> = find_sell_id(&lc.state);
        let _ = lc.transition(
            PositionLifecycleState::Hedged { hedge_cost: cost, hedged_at: now },
            reason,
            now,
        );
        lc.pending_exit_order_id = None;
        self.write_lifecycle(meta.token_id.as_str(), lc);
        let _ = self.base.exit_orders_by_id.remove(order_id);
        Ok(cancel_actions(sell))
    }

    /// Whether what is left of a position is dust, and whether its market nets risk.
    pub fn judge_rest(&self, market_id: &str, remaining: Decimal) -> (r: (bool, bool))
        ensures
            r.0 == is_dust(self.base, market_id@, remaining),
            r.1 == market_neg_risk(self.base, market_id@),
    {
        match self.base.active_markets.get(market_id) {
            Some(m) => (remaining.lt(m.market.min_order_size), m.market.neg_risk),
            None => (true, false),
        }
    }

    /// Puts what is left of a partly filled exit on the book.
    pub fn place_residual(
        &mut self,
        order_id: &str,
        meta: &ExitOrderMeta,
        pos: &ArbitragePosition,
        gtc_price: Decimal,
        price: Decimal,
        remaining: Decimal,
        neg_risk: bool,
        now: DateTime,
    ) -> (r: Vec<Action>)
        requires
            residual_price_of(old(self).base, *pos, price) == Some(gtc_price),
        ensures
            residual_placed(
                old(self).base,
                desk(old(self).base),
                order_id@,
                meta@,
                *pos,
                price,
                remaining,
                neg_risk,
                now,
            ) == Some((desk(final(self).base), acts(r@))),
            desk_only(old(self).base, final(self).base),
    {
        let order = OrderRequest::new(
            pos.token_id.clone(),
            gtc_price,
            remaining,
            OrderSide::Sell,
            OrderType::Gtc,
            neg_risk,
        ).with_tick_size(pos.tick_size).with_fee_rate_bps(pos.fee_rate_bps);
        let gtc_id: OrderId = make_stamped_id("exit-gtc-", pos.token_id.as_str(), now);
        let mut lc: PositionLifecycle = self.base.ensure_lifecycle(meta.token_id.as_str());
        let (hedge_order_id, hedge_price) = find_hedge_id(&lc.state);
        lc.pending_exit_order_id = None;
        let mut reason = owned("FAK partial fill, GTC residual for ");
        reason.append(remaining.to_string().as_str());
        let moved: Result<(), String> = lc.transition(
            PositionLifecycleState::ExitExecuting {
                order_id: gtc_id.clone(),
                order_type: OrderType::Gtc,
                exit_price: gtc_price,
                submitted_at: now,
                hedge_order_id,
                hedge_price,
            },
            reason.as_str(),
            now,
        );
        let mut actions: Vec<Action> = no_actions();
        match moved {
            Err(_) => {
                let _ = lc.transition(
                    PositionLifecycleState::Healthy,
                    "GTC residual transition failed, reset",
                    now,
                );
                self.write_lifecycle(meta.token_id.as_str(), lc);
                let _ = self.base.exit_orders_by_id.remove(order_id);
            },
            Ok(_) => {
                lc.pending_exit_order_id = Some(gtc_id.clone());
                self.write_lifecycle(meta.token_id.as_str(), lc);
                let _ = self.base.exit_orders_by_id.remove(order_id);
                self.base.exit_orders_by_id.insert(
                    gtc_id,
                    ExitOrderMeta {
                        token_id: meta.token_id.clone(),
                        order_token_id: meta.token_id.clone(),
                        order_type: OrderType::Gtc,
                        source_state: owned("ExitActive(GTC residual)"),
                        exit_price: gtc_price,
                        clip_size: remaining,
                    },
                );
                actions.push(Action::PlaceOrder(order));
                assert(acts(actions@) =~= seq![
                    exit_order(*pos, gtc_price, remaining, OrderType::Gtc, neg_risk),
                ]);
            },
        }
        actions
    }

    /// The fee per share of an exit.
    pub fn exit_fee(&self, order_type: OrderType, price: Decimal) -> (r: Result<Decimal, Overflow>)
        ensures
            ok_of(r) == exit_fee_of(self.base, order_type, price),
    {
        if order_type == OrderType::Gtc {
            Ok(Decimal::zero())
        } else {
            checked_taker_fee(price, self.base.config.fee.taker_fee_rate)
        }
    }

    /// The end of a cooldown after a recovery that starts now.
    pub fn recovery_end(&self) -> (r: Result<DateTime, Overflow>)
        ensures
            ok_of(r) == shifted(
                self.base.last_event_time,
                signed(self.base.config.stop_loss.recovery_cooldown_secs),
            ),
    {
        match self.base.last_event_time.plus_secs(
            to_signed(self.base.config.stop_loss.recovery_cooldown_secs),
        ) {
            Some(t) => Ok(t),
            None => Err(Overflow),
        }
    }

    /// Books a filled sale.
    pub fn fill_sale(
        &mut self,
        order_id: &str,
        meta: &ExitOrderMeta,
        price: Decimal,
        size: Decimal,
        now: DateTime,
    ) -> (r: Result<Vec<Action>, Overflow>)
        ensures
            match sale_filled(
                old(self).base,
                desk(old(self).base),
                order_id@,
                meta@,
                price,
                size,
                now,
            ) {
                None => r is Err && *final(self) == *old(self),
                Some((d, actions)) => r is Ok && desk(final(self).base) == d && acts(r->Ok_0@)
                    == actions,
            },
            desk_only(old(self).base, final(self).base),
    {
        let token: &str = meta.token_id.as_str();
        let lc: PositionLifecycle = self.peek_lifecycle(token);
        let (hedge, _) = find_hedge_id(&lc.state);
        let i: usize = match find_position(&self.base.positions, token) {
            None => {
                let _ = self.base.ensure_lifecycle(token);
                let _ = self.base.exit_orders_by_id.remove(order_id);
                return Ok(no_actions());
            },
            Some(i) => i,
        };
        let pos: ArbitragePosition = self.base.positions[i].clone();
        let fee: Decimal = self.exit_fee(meta.order_type, price)?;
        let pnl: Decimal = exit_pnl(&pos, price, size, fee)?;
        if size.ge(pos.size) {
            let until: DateTime = self.recovery_end()?;
            self.base.record_trade_pnl(pnl)?;
            let _ = self.base.ensure_lifecycle(token);
            let _ = self.base.reduce_or_remove_position_by_token(token, size);
            self.base.recovery_exit_cooldowns.insert(pos.market_id.clone(), until);
            let _ = self.base.exit_orders_by_id.remove(order_id);
            return Ok(cancel_actions(hedge));
        }
        let remaining: Decimal = pos.size.minus(size)?;
        let (dust, neg_risk) = self.judge_rest(pos.market_id.as_str(), remaining);
        if dust {
            let until: DateTime = self.recovery_end()?;
            self.base.record_trade_pnl(pnl)?;
            proof {
                lemma_rest_closes(self.base.positions@, token@, size);
            }
            let _ = self.base.ensure_lifecycle(token);
            let _ = self.base.reduce_or_remove_position_by_token(token, size);
            let _ = self.base.reduce_or_remove_position_by_token(token, remaining);
            self.base.recovery_exit_cooldowns.insert(pos.market_id.clone(), until);
            if hedge.is_some() {
                return Ok(cancel_actions(hedge));
            }
            let _ = self.base.exit_orders_by_id.remove(order_id);
            return Ok(no_actions());
        }
        let offset: Decimal = Decimal::from_u64(
            self.base.config.stop_loss.gtc_fallback_tick_offset as u64,
        );
        let gtc_price: Decimal = price.minus(pos.tick_size.times(offset)?)?.max(pos.tick_size);
        self.base.record_trade_pnl(pnl)?;
        let _ = self.base.ensure_lifecycle(token);
        let _ = self.base.reduce_or_remove_position_by_token(token, size);
        Ok(
            self.place_residual(
                order_id,
                meta,
                &pos,
                gtc_price,
                price,
                remaining,
                neg_risk,
                now,
            ),
        )
    }
}

/// A sale gains what its shares fetch above the entry price, less the entry and the exit fee on
/// each of them.
pub proof fn a_sale_gains_the_difference_less_fees(
    pos: ArbitragePosition,
    price: Decimal,
    size: Decimal,
    exit_fee: Decimal,
)
    requires
        is_amount(pos.entry_price),
        is_amount(price),
        is_amount(size),
        is_amount(pos.entry_fee_per_share),
        is_amount(exit_fee),
    ensures
        ({
            let pnl = exit_pnl_of(pos, price, size, Some(exit_fee));
            &&& pnl is Some
            &&& value(pnl->0) == (value(price) - value(pos.entry_price)) * value(size) - value(
                pos.entry_fee_per_share,
            ) * value(size) - value(exit_fee) * value(size)
        }),
{
    let (e, f) = (pos.entry_price, pos.entry_fee_per_share);
    small_sums_are_exact(price, e, 6, 6);
    let rise = difference_of(price, e)->0;
    small_products_are_exact(rise, size, 7, 6, 6, 6);
    small_products_are_exact(f, size, 6, 6, 6, 6);
    small_products_are_exact(exit_fee, size, 6, 6, 6, 6);
    let gain = product_of(rise, size)->0;
    let (paid, due) = (product_of(f, size)->0, product_of(exit_fee, size)->0);
    lemma_within_more(paid, 12, 12, 13, 12);
    lemma_within_more(due, 12, 12, 14, 12);
    small_sums_are_exact(gain, paid, 13, 12);
    small_sums_are_exact(difference_of(gain, paid)->0, due, 14, 12);
}

/// A resting sale pays no fee; any other pays the taker's fee on its price.
pub proof fn only_a_resting_sale_is_free(
    rt: CryptoArbRuntime,
    order_type: OrderType,
    price: Decimal,
)
    ensures
        order_type == OrderType::Gtc ==> exit_fee_of(rt, order_type, price) == Some(zero()),
        order_type != OrderType::Gtc ==> exit_fee_of(rt, order_type, price) == taker_fee_of(
            price,
            rt.config.fee.taker_fee_rate,
        ),
{
}

/// A filled hedge costs its price on each share, and that cost is taken off the position's result;
/// the position then counts as hedged.
pub proof fn a_filled_hedge_costs_its_price(
    d: Desk,
    id: Seq<char>,
    meta: ExitView,
    price: Decimal,
    size: Decimal,
    reason: Seq<char>,
    now: DateTime,
)
    requires
        hedge_filled(d, id, meta, price, size, reason, now) is Some,
        holds_token(d.positions, meta.token),
        life_of(d.lives, meta.token).state is ExitExecuting,
        product_is_exact(price, size),
        sum_is_exact(
            d.positions[position_of(d.positions, meta.token)].recovery_cost,
            negated(product_of(price, size)->0),
        ),
    ensures
        ({
            let after = (hedge_filled(d, id, meta, price, size, reason, now)->0).0;
            let i = position_of(d.positions, meta.token);
            &&& after.positions.len() == d.positions.len()
            &&& value(after.positions[i].recovery_cost) == value(d.positions[i].recovery_cost)
                - value(price) * value(size)
            &&& after.positions[i].size == d.positions[i].size
            &&& lookup(after.lives, meta.token) is Some
            &&& lookup(after.lives, meta.token)->0.state is Hedged
        }),
{
    let i = position_of(d.positions, meta.token);
    products_multiply(price, size);
    let cost = product_of(price, size)->0;
    negating_negates(cost);
    sums_add_up(d.positions[i].recovery_cost, negated(cost));
    lemma_holds_first(d.positions, meta.token);
    assert forall|v: LifecycleView| #[trigger]
        lookup(
            stored(with_lifecycle(d.lives, meta.token), meta.token, v),
            meta.token,
        ) == Some(v) by {
        lemma_lookup_stored(with_lifecycle(d.lives, meta.token), meta.token, v, meta.token);
    }
}

/// What is left of an exit rests some ticks below the price, and at one tick at least.
pub proof fn what_is_left_rests_below_the_price(
    rt: CryptoArbRuntime,
    pos: ArbitragePosition,
    price: Decimal,
)
    requires
        is_amount(price),
        is_amount(pos.tick_size),
        rt.config.stop_loss.gtc_fallback_tick_offset <= 1_000_000,
    ensures
        residual_price_of(rt, pos, price) is Some,
        value(residual_price_of(rt, pos, price)->0) == max_of(
            value(price) - value(pos.tick_size) * (
            rt.config.stop_loss.gtc_fallback_tick_offset as real),
            value(pos.tick_size),
        ),
{
    let n = rt.config.stop_loss.gtc_fallback_tick_offset as int;
    lemma_dec_parts(n, 0);
    value_of_parts(n, 0);
    assert(is_within(dec(n, 0), 6, 0)) by {
        reveal_with_fuel(crate::decimal::pow10, 7);
    }
    small_products_are_exact(pos.tick_size, dec(n, 0), 6, 6, 6, 0);
    lemma_within_more(price, 6, 6, 12, 6);
    let below = product_of(pos.tick_size, dec(n, 0))->0;
    small_sums_are_exact(price, below, 12, 6);
    picking_picks_values(difference_of(price, below)->0, pos.tick_size);
}

/// A sale of the whole position closes it: the position and its lifecycle are gone, its result is
/// counted once, its market cools down for the seconds after a recovery, and its hedge is called
/// off.
pub proof fn a_full_sale_closes_the_position(
    rt: CryptoArbRuntime,
    d: Desk,
    id: Seq<char>,
    meta: ExitView,
    price: Decimal,
    size: Decimal,
    now: DateTime,
    i: int,
)
    requires
        sale_filled(rt, d, id, meta, price, size, now) is Some,
        first_position(d.positions, meta.token, i),
        value(size) >= value(d.positions[i].size),
        distinct_keys(d.lives),
        distinct_keys(d.exits),
        rt.config.stop_loss.recovery_cooldown_secs <= i64::MAX,
    ensures
        ({
            let (after, actions) = sale_filled(rt, d, id, meta, price, size, now)->0;
            let market = d.positions[i].market_id@;
            let state = life_of(d.lives, meta.token).state;
            &&& after.positions == d.positions.remove(i)
            &&& lookup(after.lives, meta.token) is None
            &&& after.stats.entered == d.stats.entered + 1
            &&& lookup(after.recovery, market) is Some
            &&& lookup(after.recovery, market)->0.nanos_of() == rt.last_event_time.nanos_of()
                + rt.config.stop_loss.recovery_cooldown_secs * 1_000_000_000
            &&& state is ExitExecuting && state->ExitExecuting_hedge_order_id is Some ==> actions
                == seq![ActionView::CancelOrder(state->ExitExecuting_hedge_order_id->0)]
            &&& !(state is ExitExecuting && state->ExitExecuting_hedge_order_id is Some) ==> actions
                == Seq::<ActionView>::empty()
        }),
{
    lemma_position_of(d.positions, meta.token, i);
    comparing_compares_values(d.positions[i].size, size);
    let lives = with_lifecycle(d.lives, meta.token);
    storing_keeps_keys_distinct(d.lives, meta.token, LifecycleView::fresh());
    lemma_lookup_dropped(lives, meta.token, meta.token);
    let secs = signed(rt.config.stop_loss.recovery_cooldown_secs);
    shifting_moves_by_seconds(rt.last_event_time, secs);
    let market = d.positions[i].market_id@;
    let until = shifted(rt.last_event_time, secs)->0;
    lemma_lookup_stored(d.recovery, market, until, market);
}

/// A sale of part of a position leaves the rest: where that is less than the market's least order,
/// it is given up and the position closed; else it is offered for sale as it is, resting.
pub proof fn a_part_sale_offers_the_rest(
    rt: CryptoArbRuntime,
    d: Desk,
    id: Seq<char>,
    meta: ExitView,
    price: Decimal,
    size: Decimal,
    now: DateTime,
    i: int,
    m: MarketWithReference,
)
    requires
        sale_filled(rt, d, id, meta, price, size, now) is Some,
        first_position(d.positions, meta.token, i),
        difference_is_exact(d.positions[i].size, size),
        value(size) < value(d.positions[i].size),
        lookup(rt.active_markets.rows(), d.positions[i].market_id@) == Some(m),
        life_of(d.lives, meta.token).state is ExitExecuting,
    ensures
        ({
            let (after, actions) = sale_filled(rt, d, id, meta, price, size, now)->0;
            let rest = value(d.positions[i].size) - value(size);
            let least = value(m.market.min_order_size);
            &&& after.stats.entered == d.stats.entered + 1
            &&& rest < least ==> after.positions.len() == d.positions.len() - 1
            &&& rest >= least ==> after.positions.len() == d.positions.len() && value(
                after.positions[i].size,
            ) == rest && actions.len() == 1 && actions[0] is PlaceOrder
                && actions[0]->PlaceOrder_0.side == OrderSide::Sell
                && actions[0]->PlaceOrder_0.order_type == OrderType::Gtc && value(
                actions[0]->PlaceOrder_0.size,
            ) == rest && actions[0]->PlaceOrder_0.token == meta.token && Some(
                actions[0]->PlaceOrder_0.price,
            ) == residual_price_of(rt, d.positions[i], price)
        }),
{
    let pos = d.positions[i];
    lemma_position_of(d.positions, meta.token, i);
    comparing_compares_values(pos.size, size);
    differences_add_up(pos.size, size);
    let rest = difference_of(pos.size, size)->0;
    comparing_compares_values(rest, m.market.min_order_size);
    lemma_rest_closes(d.positions, meta.token, size);
}

} // verus!
