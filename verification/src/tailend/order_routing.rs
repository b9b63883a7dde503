//! Order events, routed to the exits and entries that they belong to.
use crate::decimal::{Decimal, Overflow, decimal_text, difference_of, less, times, zero};
use crate::domain::lifecycle::{
    LifecycleView, PositionLifecycle, PositionLifecycleState, StateView,
};
use crate::domain::position::{
    ArbitragePosition, ExitOrderMeta, ExitView, OpenLimitOrder, PendingOrder, copy_id,
    position_from,
};
use crate::domain::telemetry::{OrderTelemetry, StopLossRejectionKind, rejection_kind};
use crate::exchange::{
    Action, ActionView, MarketId, OrderId, OrderResult, OrderSide, OrderType, TokenId, acts,
};
use crate::fee_math::{checked_taker_fee, taker_fee_of};
use crate::runtime::{CryptoArbRuntime, bumped, signed, to_signed};
use crate::services::order::{cancel_failure_noted, orders_reconciled};
use crate::services::position::{
    a_fill_takes_its_size_off, find_position, first_position, holds_token, lemma_position_of,
    position_of, with_lifecycle, without_token,
};
use crate::table::{
    Table, distinct_keys, dropped, filtering_keeps_what_fits, first_where, has_key, kept,
    lemma_first_where, lemma_kept_step, lemma_lookup_dropped, lemma_lookup_stored, lookup, stored,
};
use crate::tailend::exit::{TailEndStrategy, life_of};
use crate::tailend::order_events::{
    Desk, cancel_actions, cancel_list, check_hedge, desk, desk_cooled, desk_only, desk_reduced,
    drop_hedge, exit_fee_of, exit_pnl, exit_pnl_of, find_hedge_id, healed, hedge_filled,
    hedge_forgotten, hedge_id_of, is_dust, is_hedge, lemma_rest_closes, no_actions, sale_filled,
    unhedged, unpended,
};
use crate::text::{contains_text, occurs, opt_text, owned, same_text};
use crate::time::{DateTime, millis_between, secs_between, shifted, shifting_moves_by_seconds};
use crate::value::{
    comparing_compares_values, difference_is_exact, differences_add_up, signs_agree, value,
};
use vstd::prelude::*;
use vstd::string::*;

verus! {

/// The first exit order for a token.
pub open spec fn exit_row_for(exits: Seq<(Seq<char>, ExitView)>, token: Seq<char>) -> Option<int> {
    first_where(exits, |m: ExitView| m.order_token == token)
}

/// The first hedge of a position's token.
pub open spec fn hedge_row_for(exits: Seq<(Seq<char>, ExitView)>, token: Seq<char>) -> Option<int> {
    first_where(exits, |m: ExitView| m.token == token && is_hedge(m))
}

fn find_exit_row(table: &Table<ExitOrderMeta>, token: &str) -> (r: Option<usize>)
    ensures
        match exit_row_for(table.rows(), token@) {
            Some(i) => r is Some && r->0 == i && i < table.rows().len(),
            None => r is None,
        },
{
    let ghost rows = table.rows();
    let ghost p = |m: ExitView| m.order_token == token@;
    let mut i: usize = 0;
    while i < table.len()
        invariant
            i <= rows.len(),
            rows == table.rows(),
            p == (|m: ExitView| m.order_token == token@),
            first_where(rows.take(i as int), p) is None,
        decreases rows.len() - i,
    {
        assert(rows.take(i as int + 1).drop_last() =~= rows.take(i as int));
        if same_text(table.value_at(i).order_token_id.as_str(), token) {
            proof {
                lemma_first_where(rows, p, i as int + 1);
            }
            return Some(i);
        }
        i += 1;
    }
    assert(rows.take(i as int) =~= rows);
    None
}

fn find_hedge_row(table: &Table<ExitOrderMeta>, token: &str) -> (r: Option<usize>)
    ensures
        match hedge_row_for(table.rows(), token@) {
            Some(i) => r is Some && r->0 == i && i < table.rows().len(),
            None => r is None,
        },
{
    let ghost rows = table.rows();
    let ghost p = |m: ExitView| m.token == token@ && is_hedge(m);
    let mut i: usize = 0;
    while i < table.len()
        invariant
            i <= rows.len(),
            rows == table.rows(),
            p == (|m: ExitView| m.token == token@ && is_hedge(m)),
            first_where(rows.take(i as int), p) is None,
        decreases rows.len() - i,
    {
        assert(rows.take(i as int + 1).drop_last() =~= rows.take(i as int));
        let m = table.value_at(i);
        if same_text(m.token_id.as_str(), token) && check_hedge(m) {
            proof {
                lemma_first_where(rows, p, i as int + 1);
            }
            return Some(i);
        }
        i += 1;
    }
    assert(rows.take(i as int) =~= rows);
    None
}

/// A lifecycle whose order has got its real id.
pub open spec fn renamed(lc: LifecycleView, hedge: bool, id: Seq<char>) -> LifecycleView {
    let state = match lc.state {
        StateView::ExitExecuting {
            order_id,
            order_type,
            exit_price,
            submitted_at,
            hedge_order_id,
            hedge_price,
        } => StateView::ExitExecuting {
            order_id: if hedge {
                order_id
            } else {
                id
            },
            order_type,
            exit_price,
            submitted_at,
            hedge_order_id: if hedge {
                Some(id)
            } else {
                hedge_order_id
            },
            hedge_price,
        },
        other => other,
    };
    LifecycleView {
        state,
        pending_exit: if hedge {
            lc.pending_exit
        } else {
            Some(id)
        },
        ..lc
    }
}

/// An exit order was answered: on success it is known by its real id from now on; one that
/// was to be filled at once and was not, one without an id, and one that was refused, are
/// given up.
pub open spec fn exit_placed(
    d: Desk,
    key: Seq<char>,
    meta: ExitView,
    success: bool,
    order_id: Option<Seq<char>>,
    status: Option<Seq<char>>,
    now: DateTime,
) -> Desk {
    let lc = life_of(d.lives, meta.token);
    if success {
        match order_id {
            Some(id) => {
                let exits = stored(dropped(d.exits, key), id, meta);
                if meta.order_type != OrderType::Gtc && status != Some("Filled"@) && !is_hedge(
                    meta,
                ) {
                    Desk {
                        exits: dropped(exits, id),
                        lives: healed(
                            d.lives,
                            meta.token,
                            meta.order_type.name_of() + " zero fill (status: "@ + (match status {
                                Some(s) => s,
                                None => "unknown"@,
                            }) + ")"@,
                            now,
                        ),
                        ..d
                    }
                } else {
                    Desk {
                        exits,
                        lives: if has_key(d.lives, meta.token) {
                            stored(d.lives, meta.token, renamed(lc, is_hedge(meta), id))
                        } else {
                            d.lives
                        },
                        ..d
                    }
                }
            },
            None => Desk {
                exits: dropped(d.exits, key),
                lives: healed(d.lives, meta.token, "exit order placed with no order ID"@, now),
                ..d
            },
        }
    } else {
        Desk {
            exits: dropped(d.exits, key),
            lives: if lc.state is ExitExecuting {
                if is_hedge(meta) {
                    stored(
                        with_lifecycle(d.lives, meta.token),
                        meta.token,
                        LifecycleView { state: unhedged(lc.state), ..unpended(lc) },
                    )
                } else {
                    healed(d.lives, meta.token, "exit order placement failed"@, now)
                }
            } else {
                with_lifecycle(d.lives, meta.token)
            },
            ..d
        }
    }
}

/// The limit order that a confirmed entry becomes.
pub open spec fn limit_from(p: PendingOrder, order_id: OrderId, now: DateTime) -> OpenLimitOrder {
    OpenLimitOrder {
        order_id,
        market_id: p.market_id,
        token_id: p.token_id,
        side: p.side,
        price: p.price,
        size: p.size,
        reference_price: p.reference_price,
        coin: p.coin,
        placed_at: now,
        kelly_fraction: p.kelly_fraction,
        estimated_fee: p.estimated_fee,
        tick_size: p.tick_size,
        fee_rate_bps: p.fee_rate_bps,
        cancel_pending: false,
        reconcile_miss_count: 0,
        mode: p.mode,
    }
}

/// The position that an entry filled at once opens.
pub open spec fn position_at_once(
    p: PendingOrder,
    order_id: Option<OrderId>,
    fee: Decimal,
    now: DateTime,
) -> ArbitragePosition {
    ArbitragePosition {
        market_id: p.market_id,
        token_id: p.token_id,
        side: p.side,
        entry_price: p.price,
        size: p.size,
        reference_price: p.reference_price,
        coin: p.coin,
        order_id,
        entry_time: now,
        kelly_fraction: p.kelly_fraction,
        peak_bid: p.price,
        peak_price: p.price,
        estimated_fee: p.estimated_fee,
        entry_market_price: p.price,
        tick_size: p.tick_size,
        fee_rate_bps: p.fee_rate_bps,
        entry_order_type: p.order_type,
        entry_fee_per_share: fee,
        recovery_cost: zero(),
        mode: p.mode,
    }
}

/// An entry order was answered.
pub open spec fn entry_placed(
    pre: CryptoArbRuntime,
    post: CryptoArbRuntime,
    result: OrderResult,
    ok: bool,
) -> bool {
    let now = pre.last_event_time;
    match lookup(pre.pending_orders.rows(), result.token_id@) {
        None => ok && post == pre,
        Some(p) => if result.success && p.order_type != OrderType::Gtc && taker_fee_of(
            p.price,
            pre.config.fee.taker_fee_rate,
        ) is None {
            !ok && post == pre
        } else {
            &&& ok
            &&& post.pending_orders.rows() == dropped(pre.pending_orders.rows(), result.token_id@)
            &&& if !result.success {
                post == (CryptoArbRuntime { pending_orders: post.pending_orders, ..pre })
            } else if p.order_type == OrderType::Gtc {
                &&& post.open_limit_orders.rows() == (match result.order_id {
                    Some(id) => stored(
                        pre.open_limit_orders.rows(),
                        id@,
                        limit_from(p, id, now),
                    ),
                    None => pre.open_limit_orders.rows(),
                })
                &&& post == (CryptoArbRuntime {
                    pending_orders: post.pending_orders,
                    open_limit_orders: post.open_limit_orders,
                    ..pre
                })
            } else {
                &&& post.positions@ == pre.positions@.push(
                    position_at_once(
                        p,
                        result.order_id,
                        taker_fee_of(p.price, pre.config.fee.taker_fee_rate)->0,
                        now,
                    ),
                )
                &&& post.position_lifecycle.rows() == with_lifecycle(
                    pre.position_lifecycle.rows(),
                    p.token_id@,
                )
                &&& post == (CryptoArbRuntime {
                    pending_orders: post.pending_orders,
                    positions: post.positions,
                    position_lifecycle: post.position_lifecycle,
                    ..pre
                })
            }
        },
    }
}

/// An entry order was filled: it becomes a position, and the fill is counted.
pub open spec fn entry_filled(
    pre: CryptoArbRuntime,
    post: CryptoArbRuntime,
    order_id: OrderId,
    price: Decimal,
    size: Decimal,
) -> bool {
    let now = pre.last_event_time;
    match lookup(pre.open_limit_orders.rows(), order_id@) {
        None => post == pre,
        Some(lo) => {
            &&& post.open_limit_orders.rows() == dropped(
                pre.open_limit_orders.rows(),
                order_id@,
            )
            &&& post.positions@ == pre.positions@.push(
                position_from(lo, price, size, Some(order_id), now),
            )
            &&& post.position_lifecycle.rows() == with_lifecycle(
                pre.position_lifecycle.rows(),
                lo.token_id@,
            )
            &&& post.order_telemetry.total_fills == bumped(pre.order_telemetry.total_fills)
            &&& post.order_telemetry.fill_times@ == (match lookup(
                pre.active_markets.rows(),
                lo.market_id@,
            ) {
                Some(m) => pre.order_telemetry.fill_times@.push(
                    (
                        secs_between(m.market.end_date, now) as i64,
                        millis_between(now, lo.placed_at) as i64,
                    ),
                ),
                None => pre.order_telemetry.fill_times@,
            })
            &&& post.order_telemetry == (OrderTelemetry {
                total_fills: post.order_telemetry.total_fills,
                fill_times: post.order_telemetry.fill_times,
                ..pre.order_telemetry
            })
            &&& post == (CryptoArbRuntime {
                open_limit_orders: post.open_limit_orders,
                positions: post.positions,
                position_lifecycle: post.position_lifecycle,
                order_telemetry: post.order_telemetry,
                ..pre
            })
        },
    }
}

/// An exit order was filled. `None` is an overflow.
pub open spec fn exit_filled(
    rt: CryptoArbRuntime,
    d: Desk,
    id: Seq<char>,
    meta: ExitView,
    price: Decimal,
    size: Decimal,
) -> Option<(Desk, Seq<ActionView>)> {
    if is_hedge(meta) {
        hedge_filled(
            d,
            id,
            meta,
            price,
            size,
            "hedge filled at "@ + decimal_text(price),
            rt.last_event_time,
        )
    } else {
        sale_filled(rt, d, id, meta, price, size, rt.last_event_time)
    }
}

/// A sale was rejected while its exit was in flight: dust is dropped, anything else goes
/// back to good health; the exit orders of the position are given up, and its hedge is
/// called off. `None` is an overflow.
pub open spec fn exit_rejected(d: Desk, token: Seq<char>, reason: Seq<char>, now: DateTime) -> Option<
    (Desk, Seq<ActionView>),
> {
    let after = if !holds_token(d.positions, token) {
        Some(d)
    } else if rejection_kind(reason) == StopLossRejectionKind::InvalidSize {
        match desk_reduced(d, token, d.positions[position_of(d.positions, token)].size) {
            Some((d1, _)) => Some(d1),
            None => None,
        }
    } else {
        Some(Desk { lives: healed(d.lives, token, "exit rejected: "@ + reason, now), ..d })
    };
    match after {
        None => None,
        Some(d1) => {
            let hedge = hedge_row_for(d1.exits, token);
            Some(
                (
                    Desk { exits: without_token(d1.exits, token), ..d1 },
                    cancel_list(
                        match hedge {
                            Some(i) => Some(d1.exits[i].0),
                            None => None,
                        },
                    ),
                ),
            )
        },
    }
}

/// The exit orders without the hedges of a position's token.
pub open spec fn without_hedges(exits: Seq<(Seq<char>, ExitView)>, token: Seq<char>) -> Seq<
    (Seq<char>, ExitView),
> {
    kept(exits, |id: Seq<char>, m: ExitView| !(m.token == token && is_hedge(m)))
}

/// What a rejection means for the exit side: with an exit in flight, that is given up; with
/// none, a rejected hedge is forgotten. `None` is an overflow.
pub open spec fn rejection_routed(d: Desk, token: Seq<char>, reason: Seq<char>, now: DateTime) -> Option<
    (Desk, Seq<ActionView>),
> {
    let row = exit_row_for(d.exits, token);
    let position_token = match row {
        Some(i) => d.exits[i].1.token,
        None => token,
    };
    match lookup(d.lives, position_token) {
        None => Some((d, Seq::empty())),
        Some(lc) => if lc.state is ExitExecuting {
            exit_rejected(d, position_token, reason, now)
        } else if row is Some && is_hedge(d.exits[row->0].1) {
            Some(
                (
                    Desk {
                        lives: hedge_forgotten(d.lives, position_token),
                        exits: without_hedges(d.exits, position_token),
                        ..d
                    },
                    Seq::empty(),
                ),
            )
        } else {
            Some((d, Seq::empty()))
        },
    }
}

/// An exit order was cancelled: a hedge is forgotten; a sale goes back to good health, to be
/// tried afresh, and its hedge is called off.
pub open spec fn exit_cancelled(d: Desk, id: Seq<char>, meta: ExitView, now: DateTime) -> (
    Desk,
    Seq<ActionView>,
) {
    if is_hedge(meta) {
        (
            Desk {
                lives: hedge_forgotten(d.lives, meta.token),
                exits: dropped(d.exits, id),
                ..d
            },
            Seq::empty(),
        )
    } else {
        let hedge = hedge_id_of(life_of(d.lives, meta.token).state);
        let exits = match hedge {
            Some(h) => dropped(d.exits, h),
            None => d.exits,
        };
        (
            Desk {
                lives: healed(d.lives, meta.token, "GTC exit cancelled for chase"@, now),
                exits: dropped(exits, id),
                ..d
            },
            cancel_list(hedge),
        )
    }
}

/// The record of a sale that was found filled when its cancel failed.
pub open spec fn sale_record(
    id: Seq<char>,
    meta: ExitView,
    pos: ArbitragePosition,
    pnl: Decimal,
    fee: Decimal,
) -> ActionView {
    ActionView::RecordFill {
        order: id,
        market: pos.market_id@,
        token: meta.token,
        side: OrderSide::Sell,
        price: meta.exit_price,
        size: meta.clip_size,
        realized_pnl: Some(pnl),
        fee: Some(fee),
        order_type: Some(meta.order_type),
    }
}

/// A sale was found filled, at its limit price and size, when its cancel failed.
/// `None` is an overflow.
pub open spec fn sale_matched(rt: CryptoArbRuntime, d: Desk, id: Seq<char>, meta: ExitView) -> Option<
    (Desk, Seq<ActionView>),
> {
    let fee = exit_fee_of(rt, meta.order_type, meta.exit_price);
    match desk_reduced(d, meta.token, meta.clip_size) {
        None => None,
        Some((d1, None)) => Some(
            (
                Desk {
                    lives: dropped(d1.lives, meta.token),
                    exits: dropped(without_token(d1.exits, meta.token), id),
                    ..d1
                },
                Seq::empty(),
            ),
        ),
        Some((d1, Some((pos, closed)))) => match (
            exit_pnl_of(pos, meta.exit_price, meta.clip_size, fee),
            times(fee, Some(meta.clip_size)),
        ) {
            (Some(pnl), Some(total)) => match d1.stats.recorded(pnl) {
                None => None,
                Some(stats) => {
                    let d2 = Desk { stats, ..d1 };
                    let record = seq![sale_record(id, meta, pos, pnl, total)];
                    if closed {
                        match desk_cooled(rt, d2, pos.market_id@) {
                            None => None,
                            Some(d3) => Some(
                                (Desk { exits: dropped(d3.exits, id), ..d3 }, record),
                            ),
                        }
                    } else {
                        match difference_of(pos.size, meta.clip_size) {
                            None => None,
                            Some(remaining) => if is_dust(rt, pos.market_id@, remaining) {
                                match desk_reduced(d2, meta.token, remaining) {
                                    None => None,
                                    Some((d3, _)) => match desk_cooled(rt, d3, pos.market_id@) {
                                        None => None,
                                        Some(d4) => Some(
                                            (
                                                Desk { exits: dropped(d4.exits, id), ..d4 },
                                                record,
                                            ),
                                        ),
                                    },
                                }
                            } else {
                                Some(
                                    (
                                        Desk {
                                            lives: healed(
                                                d2.lives,
                                                meta.token,
                                                "cancel-matched partial exit"@,
                                                rt.last_event_time,
                                            ),
                                            exits: dropped(d2.exits, id),
                                            ..d2
                                        },
                                        record,
                                    ),
                                )
                            },
                        }
                    }
                },
            },
            _ => None,
        },
    }
}

/// A hedge was found filled when its cancel failed. `None` is an overflow.
pub open spec fn hedge_matched(rt: CryptoArbRuntime, d: Desk, id: Seq<char>, meta: ExitView) -> Option<
    (Desk, Seq<ActionView>),
> {
    if less(zero(), meta.clip_size) {
        match hedge_filled(
            d,
            id,
            meta,
            meta.exit_price,
            meta.clip_size,
            "cancel-matched hedge at "@ + decimal_text(meta.exit_price),
            rt.last_event_time,
        ) {
            None => None,
            Some((d1, actions)) => Some(
                if actions.len() > 0 {
                    (d1, actions)
                } else {
                    (Desk { exits: dropped(d1.exits, id), ..d1 }, actions)
                },
            ),
        }
    } else {
        Some(
            (
                Desk {
                    lives: stored(
                        with_lifecycle(d.lives, meta.token),
                        meta.token,
                        unpended(life_of(d.lives, meta.token)),
                    ),
                    exits: dropped(d.exits, id),
                    ..d
                },
                Seq::empty(),
            ),
        )
    }
}

/// The cancel of an exit order failed: a matched order is booked as filled, one that is gone
/// is given up, any other is left for the next try. `None` is an overflow.
pub open spec fn exit_cancel_failed(
    rt: CryptoArbRuntime,
    d: Desk,
    id: Seq<char>,
    meta: ExitView,
    reason: Seq<char>,
) -> Option<(Desk, Seq<ActionView>)> {
    if occurs(reason, "matched"@) {
        if is_hedge(meta) {
            hedge_matched(rt, d, id, meta)
        } else {
            sale_matched(rt, d, id, meta)
        }
    } else if occurs(reason, "canceled"@) || occurs(reason, "not found"@) {
        Some(
            (
                Desk {
                    lives: healed(
                        d.lives,
                        meta.token,
                        "cancel failed ("@ + reason + "): "@ + meta.source,
                        rt.last_event_time,
                    ),
                    exits: dropped(d.exits, id),
                    ..d
                },
                Seq::empty(),
            ),
        )
    } else {
        Some((d, Seq::empty()))
    }
}

/// The answer to an order was noted: of an exit order of the token, else of a pending entry.
pub open spec fn order_answered(
    pre: CryptoArbRuntime,
    post: CryptoArbRuntime,
    result: OrderResult,
    r: Result<Vec<Action>, Overflow>,
) -> bool {
    &&& r is Ok ==> r->Ok_0@.len() == 0
    &&& match exit_row_for(pre.exit_orders_by_id.rows(), result.token_id@) {
        Some(i) => {
            &&& r is Ok
            &&& desk(post) == exit_placed(
                desk(pre),
                pre.exit_orders_by_id.rows()[i].0,
                pre.exit_orders_by_id.rows()[i].1,
                result.success,
                opt_text(result.order_id),
                opt_text(result.status),
                pre.last_event_time,
            )
            &&& desk_only(pre, post)
        },
        None => entry_placed(pre, post, result, r is Ok),
    }
}

/// A filled order was noted: of an exit order, else of an entry.
pub open spec fn fill_noted(
    pre: CryptoArbRuntime,
    post: CryptoArbRuntime,
    order_id: OrderId,
    price: Decimal,
    size: Decimal,
    r: Result<Vec<Action>, Overflow>,
) -> bool {
    &&& match lookup(pre.exit_orders_by_id.rows(), order_id@) {
        Some(meta) => {
            &&& match exit_filled(
                pre,
                desk(pre),
                order_id@,
                meta,
                price,
                size,
            ) {
                None => r is Err && post == pre,
                Some((d, actions)) => r is Ok && desk(post) == d && acts(
                    r->Ok_0@,
                ) == actions,
            }
            &&& desk_only(pre, post)
        },
        None => {
            &&& r is Ok && r->Ok_0@.len() == 0
            &&& entry_filled(pre, post, order_id, price, size)
        },
    }
}

/// A partly filled order was noted.
pub open spec fn part_fill_noted(
    pre: CryptoArbRuntime,
    post: CryptoArbRuntime,
    order_id: Seq<char>,
    filled_size: Decimal,
    remaining_size: Decimal,
    r: Result<Vec<Action>, Overflow>,
) -> bool {
    &&& r is Ok ==> r->Ok_0@.len() == 0
    &&& match lookup(pre.exit_orders_by_id.rows(), order_id) {
        Some(meta) => {
            &&& is_hedge(meta) ==> r is Ok && post == pre
            &&& !is_hedge(meta) ==> match desk_reduced(
                desk(pre),
                meta.token,
                filled_size,
            ) {
                None => r is Err && post == pre,
                Some((d, _)) => r is Ok && desk(post) == d,
            }
            &&& desk_only(pre, post)
        },
        None => {
            &&& r is Ok
            &&& post.open_limit_orders.rows() == (match lookup(
                pre.open_limit_orders.rows(),
                order_id,
            ) {
                Some(lo) => stored(
                    pre.open_limit_orders.rows(),
                    order_id,
                    (OpenLimitOrder { size: remaining_size, ..lo }),
                ),
                None => pre.open_limit_orders.rows(),
            })
            &&& post == (CryptoArbRuntime {
                open_limit_orders: post.open_limit_orders,
                ..pre
            })
        },
    }
}

/// The cancel of an order was noted.
pub open spec fn cancel_noted(
    pre: CryptoArbRuntime,
    post: CryptoArbRuntime,
    order_id: Seq<char>,
    r: Seq<Action>,
) -> bool {
    &&& match lookup(pre.exit_orders_by_id.rows(), order_id) {
        Some(meta) => {
            &&& exit_cancelled(
                desk(pre),
                order_id,
                meta,
                pre.last_event_time,
            ) == (desk(post), acts(r))
            &&& desk_only(pre, post)
        },
        None => {
            &&& r.len() == 0
            &&& post.open_limit_orders.rows() == dropped(
                pre.open_limit_orders.rows(),
                order_id,
            )
            &&& post == (CryptoArbRuntime {
                open_limit_orders: post.open_limit_orders,
                ..pre
            })
        },
    }
}

/// A failed cancel was noted, of an exit order or an entry.
pub open spec fn failed_cancel_noted(
    pre: CryptoArbRuntime,
    post: CryptoArbRuntime,
    order_id: OrderId,
    reason: Seq<char>,
    r: Result<Vec<Action>, Overflow>,
) -> bool {
    &&& match lookup(pre.exit_orders_by_id.rows(), order_id@) {
        Some(meta) => {
            &&& match exit_cancel_failed(
                pre,
                desk(pre),
                order_id@,
                meta,
                reason,
            ) {
                None => r is Err && post == pre,
                Some((d, actions)) => r is Ok && desk(post) == d && acts(
                    r->Ok_0@,
                ) == actions,
            }
            &&& desk_only(pre, post)
        },
        None => r is Ok && cancel_failure_noted(
            pre,
            post,
            order_id,
            reason,
            has_key(pre.open_limit_orders.rows(), order_id@),
            r->Ok_0@,
        ),
    }
}

impl TailEndStrategy {
    /// Takes note of the answer to an exit order.
    fn exit_order_placed(&mut self, row: usize, result: &OrderResult)
        requires
            row < old(self).base.exit_orders_by_id.rows().len(),
        ensures
            desk(final(self).base) == exit_placed(
                desk(old(self).base),
                old(self).base.exit_orders_by_id.rows()[row as int].0,
                old(self).base.exit_orders_by_id.rows()[row as int].1,
                result.success,
                opt_text(result.order_id),
                opt_text(result.status),
                old(self).base.last_event_time,
            ),
            desk_only(old(self).base, final(self).base),
    {
        let now: DateTime = self.base.last_event_time;
        let key: OrderId = self.base.exit_orders_by_id.key_at(row).clone();
        let meta: ExitOrderMeta = self.base.exit_orders_by_id.value_at(row).clone();
        let _ = self.base.exit_orders_by_id.remove(key.as_str());
        let hedge: bool = check_hedge(&meta);
        let token: TokenId = meta.token_id.clone();
        if result.success {
            match &result.order_id {
                Some(id) => {
                    let order_type: OrderType = meta.order_type;
                    self.base.exit_orders_by_id.insert(id.clone(), meta);
                    let filled: bool = match &result.status {
                        Some(s) => same_text(s.as_str(), "Filled"),
                        None => false,
                    };
                    if order_type != OrderType::Gtc && !filled && !hedge {
                        let _ = self.base.exit_orders_by_id.remove(id.as_str());
                        let mut reason = owned(order_type.name());
                        reason.append(" zero fill (status: ");
                        match &result.status {
                            Some(s) => {
                                reason.append(s.as_str());
                            },
                            None => {
                                reason.append("unknown");
                            },
                        }
                        reason.append(")");
                        self.back_to_healthy(token.as_str(), reason.as_str(), now);
                    } else {
                        let i: usize = self.base.position_lifecycle.find(token.as_str());
                        if i < self.base.position_lifecycle.len() {
                            let mut lc: PositionLifecycle = self.base.position_lifecycle.value_at(
                                i,
                            ).clone();
                            if !hedge {
                                lc.pending_exit_order_id = Some(id.clone());
                            }
                            match &mut lc.state {
                                PositionLifecycleState::ExitExecuting {
                                    order_id,
                                    hedge_order_id,
                                    ..
                                } => {
                                    if hedge {
                                        *hedge_order_id = Some(id.clone());
                                    } else {
                                        *order_id = id.clone();
                                    }
                                },
                                _ => {},
                            }
                            self.base.position_lifecycle.set_at(i, lc);
                        }
                    }
                },
                None => {
                    self.back_to_healthy(
                        token.as_str(),
                        "exit order placed with no order ID",
                        now,
                    );
                },
            }
        } else {
            let mut lc: PositionLifecycle = self.base.ensure_lifecycle(token.as_str());
            if matches!(lc.state, PositionLifecycleState::ExitExecuting { .. }) {
                lc.pending_exit_order_id = None;
                if hedge {
                    drop_hedge(&mut lc);
                } else {
                    let _ = lc.transition(
                        PositionLifecycleState::Healthy,
                        "exit order placement failed",
                        now,
                    );
                }
                self.write_lifecycle(token.as_str(), lc);
            }
        }
    }

    /// Takes note of the answer to an entry order.
    fn entry_order_placed(&mut self, result: &OrderResult) -> (r: Result<(), Overflow>)
        ensures
            entry_placed(old(self).base, final(self).base, *result, r is Ok),
    {
        let now: DateTime = self.base.last_event_time;
        let i: usize = self.base.pending_orders.find(result.token_id.as_str());
        if i >= self.base.pending_orders.len() {
            return Ok(());
        }
        let order_type: OrderType = self.base.pending_orders.value_at(i).order_type;
        let price: Decimal = self.base.pending_orders.value_at(i).price;
        let fee: Decimal = if result.success && order_type != OrderType::Gtc {
            checked_taker_fee(price, self.base.config.fee.taker_fee_rate)?
        } else {
            Decimal::zero()
        };
        let p: PendingOrder = self.base.pending_orders.remove_at(i);
        if !result.success {
            return Ok(());
        }
        if order_type == OrderType::Gtc {
            match &result.order_id {
                Some(id) => {
                    self.base.open_limit_orders.insert(
                        id.clone(),
                        OpenLimitOrder {
                            order_id: id.clone(),
                            market_id: p.market_id,
                            token_id: p.token_id,
                            side: p.side,
                            price: p.price,
                            size: p.size,
                            reference_price: p.reference_price,
                            coin: p.coin,
                            placed_at: now,
                            kelly_fraction: p.kelly_fraction,
                            estimated_fee: p.estimated_fee,
                            tick_size: p.tick_size,
                            fee_rate_bps: p.fee_rate_bps,
                            cancel_pending: false,
                            reconcile_miss_count: 0,
                            mode: p.mode,
                        },
                    );
                },
                None => {},
            }
            return Ok(());
        }
        let position = ArbitragePosition {
            market_id: p.market_id,
            token_id: p.token_id,
            side: p.side,
            entry_price: p.price,
            size: p.size,
            reference_price: p.reference_price,
            coin: p.coin,
            order_id: copy_id(&result.order_id),
            entry_time: now,
            kelly_fraction: p.kelly_fraction,
            peak_bid: p.price,
            peak_price: p.price,
            estimated_fee: p.estimated_fee,
            entry_market_price: p.price,
            tick_size: p.tick_size,
            fee_rate_bps: p.fee_rate_bps,
            entry_order_type: p.order_type,
            entry_fee_per_share: fee,
            recovery_cost: Decimal::zero(),
            mode: p.mode,
        };
        self.base.record_position(position);
        Ok(())
    }

    /// Takes note of the answer to an order: an exit order of the token, else a pending
    /// entry. An error, with nothing changed, where the fee leaves the decimal range.
    pub fn on_order_placed(&mut self, result: &OrderResult) -> (r: Result<Vec<Action>, Overflow>)
        ensures
            order_answered(old(self).base, final(self).base, *result, r),
    {
        match find_exit_row(&self.base.exit_orders_by_id, result.token_id.as_str()) {
            Some(row) => {
                self.exit_order_placed(row, result);
                Ok(no_actions())
            },
            None => {
                self.entry_order_placed(result)?;
                Ok(no_actions())
            },
        }
    }

    /// Takes note of a filled order. An error, with nothing changed, where the arithmetic
    /// leaves its range.
    pub fn on_order_filled(&mut self, order_id: &OrderId, price: Decimal, size: Decimal) -> (r: Result<
        Vec<Action>,
        Overflow,
    >)
        ensures
            fill_noted(old(self).base, final(self).base, *order_id, price, size, r),
    {
        let now: DateTime = self.base.last_event_time;
        let exit: Option<ExitOrderMeta> = match self.base.exit_orders_by_id.get(
            order_id.as_str(),
        ) {
            Some(m) => Some(m.clone()),
            None => None,
        };
        match exit {
            Some(meta) => {
                if check_hedge(&meta) {
                    let mut reason = owned("hedge filled at ");
                    reason.append(price.to_string().as_str());
                    self.fill_hedge(order_id.as_str(), &meta, price, size, reason.as_str(), now)
                } else {
                    self.fill_sale(order_id.as_str(), &meta, price, size, now)
                }
            },
            None => {
                let lo: OpenLimitOrder = match self.base.open_limit_orders.remove(
                    order_id.as_str(),
                ) {
                    None => {
                        return Ok(no_actions());
                    },
                    Some(lo) => lo,
                };
                if self.base.order_telemetry.total_fills < u64::MAX {
                    self.base.order_telemetry.total_fills = self.base.order_telemetry.total_fills
                        + 1;
                }
                match self.base.active_markets.get(lo.market_id.as_str()) {
                    Some(m) => {
                        self.base.order_telemetry.fill_times.push(
                            (m.market.seconds_remaining_at(now), now.millis_since(lo.placed_at)),
                        );
                    },
                    None => {},
                }
                let position = ArbitragePosition::from_limit_order(
                    &lo,
                    price,
                    size,
                    Some(order_id.clone()),
                    now,
                );
                self.base.record_position(position);
                Ok(no_actions())
            },
        }
    }

    /// Takes note of a partly filled order: a sale shrinks its position, a hedge leaves it
    /// alone, and an entry keeps what is not filled yet. An error, with nothing changed,
    /// where the arithmetic leaves its range.
    pub fn handle_partially_filled(
        &mut self,
        order_id: &str,
        filled_size: Decimal,
        remaining_size: Decimal,
    ) -> (r: Result<Vec<Action>, Overflow>)
        ensures
            part_fill_noted(old(self).base, final(self).base, order_id@, filled_size, remaining_size, r),
    {
        let exit: Option<ExitOrderMeta> = match self.base.exit_orders_by_id.get(order_id) {
            Some(m) => Some(m.clone()),
            None => None,
        };
        match exit {
            Some(meta) => {
                if !check_hedge(&meta) {
                    let _ = self.base.reduce_or_remove_position_by_token(
                        meta.token_id.as_str(),
                        filled_size,
                    )?;
                }
            },
            None => {
                let i: usize = self.base.open_limit_orders.find(order_id);
                if i < self.base.open_limit_orders.len() {
                    let mut lo: OpenLimitOrder = self.base.open_limit_orders.value_at(i).clone();
                    lo.size = remaining_size;
                    self.base.open_limit_orders.set_at(i, lo);
                }
            },
        }
        Ok(no_actions())
    }

    /// Takes note of the cancel of an order.
    pub fn handle_cancelled(&mut self, order_id: &str) -> (r: Vec<Action>)
        ensures
            cancel_noted(old(self).base, final(self).base, order_id@, r@),
    {
        let now: DateTime = self.base.last_event_time;
        let exit: Option<ExitOrderMeta> = match self.base.exit_orders_by_id.get(order_id) {
            Some(m) => Some(m.clone()),
            None => None,
        };
        match exit {
            Some(meta) => {
                if check_hedge(&meta) {
                    self.forget_hedge(meta.token_id.as_str());
                    let _ = self.base.exit_orders_by_id.remove(order_id);
                    return no_actions();
                }
                let lc: PositionLifecycle = self.peek_lifecycle(meta.token_id.as_str());
                let (hedge, _) = find_hedge_id(&lc.state);
                match &hedge {
                    Some(h) => {
                        let _ = self.base.exit_orders_by_id.remove(h.as_str());
                    },
                    None => {},
                }
                self.back_to_healthy(meta.token_id.as_str(), "GTC exit cancelled for chase", now);
                let _ = self.base.exit_orders_by_id.remove(order_id);
                cancel_actions(hedge)
            },
            None => {
                let _ = self.base.open_limit_orders.remove(order_id);
                no_actions()
            },
        }
    }

    /// Holds the open limit orders against the exchange's own list.
    pub fn handle_open_order_snapshot(&mut self, ids: &Vec<OrderId>) -> (r: Vec<Action>)
        ensures
            orders_reconciled(old(self).base, final(self).base, ids@, r@),
    {
        self.base.reconcile_limit_orders(ids)
    }

    /// Gives up the exit in flight of a token whose sale was rejected.
    fn reject_exit(&mut self, token: &str, reason: &str, now: DateTime) -> (r: Result<
        Vec<Action>,
        Overflow,
    >)
        ensures
            match exit_rejected(desk(old(self).base), token@, reason@, now) {
                None => r is Err && *final(self) == *old(self),
                Some((d, actions)) => r is Ok && desk(final(self).base) == d && acts(r->Ok_0@)
                    == actions,
            },
            desk_only(old(self).base, final(self).base),
    {
        match find_position(&self.base.positions, token) {
            None => {},
            Some(i) => {
                if StopLossRejectionKind::classify(reason) == StopLossRejectionKind::InvalidSize {
                    let size: Decimal = self.base.positions[i].size;
                    let _ = self.base.reduce_or_remove_position_by_token(token, size)?;
                } else {
                    let mut text = owned("exit rejected: ");
                    text.append(reason);
                    self.back_to_healthy(token, text.as_str(), now);
                }
            },
        }
        let hedge: Option<OrderId> = match find_hedge_row(&self.base.exit_orders_by_id, token) {
            Some(i) => Some(self.base.exit_orders_by_id.key_at(i).clone()),
            None => None,
        };
        self.drop_exits_of(token);
        Ok(cancel_actions(hedge))
    }

    /// Drops the exit orders of a position's token.
    fn drop_exits_of(&mut self, token: &str)
        ensures
            final(self).base.exit_orders_by_id.rows() == without_token(
                old(self).base.exit_orders_by_id.rows(),
                token@,
            ),
            final(self).base == (CryptoArbRuntime {
                exit_orders_by_id: final(self).base.exit_orders_by_id,
                ..old(self).base
            }),
    {
        drop_exits(&mut self.base.exit_orders_by_id, token, false);
    }

    /// Takes note of a rejected order: a pending entry starts a cooldown of its market, and
    /// an exit in flight is given up. An error, with nothing changed, where the arithmetic
    /// leaves its range.
    pub fn handle_rejected(&mut self, token_id: Option<&str>, reason: &str) -> (r: Result<
        Vec<Action>,
        Overflow,
    >)
        ensures
            rejection_noted(
                old(self).base,
                final(self).base,
                match token_id {
                    Some(t) => Some(t@),
                    None => None,
                },
                reason@,
                r,
            ),
    {
        let token: &str = match token_id {
            None => {
                return Ok(no_actions());
            },
            Some(t) => t,
        };
        let now: DateTime = self.base.last_event_time;
        let entry: Option<(MarketId, DateTime)> = match self.base.pending_orders.get(token) {
            None => None,
            Some(p) => match now.plus_secs(
                to_signed(self.base.config.tailend.rejection_cooldown_secs),
            ) {
                None => {
                    return Err(Overflow);
                },
                Some(until) => Some((p.market_id.clone(), until)),
            },
        };
        let row: Option<usize> = find_exit_row(&self.base.exit_orders_by_id, token);
        let (position_token, hedge): (TokenId, bool) = match row {
            Some(i) => {
                let m = self.base.exit_orders_by_id.value_at(i);
                (m.token_id.clone(), check_hedge(m))
            },
            None => (owned(token), false),
        };
        let exiting: Option<bool> = match self.base.position_lifecycle.get(
            position_token.as_str(),
        ) {
            None => None,
            Some(lc) => Some(matches!(lc.state, PositionLifecycleState::ExitExecuting { .. })),
        };
        let actions: Vec<Action> = match exiting {
            Some(true) => self.reject_exit(position_token.as_str(), reason, now)?,
            Some(false) => {
                if hedge {
                    self.forget_hedge(position_token.as_str());
                    drop_exits(&mut self.base.exit_orders_by_id, position_token.as_str(), true);
                }
                no_actions()
            },
            None => no_actions(),
        };
        match entry {
            Some(e) => {
                let _ = self.base.pending_orders.remove(token);
                self.base.rejection_cooldowns.insert(e.0, e.1);
            },
            None => {},
        }
        Ok(actions)
    }

    /// Books a sale that was found filled when its cancel failed.
    fn match_sale(&mut self, order_id: &OrderId, meta: &ExitOrderMeta) -> (r: Result<
        Vec<Action>,
        Overflow,
    >)
        ensures
            match sale_matched(old(self).base, desk(old(self).base), order_id@, meta@) {
                None => r is Err && *final(self) == *old(self),
                Some((d, actions)) => r is Ok && desk(final(self).base) == d && acts(r->Ok_0@)
                    == actions,
            },
            desk_only(old(self).base, final(self).base),
    {
        let token: &str = meta.token_id.as_str();
        let price: Decimal = meta.exit_price;
        let size: Decimal = meta.clip_size;
        let now: DateTime = self.base.last_event_time;
        let i: usize = match find_position(&self.base.positions, token) {
            None => {
                self.base.remove_lifecycle(token);
                let _ = self.base.exit_orders_by_id.remove(order_id.as_str());
                return Ok(no_actions());
            },
            Some(i) => i,
        };
        let pos: ArbitragePosition = self.base.positions[i].clone();
        let fee: Decimal = self.exit_fee(meta.order_type, price)?;
        let pnl: Decimal = exit_pnl(&pos, price, size, fee)?;
        let total: Decimal = fee.times(size)?;
        let mut actions: Vec<Action> = Vec::new();
        actions.push(
            Action::RecordFill {
                order_id: order_id.clone(),
                market_id: pos.market_id.clone(),
                token_id: meta.token_id.clone(),
                side: OrderSide::Sell,
                price,
                size,
                realized_pnl: Some(pnl),
                fee: Some(total),
                order_type: Some(meta.order_type),
            },
        );
        assert(acts(actions@) =~= seq![sale_record(order_id@, meta@, pos, pnl, total)]);
        if size.ge(pos.size) {
            let until: DateTime = self.recovery_end()?;
            self.base.record_trade_pnl(pnl)?;
            let _ = self.base.reduce_or_remove_position_by_token(token, size);
            self.base.recovery_exit_cooldowns.insert(pos.market_id.clone(), until);
            let _ = self.base.exit_orders_by_id.remove(order_id.as_str());
            return Ok(actions);
        }
        let remaining: Decimal = pos.size.minus(size)?;
        let (dust, _) = self.judge_rest(pos.market_id.as_str(), remaining);
        if dust {
            let until: DateTime = self.recovery_end()?;
            self.base.record_trade_pnl(pnl)?;
            proof {
                lemma_rest_closes(self.base.positions@, token@, size);
            }
            let _ = self.base.reduce_or_remove_position_by_token(token, size);
            let _ = self.base.reduce_or_remove_position_by_token(token, remaining);
            self.base.recovery_exit_cooldowns.insert(pos.market_id.clone(), until);
        } else {
            self.base.record_trade_pnl(pnl)?;
            let _ = self.base.reduce_or_remove_position_by_token(token, size);
            self.back_to_healthy(token, "cancel-matched partial exit", now);
        }
        let _ = self.base.exit_orders_by_id.remove(order_id.as_str());
        Ok(actions)
    }

    /// Books a hedge that was found filled when its cancel failed.
    fn match_hedge(&mut self, order_id: &OrderId, meta: &ExitOrderMeta) -> (r: Result<
        Vec<Action>,
        Overflow,
    >)
        ensures
            match hedge_matched(old(self).base, desk(old(self).base), order_id@, meta@) {
                None => r is Err && *final(self) == *old(self),
                Some((d, actions)) => r is Ok && desk(final(self).base) == d && acts(r->Ok_0@)
                    == actions,
            },
            desk_only(old(self).base, final(self).base),
    {
        let now: DateTime = self.base.last_event_time;
        if meta.clip_size.gt(Decimal::zero()) {
            let mut reason = owned("cancel-matched hedge at ");
            reason.append(meta.exit_price.to_string().as_str());
            let actions: Vec<Action> = self.fill_hedge(
                order_id.as_str(),
                meta,
                meta.exit_price,
                meta.clip_size,
                reason.as_str(),
                now,
            )?;
            if actions.len() == 0 {
                let _ = self.base.exit_orders_by_id.remove(order_id.as_str());
            }
            Ok(actions)
        } else {
            let mut lc: PositionLifecycle = self.base.ensure_lifecycle(meta.token_id.as_str());
            lc.pending_exit_order_id = None;
            self.write_lifecycle(meta.token_id.as_str(), lc);
            let _ = self.base.exit_orders_by_id.remove(order_id.as_str());
            Ok(no_actions())
        }
    }

    /// Takes note of a cancel that failed, of an exit order or an entry. An error, with
    /// nothing changed, where the arithmetic leaves its range.
    pub fn handle_cancel_failed(&mut self, order_id: &OrderId, reason: &str) -> (r: Result<
        Vec<Action>,
        Overflow,
    >)
        ensures
            failed_cancel_noted(old(self).base, final(self).base, *order_id, reason@, r),
    {
        let now: DateTime = self.base.last_event_time;
        let exit: Option<ExitOrderMeta> = match self.base.exit_orders_by_id.get(
            order_id.as_str(),
        ) {
            Some(m) => Some(m.clone()),
            None => None,
        };
        match exit {
            Some(meta) => {
                if contains_text(reason, "matched") {
                    if check_hedge(&meta) {
                        self.match_hedge(order_id, &meta)
                    } else {
                        self.match_sale(order_id, &meta)
                    }
                } else if contains_text(reason, "canceled") || contains_text(reason, "not found") {
                    let mut text = owned("cancel failed (");
                    text.append(reason);
                    text.append("): ");
                    text.append(meta.source_state.as_str());
                    self.back_to_healthy(meta.token_id.as_str(), text.as_str(), now);
                    let _ = self.base.exit_orders_by_id.remove(order_id.as_str());
                    Ok(no_actions())
                } else {
                    Ok(no_actions())
                }
            },
            None => {
                let (found, actions) = self.base.handle_cancel_failed(order_id, reason);
                assert(found == has_key(old(self).base.open_limit_orders.rows(), order_id@));
                Ok(actions)
            },
        }
    }
}

/// Drops the exit orders of a position's token, or only its hedges.
fn drop_exits(table: &mut Table<ExitOrderMeta>, token: &str, hedges_only: bool)
    ensures
        !hedges_only ==> final(table).rows() == without_token(old(table).rows(), token@),
        hedges_only ==> final(table).rows() == without_hedges(old(table).rows(), token@),
{
    let ghost rows = table.rows();
    let ghost keep = if hedges_only {
        |id: Seq<char>, m: ExitView| !(m.token == token@ && is_hedge(m))
    } else {
        |id: Seq<char>, m: ExitView| m.token != token@
    };
    let ghost done: int = 0;
    let mut i: usize = 0;
    assert(kept(rows.take(0), keep) =~= Seq::empty());
    while i < table.len()
        invariant
            0 <= done <= rows.len(),
            i <= done,
            hedges_only ==> keep == (|id: Seq<char>, m: ExitView|
                !(m.token == token@ && is_hedge(m))),
            !hedges_only ==> keep == (|id: Seq<char>, m: ExitView| m.token != token@),
            table.rows() =~= kept(rows.take(done), keep) + rows.skip(done),
            i == kept(rows.take(done), keep).len(),
        decreases rows.len() - done,
    {
        proof {
            lemma_kept_step(rows, keep, done);
            assert(rows.skip(done)[0] == rows[done]);
        }
        let m = table.value_at(i);
        if same_text(m.token_id.as_str(), token) && (!hedges_only || check_hedge(m)) {
            let _ = table.remove_at(i);
        } else {
            i += 1;
        }
        proof {
            done = done + 1;
        }
    }
    assert(rows.take(rows.len() as int) =~= rows);
}

/// A rejected order was noted.
pub open spec fn rejection_noted(
    pre: CryptoArbRuntime,
    post: CryptoArbRuntime,
    token_id: Option<Seq<char>>,
    reason: Seq<char>,
    r: Result<Vec<Action>, Overflow>,
) -> bool {
    match token_id {
        None => r is Ok && r->Ok_0@.len() == 0 && post == pre,
        Some(token) => {
            let entry = lookup(pre.pending_orders.rows(), token);
            let until = shifted(
                pre.last_event_time,
                signed(pre.config.tailend.rejection_cooldown_secs),
            );
            let routed = rejection_routed(desk(pre), token, reason, pre.last_event_time);
            if routed is None || (entry is Some && until is None) {
                r is Err && post == pre
            } else {
                &&& r is Ok
                &&& desk(post) == (routed->0).0
                &&& acts(r->Ok_0@) == (routed->0).1
                &&& post.pending_orders.rows() == dropped(pre.pending_orders.rows(), token)
                &&& post.rejection_cooldowns.rows() == (match entry {
                    Some(p) => stored(
                        pre.rejection_cooldowns.rows(),
                        p.market_id@,
                        until->0,
                    ),
                    None => pre.rejection_cooldowns.rows(),
                })
                &&& post == (CryptoArbRuntime {
                    pending_orders: post.pending_orders,
                    rejection_cooldowns: post.rejection_cooldowns,
                    positions: post.positions,
                    position_lifecycle: post.position_lifecycle,
                    exit_orders_by_id: post.exit_orders_by_id,
                    stats: post.stats,
                    recovery_exit_cooldowns: post.recovery_exit_cooldowns,
                    ..pre
                })
            }
        },
    }
}

/// An exit order that was accepted is known by its real id: it is found under that id, and the
/// position's exit waits for it.
pub proof fn an_accepted_exit_gets_its_id(
    d: Desk,
    key: Seq<char>,
    meta: ExitView,
    id: Seq<char>,
    status: Option<Seq<char>>,
    now: DateTime,
    lc: LifecycleView,
)
    requires
        lookup(d.lives, meta.token) == Some(lc),
        lc.state is ExitExecuting,
        meta.order_type == OrderType::Gtc || status == Some("Filled"@) || is_hedge(meta),
    ensures
        ({
            let after = exit_placed(d, key, meta, true, Some(id), status, now);
            let next = lookup(after.lives, meta.token);
            &&& lookup(after.exits, id) == Some(meta)
            &&& next is Some && next->0.state is ExitExecuting
            &&& is_hedge(meta) ==> next->0.state->ExitExecuting_hedge_order_id == Some(id)
                && next->0.state->ExitExecuting_order_id == lc.state->ExitExecuting_order_id
            &&& !is_hedge(meta) ==> next->0.state->ExitExecuting_order_id == id
                && next->0.state->ExitExecuting_hedge_order_id
                == lc.state->ExitExecuting_hedge_order_id && next->0.pending_exit == Some(id)
            &&& after.positions == d.positions
        }),
{
    lemma_lookup_stored(dropped(d.exits, key), id, meta, id);
    lemma_lookup_stored(d.lives, meta.token, renamed(lc, is_hedge(meta), id), meta.token);
}

/// A sale that was refused, got no id, or was to be filled at once and was not, is given up: the
/// position is healthy again and may be sold afresh.
pub proof fn a_failed_sale_can_be_tried_again(
    d: Desk,
    key: Seq<char>,
    meta: ExitView,
    success: bool,
    order_id: Option<Seq<char>>,
    status: Option<Seq<char>>,
    now: DateTime,
    lc: LifecycleView,
)
    requires
        lookup(d.lives, meta.token) == Some(lc),
        lc.state is ExitExecuting,
        !is_hedge(meta),
        !success || order_id is None || meta.order_type != OrderType::Gtc && status != Some(
            "Filled"@,
        ),
    ensures
        ({
            let after = exit_placed(d, key, meta, success, order_id, status, now);
            let next = lookup(after.lives, meta.token);
            &&& next is Some && next->0.state is Healthy && next->0.pending_exit is None
            &&& after.positions == d.positions && after.stats == d.stats
        }),
{
    assert forall|v: LifecycleView| #[trigger]
        lookup(
            stored(with_lifecycle(d.lives, meta.token), meta.token, v),
            meta.token,
        ) == Some(v) by {
        lemma_lookup_stored(with_lifecycle(d.lives, meta.token), meta.token, v, meta.token);
    }
}

/// An entry that was accepted rests at its price and size where it is to rest, and else is a
/// position at its price and size that owes the taker's fee; one that was refused is forgotten.
pub proof fn an_accepted_entry_rests_or_is_held(
    pre: CryptoArbRuntime,
    post: CryptoArbRuntime,
    result: OrderResult,
    p: PendingOrder,
)
    requires
        entry_placed(pre, post, result, true),
        lookup(pre.pending_orders.rows(), result.token_id@) == Some(p),
        distinct_keys(pre.pending_orders.rows()),
    ensures
        lookup(post.pending_orders.rows(), result.token_id@) is None,
        !result.success ==> post.positions == pre.positions && post.open_limit_orders
            == pre.open_limit_orders,
        result.success && p.order_type == OrderType::Gtc ==> post.positions == pre.positions && (
        result.order_id is Some ==> ({
            let lo = lookup(post.open_limit_orders.rows(), result.order_id->0@);
            lo is Some && lo->0.price == p.price && lo->0.size == p.size && lo->0.token_id
                == p.token_id && lo->0.side == p.side && lo->0.placed_at == pre.last_event_time
                && !lo->0.cancel_pending
        })),
        result.success && p.order_type != OrderType::Gtc ==> ({
            let pos = post.positions@.last();
            post.positions@.len() == pre.positions@.len() + 1 && pos.entry_price == p.price
                && pos.size == p.size && pos.token_id == p.token_id && pos.side == p.side && Some(
                pos.entry_fee_per_share,
            ) == taker_fee_of(p.price, pre.config.fee.taker_fee_rate) && pos.entry_time
                == pre.last_event_time && pos.peak_bid == p.price && pos.peak_price == p.price
        }),
{
    lemma_lookup_dropped(pre.pending_orders.rows(), result.token_id@, result.token_id@);
    if result.order_id is Some {
        let id = result.order_id->0;
        lemma_lookup_stored(
            pre.open_limit_orders.rows(),
            id@,
            limit_from(p, id, pre.last_event_time),
            id@,
        );
    }
}

/// A filled entry is a position at the price and size of the fill, free of fees, and rests no more.
pub proof fn a_filled_entry_is_held(
    pre: CryptoArbRuntime,
    post: CryptoArbRuntime,
    order_id: OrderId,
    price: Decimal,
    size: Decimal,
    lo: OpenLimitOrder,
)
    requires
        entry_filled(pre, post, order_id, price, size),
        lookup(pre.open_limit_orders.rows(), order_id@) == Some(lo),
        distinct_keys(pre.open_limit_orders.rows()),
    ensures
        ({
            let pos = post.positions@.last();
            &&& lookup(post.open_limit_orders.rows(), order_id@) is None
            &&& post.positions@.len() == pre.positions@.len() + 1
            &&& pos.entry_price == price && pos.size == size && pos.token_id == lo.token_id
                && pos.side == lo.side && pos.market_id == lo.market_id
            &&& pos.peak_bid == price && pos.peak_price == price && pos.entry_time
                == pre.last_event_time
            &&& value(pos.entry_fee_per_share) == 0 as real && value(pos.recovery_cost) == 0 as real
            &&& pre.order_telemetry.total_fills < u64::MAX ==> post.order_telemetry.total_fills
                == pre.order_telemetry.total_fills + 1
        }),
{
    signs_agree(zero());
    lemma_lookup_dropped(pre.open_limit_orders.rows(), order_id@, order_id@);
}

/// A cancelled sale can be tried afresh, and its hedge is called off; a cancelled hedge leaves the
/// sale as it is.
pub proof fn a_cancelled_exit_can_be_tried_again(
    d: Desk,
    id: Seq<char>,
    meta: ExitView,
    now: DateTime,
    lc: LifecycleView,
)
    requires
        lookup(d.lives, meta.token) == Some(lc),
        lc.state is ExitExecuting,
    ensures
        ({
            let (after, actions) = exit_cancelled(d, id, meta, now);
            let next = lookup(after.lives, meta.token);
            let hedge = lc.state->ExitExecuting_hedge_order_id;
            &&& next is Some
            &&& !is_hedge(meta) ==> next->0.state is Healthy && actions == (if hedge is Some {
                seq![ActionView::CancelOrder(hedge->0)]
            } else {
                Seq::empty()
            })
            &&& is_hedge(meta) ==> next->0.state is ExitExecuting
                && next->0.state->ExitExecuting_order_id == lc.state->ExitExecuting_order_id
                && next->0.state->ExitExecuting_hedge_order_id is None && actions == Seq::<
                ActionView,
            >::empty()
            &&& after.positions == d.positions && after.stats == d.stats
        }),
{
    assert forall|v: LifecycleView| #[trigger]
        lookup(
            stored(with_lifecycle(d.lives, meta.token), meta.token, v),
            meta.token,
        ) == Some(v) by {
        lemma_lookup_stored(with_lifecycle(d.lives, meta.token), meta.token, v, meta.token);
    }
}

/// A part of an entry that was filled leaves the rest of it on the book; a part of a sale takes its
/// shares off the position.
pub proof fn a_part_fill_leaves_the_rest(
    pre: CryptoArbRuntime,
    post: CryptoArbRuntime,
    id: Seq<char>,
    filled: Decimal,
    remaining: Decimal,
    r: Result<Vec<Action>, Overflow>,
    i: int,
)
    requires
        part_fill_noted(pre, post, id, filled, remaining, r),
        r is Ok,
    ensures
        lookup(pre.exit_orders_by_id.rows(), id) is None && lookup(
            pre.open_limit_orders.rows(),
            id,
        ) is Some ==> lookup(post.open_limit_orders.rows(), id) is Some && lookup(
            post.open_limit_orders.rows(),
            id,
        )->0.size == remaining,
        lookup(pre.exit_orders_by_id.rows(), id) is Some && !is_hedge(
            lookup(pre.exit_orders_by_id.rows(), id)->0,
        ) && first_position(
            pre.positions@,
            lookup(pre.exit_orders_by_id.rows(), id)->0.token,
            i,
        ) && difference_is_exact(pre.positions@[i].size, filled) && value(filled) < value(
            pre.positions@[i].size,
        ) ==> post.positions@.len() == pre.positions@.len() && value(post.positions@[i].size)
            == value(pre.positions@[i].size) - value(filled),
{
    match lookup(pre.exit_orders_by_id.rows(), id) {
        Some(meta) => {
            if first_position(pre.positions@, meta.token, i) && difference_is_exact(
                pre.positions@[i].size,
                filled,
            ) {
                a_fill_takes_its_size_off(pre.positions@, meta.token, filled, i);
            }
        },
        None => {
            match lookup(pre.open_limit_orders.rows(), id) {
                Some(lo) => {
                    lemma_lookup_stored(
                        pre.open_limit_orders.rows(),
                        id,
                        (OpenLimitOrder { size: remaining, ..lo }),
                        id,
                    );
                },
                None => {},
            }
        },
    }
}

/// A rejected sale goes back to good health, to be tried afresh, or, where its size is too small to
/// be sold, its position is dropped; no exit order of the token is left.
pub proof fn a_rejected_exit_can_be_tried_again(
    d: Desk,
    token: Seq<char>,
    reason: Seq<char>,
    now: DateTime,
    i: int,
    lc: LifecycleView,
    row: (Seq<char>, ExitView),
)
    requires
        exit_rejected(d, token, reason, now) is Some,
        first_position(d.positions, token, i),
        lookup(d.lives, token) == Some(lc),
        lc.state is ExitExecuting,
        distinct_keys(d.lives),
    ensures
        ({
            let (after, actions) = exit_rejected(d, token, reason, now)->0;
            let dust = rejection_kind(reason) == StopLossRejectionKind::InvalidSize;
            let next = lookup(after.lives, token);
            &&& dust ==> after.positions == d.positions.remove(i) && next is None
            &&& !dust ==> after.positions == d.positions && next is Some && next->0.state is Healthy
            &&& after.exits.contains(row) ==> row.1.token != token
        }),
{
    lemma_position_of(d.positions, token, i);
    comparing_compares_values(d.positions[i].size, d.positions[i].size);
    lemma_lookup_dropped(d.lives, token, token);
    let keep = |id: Seq<char>, meta: ExitView| meta.token != token;
    filtering_keeps_what_fits(d.exits, keep, row);
    filtering_keeps_what_fits(without_token(d.exits, token), keep, row);
    assert forall|v: LifecycleView| #[trigger]
        lookup(stored(with_lifecycle(d.lives, token), token, v), token) == Some(v) by {
        lemma_lookup_stored(with_lifecycle(d.lives, token), token, v, token);
    }
}

/// A sale whose cancel failed because it was matched counts as filled at its limit price and size:
/// its result is counted, and the position shrinks by the size or is gone.
pub proof fn a_matched_sale_counts_as_filled(
    rt: CryptoArbRuntime,
    d: Desk,
    id: Seq<char>,
    meta: ExitView,
    reason: Seq<char>,
    i: int,
)
    requires
        occurs(reason, "matched"@),
        !is_hedge(meta),
        exit_cancel_failed(rt, d, id, meta, reason) is Some,
        first_position(d.positions, meta.token, i),
        difference_is_exact(d.positions[i].size, meta.clip_size),
    ensures
        ({
            let (after, actions) = exit_cancel_failed(rt, d, id, meta, reason)->0;
            let rest = value(d.positions[i].size) - value(meta.clip_size);
            let m = lookup(rt.active_markets.rows(), d.positions[i].market_id@);
            let kept = rest > 0 as real && m is Some && rest >= value(m->0.market.min_order_size);
            &&& after.stats.entered == d.stats.entered + 1
            &&& kept ==> after.positions.len() == d.positions.len() && value(
                after.positions[i].size,
            ) == rest
            &&& !kept ==> after.positions.len() == d.positions.len() - 1
            &&& actions.len() == 1 && actions[0] is RecordFill
        }),
{
    let pos = d.positions[i];
    lemma_position_of(d.positions, meta.token, i);
    comparing_compares_values(pos.size, meta.clip_size);
    differences_add_up(pos.size, meta.clip_size);
    let rest = difference_of(pos.size, meta.clip_size)->0;
    if lookup(rt.active_markets.rows(), pos.market_id@) is Some {
        comparing_compares_values(
            rest,
            lookup(rt.active_markets.rows(), pos.market_id@)->0.market.min_order_size,
        );
    }
    if value(meta.clip_size) < value(pos.size) {
        lemma_rest_closes(d.positions, meta.token, meta.clip_size);
    }
}

/// An exit order that is gone can be tried afresh; one whose cancel failed for another reason is
/// left as it is.
pub proof fn an_exit_that_is_gone_can_be_tried_again(
    rt: CryptoArbRuntime,
    d: Desk,
    id: Seq<char>,
    meta: ExitView,
    reason: Seq<char>,
    lc: LifecycleView,
)
    requires
        !occurs(reason, "matched"@),
        lookup(d.lives, meta.token) == Some(lc),
        lc.state is ExitExecuting,
        distinct_keys(d.exits),
    ensures
        ({
            let r = exit_cancel_failed(rt, d, id, meta, reason);
            let gone = occurs(reason, "canceled"@) || occurs(reason, "not found"@);
            let next = lookup((r->0).0.lives, meta.token);
            &&& r is Some && (r->0).1.len() == 0
            &&& !gone ==> (r->0).0 == d
            &&& gone ==> next is Some && next->0.state is Healthy && lookup(
                (r->0).0.exits,
                id,
            ) is None && (r->0).0.positions == d.positions
        }),
{
    lemma_lookup_dropped(d.exits, id, id);
    assert forall|v: LifecycleView| #[trigger]
        lookup(
            stored(with_lifecycle(d.lives, meta.token), meta.token, v),
            meta.token,
        ) == Some(v) by {
        lemma_lookup_stored(with_lifecycle(d.lives, meta.token), meta.token, v, meta.token);
    }
}

/// A rejected entry is forgotten, and its market cools down for the seconds after a rejection.
pub proof fn a_rejected_entry_cools_its_market(
    pre: CryptoArbRuntime,
    post: CryptoArbRuntime,
    token: Seq<char>,
    reason: Seq<char>,
    r: Result<Vec<Action>, Overflow>,
    p: PendingOrder,
)
    requires
        rejection_noted(pre, post, Some(token), reason, r),
        r is Ok,
        lookup(pre.pending_orders.rows(), token) == Some(p),
        distinct_keys(pre.pending_orders.rows()),
        pre.config.tailend.rejection_cooldown_secs <= i64::MAX,
    ensures
        lookup(post.pending_orders.rows(), token) is None,
        lookup(post.rejection_cooldowns.rows(), p.market_id@) is Some,
        lookup(post.rejection_cooldowns.rows(), p.market_id@)->0.nanos_of()
            == pre.last_event_time.nanos_of() + pre.config.tailend.rejection_cooldown_secs
            * 1_000_000_000,
{
    let secs = signed(pre.config.tailend.rejection_cooldown_secs);
    lemma_lookup_dropped(pre.pending_orders.rows(), token, token);
    shifting_moves_by_seconds(pre.last_event_time, secs);
    lemma_lookup_stored(
        pre.rejection_cooldowns.rows(),
        p.market_id@,
        shifted(pre.last_event_time, secs)->0,
        p.market_id@,
    );
}

} // verus!
