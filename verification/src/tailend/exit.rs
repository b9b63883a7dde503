//! Exits: when a position is sold, how much of it, and whether the sale is hedged.
use crate::decimal::{
    Decimal, Overflow, at_most, dec, difference_of, larger, lemma_dec_parts, less, minus, ok_of,
    plus, product_of, sum_of, times,
};
use crate::domain::lifecycle::{
    LifecycleView, PositionLifecycle, PositionLifecycleState, StateView, StopLossTriggerKind,
    TriggerEvalContext, UnifiedSlPrice, a_hard_crash_is_a_large_drop_or_reversal,
    compute_unified_sl_price, triggers_of, unified_of,
};
use crate::domain::market::MarketWithReference;
use crate::domain::position::{
    ArbitragePosition, ExitOrderMeta, ExitView, an_exit_takes_a_share_of_the_depth,
    compute_exit_clip, exit_clip_of,
};
use crate::exchange::{
    Action, ActionView, OrderId, OrderRequest, OrderSide, OrderType, OrderView, OrderbookSnapshot,
    TokenId, acts, lemma_acts_add, lemma_acts_push,
};
use crate::runtime::CryptoArbRuntime;
use crate::services::position::{opposite_token, raised, with_lifecycle};
use crate::services::pricing::{fresh_price, history_of};
use crate::table::{Table, has_key, lemma_lookup_stored, lookup, stored};
use crate::text::{i64_to_text, int_text, owned, same_text};
use crate::time::{
    DateTime, millis_between, secs_between, whole_millis_have_passed, whole_seconds_have_passed,
};
use crate::value::{
    comparing_compares_values, difference_is_exact, is_amount, is_within, lemma_within_more,
    max_of, min_of, picking_picks_values, product_is_exact, signs_agree, slack,
    small_products_are_exact, small_sums_are_exact, sum_is_exact, sums_add_up, value,
    value_of_parts,
};
use vstd::prelude::*;
use vstd::string::*;

verus! {

/// The tail-end strategy.
#[derive(Debug)]
pub struct TailEndStrategy {
    pub base: CryptoArbRuntime,
}

/// What the exit handling changes: lifecycles, exit orders, and the actions so far.
pub ghost struct ExitBook {
    pub lives: Seq<(Seq<char>, LifecycleView)>,
    pub exits: Seq<(Seq<char>, ExitView)>,
    pub actions: Seq<ActionView>,
}

/// The external price for a stop-loss: the price, its age in milliseconds, and the number
/// of sources if it is a composite.
#[derive(Clone, Copy, Debug)]
pub struct SlPriceData {
    pub price: Option<Decimal>,
    pub age_ms: Option<i64>,
    pub sources: Option<usize>,
}

/// The external price for a stop-loss: the cached composite no older than twice the limit,
/// else the latest single price of that age, else nothing.
pub open spec fn sl_data(rt: CryptoArbRuntime, coin: Seq<char>, now: DateTime) -> SlPriceData {
    let limit = 2 * rt.config.stop_loss.sl_max_external_age_ms;
    let entries = history_of(rt.price_history.rows(), coin);
    let cached = lookup(rt.sl_composite_cache.rows(), coin);
    if cached is Some && millis_between(now, (cached->0).1) <= limit {
        SlPriceData {
            price: Some((cached->0).0.price),
            age_ms: Some(millis_between(now, (cached->0).1) as i64),
            sources: Some((cached->0).0.sources_used),
        }
    } else if fresh_price(entries, limit, now) is Some {
        SlPriceData {
            price: fresh_price(entries, limit, now),
            age_ms: Some(millis_between(now, entries.last().source_ts) as i64),
            sources: None,
        }
    } else {
        SlPriceData { price: None, age_ms: None, sources: None }
    }
}

/// The blended stop-loss price of a position at a bid. `None` is an overflow.
pub open spec fn blended_of(
    rt: CryptoArbRuntime,
    pos: ArbitragePosition,
    bid: Decimal,
    now: DateTime,
) -> Option<UnifiedSlPrice> {
    unified_of(
        bid,
        pos.entry_price,
        pos.side,
        pos.reference_price,
        sl_data(rt, pos.coin@, now).price,
        rt.config.stop_loss.unified_price,
    )
}

/// A position whose peak is raised to its blended price at a bid; a blend outside the decimal
/// range raises nothing.
pub open spec fn lifted(
    rt: CryptoArbRuntime,
    pos: ArbitragePosition,
    bid: Decimal,
    now: DateTime,
) -> ArbitragePosition {
    match blended_of(rt, pos, bid, now) {
        Some(u) => ArbitragePosition { peak_price: larger(pos.peak_price, u.price), ..pos },
        None => pos,
    }
}

/// A position once an order book was seen: on the token of the book, the bid raises the peak of
/// the bids and the blended price raises the peak of the blended prices.
pub open spec fn book_lifted(
    rt: CryptoArbRuntime,
    pos: ArbitragePosition,
    snapshot: OrderbookSnapshot,
    now: DateTime,
) -> ArbitragePosition {
    match snapshot.bid() {
        Some(bid) => if pos.token_id@ == snapshot.token_id@ {
            lifted(rt, raised(pos, snapshot.token_id@, bid), bid, now)
        } else {
            pos
        },
        None => pos,
    }
}

/// A position once the price of a coin has changed: where the coin is its own and the cached
/// book is recent and has a bid, the blended price raises the peak of the blended prices.
pub open spec fn price_lifted(
    rt: CryptoArbRuntime,
    pos: ArbitragePosition,
    coin: Seq<char>,
    books: Seq<(Seq<char>, OrderbookSnapshot)>,
    now: DateTime,
) -> ArbitragePosition {
    match lookup(books, pos.token_id@) {
        Some(ob) => if pos.coin@ == coin && ob.bid() is Some && millis_between(now, ob.timestamp)
            <= rt.config.tailend.fast_path_max_book_age_ms {
            lifted(rt, pos, ob.bid()->0, now)
        } else {
            pos
        },
        None => pos,
    }
}

/// The peak of the blended prices never falls, and is at least the blended price that was seen
/// last; nothing else of the position changes.
pub proof fn blended_peaks_never_fall(
    rt: CryptoArbRuntime,
    pos: ArbitragePosition,
    bid: Decimal,
    now: DateTime,
)
    ensures
        at_most(pos.peak_price, lifted(rt, pos, bid, now).peak_price),
        blended_of(rt, pos, bid, now) is Some ==> at_most(
            (blended_of(rt, pos, bid, now)->0).price,
            lifted(rt, pos, bid, now).peak_price,
        ),
        lifted(rt, pos, bid, now) == (ArbitragePosition {
            peak_price: lifted(rt, pos, bid, now).peak_price,
            ..pos
        }),
{
}

/// What the triggers look at, for a position at a bid. `None` is an overflow.
pub open spec fn trigger_context_of(
    rt: CryptoArbRuntime,
    pos: ArbitragePosition,
    bid: Decimal,
    book_time: DateTime,
    time_remaining: i64,
    now: DateTime,
) -> Option<TriggerEvalContext> {
    let sl = rt.config.stop_loss;
    let data = sl_data(rt, pos.coin@, now);
    match blended_of(rt, pos, bid, now) {
        None => None,
        Some(unified_price) => Some(
            TriggerEvalContext {
                entry_price: pos.entry_price,
                peak_price: pos.peak_price,
                side: pos.side,
                reference_price: pos.reference_price,
                tick_size: pos.tick_size,
                entry_time: pos.entry_time,
                unified_price,
                book_age_ms: millis_between(now, book_time) as i64,
                external_fresh: data.age_ms is Some && data.age_ms->0
                    <= sl.sl_max_external_age_ms,
                composite_ok: data.sources is Some && data.sources->0 >= sl.sl_min_sources,
                time_remaining,
                now,
            },
        ),
    }
}

/// The opposite token and its ask, when buying it completes the set within the budget.
/// The outer `None` is an overflow.
pub open spec fn hedge_of(rt: CryptoArbRuntime, pos: ArbitragePosition) -> Option<
    Option<(Seq<char>, Decimal)>,
> {
    if !rt.config.stop_loss.recovery_enabled {
        Some(None)
    } else {
        match opposite_token(rt.active_markets.rows(), pos.market_id@, pos.token_id@) {
            None => Some(None),
            Some(token) => match lookup(rt.cached_asks.rows(), token@) {
                None => Some(None),
                Some(ask) => match sum_of(pos.entry_price, ask) {
                    None => None,
                    Some(cost) => Some(
                        if less(rt.config.stop_loss.recovery_max_set_cost, cost) {
                            None
                        } else {
                            Some((token@, ask))
                        },
                    ),
                },
            },
        }
    }
}

/// The id of an order for a token at an instant.
pub open spec fn stamped_id(prefix: Seq<char>, token: Seq<char>, now: DateTime) -> Seq<char> {
    prefix + token + "-"@ + int_text(now.millis_of())
}

/// The id of an order for a token at an instant.
pub fn make_stamped_id(prefix: &str, token: &str, now: DateTime) -> (r: OrderId)
    ensures
        r@ == stamped_id(prefix@, token@, now),
{
    let mut s = owned(prefix);
    s.append(token);
    s.append("-");
    s.append(i64_to_text(now.timestamp_millis()).as_str());
    s
}

/// The order that buys the opposite token.
pub open spec fn hedge_order(
    pos: ArbitragePosition,
    token: Seq<char>,
    ask: Decimal,
    clip: Decimal,
    neg_risk: bool,
) -> ActionView {
    ActionView::PlaceOrder(
        OrderView {
            token,
            price: ask,
            size: clip,
            side: OrderSide::Buy,
            order_type: OrderType::Gtc,
            neg_risk,
            tick_size: Some(pos.tick_size),
            fee_rate_bps: Some(pos.fee_rate_bps),
            post_only: false,
        },
    )
}

/// How a hedge order is remembered.
pub open spec fn hedge_meta(
    pos: ArbitragePosition,
    token: Seq<char>,
    ask: Decimal,
    clip: Decimal,
) -> ExitView {
    ExitView {
        token: pos.token_id@,
        order_token: token,
        order_type: OrderType::Gtc,
        source: "Hedge(set completion)"@,
        exit_price: ask,
        clip_size: clip,
    }
}

/// The order that sells at a price.
pub open spec fn exit_order(
    pos: ArbitragePosition,
    price: Decimal,
    size: Decimal,
    order_type: OrderType,
    neg_risk: bool,
) -> ActionView {
    ActionView::PlaceOrder(
        OrderView {
            token: pos.token_id@,
            price,
            size,
            side: OrderSide::Sell,
            order_type,
            neg_risk,
            tick_size: Some(pos.tick_size),
            fee_rate_bps: Some(pos.fee_rate_bps),
            post_only: false,
        },
    )
}

/// The shares to sell at once: no more than a share of the depth within three ticks of the
/// bid, and none if that is dust. `None` is an overflow.
pub open spec fn clip_of(
    rt: CryptoArbRuntime,
    pos: ArbitragePosition,
    bid: Decimal,
    snapshot: OrderbookSnapshot,
    min_order_size: Decimal,
) -> Option<Decimal> {
    match minus(Some(bid), times(Some(pos.tick_size), Some(dec(3, 0)))) {
        None => None,
        Some(floor) => match snapshot.bid_depth(floor) {
            None => None,
            Some(depth) => exit_clip_of(
                pos.size,
                depth,
                rt.config.stop_loss.exit_depth_cap_factor,
                min_order_size,
            ),
        },
    }
}

/// What building an exit comes to: the exit orders, and, if one is placed, the lifecycle
/// and the actions.
pub ghost struct BuiltExit {
    pub exits: Seq<(Seq<char>, ExitView)>,
    pub placed: Option<(LifecycleView, Seq<ActionView>)>,
}

/// The lifecycle state of an exit that was just placed.
pub open spec fn exiting_state(
    pos: ArbitragePosition,
    bid: Decimal,
    hedge: Option<(Seq<char>, Decimal)>,
    now: DateTime,
) -> StateView {
    StateView::ExitExecuting {
        order_id: stamped_id("exit-"@, pos.token_id@, now),
        order_type: OrderType::Fak,
        exit_price: bid,
        submitted_at: now,
        hedge_order_id: if hedge is Some {
            Some(stamped_id("hedge-"@, pos.token_id@, now))
        } else {
            None
        },
        hedge_price: if hedge is Some {
            Some((hedge->0).1)
        } else {
            None
        },
    }
}

/// An exit: the clip is sold at the bid, hedged where that pays; no order for dust.
/// `None` is an overflow.
pub open spec fn built_exit(
    rt: CryptoArbRuntime,
    exits: Seq<(Seq<char>, ExitView)>,
    lc: LifecycleView,
    pos: ArbitragePosition,
    bid: Decimal,
    snapshot: OrderbookSnapshot,
    neg_risk: bool,
    min_order_size: Decimal,
    kind: StopLossTriggerKind,
    now: DateTime,
) -> Option<BuiltExit> {
    match clip_of(rt, pos, bid, snapshot, min_order_size) {
        None => None,
        Some(clip) => if clip.mantissa_of() == 0 {
            Some(BuiltExit { exits, placed: None })
        } else {
            match hedge_of(rt, pos) {
                None => None,
                Some(hedge) => {
                    let id = stamped_id("exit-"@, pos.token_id@, now);
                    let hedged = match hedge {
                        Some((token, ask)) => stored(
                            exits,
                            stamped_id("hedge-"@, pos.token_id@, now),
                            hedge_meta(pos, token, ask, clip),
                        ),
                        None => exits,
                    };
                    let target = exiting_state(pos, bid, hedge, now);
                    if lc.state.may_become(target) {
                        Some(
                            BuiltExit {
                                exits: stored(
                                    hedged,
                                    id,
                                    ExitView {
                                        token: pos.token_id@,
                                        order_token: pos.token_id@,
                                        order_type: OrderType::Fak,
                                        source: kind.text_of(),
                                        exit_price: bid,
                                        clip_size: clip,
                                    },
                                ),
                                placed: Some(
                                    (
                                        LifecycleView {
                                            pending_exit: Some(id),
                                            ..lc.moved(
                                                target,
                                                "trigger fired: "@ + kind.text_of(),
                                                now,
                                            )
                                        },
                                        match hedge {
                                            Some((token, ask)) => seq![
                                                exit_order(
                                                    pos,
                                                    bid,
                                                    clip,
                                                    OrderType::Fak,
                                                    neg_risk,
                                                ),
                                                hedge_order(pos, token, ask, clip, neg_risk),
                                            ],
                                            None => seq![
                                                exit_order(
                                                    pos,
                                                    bid,
                                                    clip,
                                                    OrderType::Fak,
                                                    neg_risk,
                                                ),
                                            ],
                                        },
                                    ),
                                ),
                            },
                        )
                    } else {
                        Some(BuiltExit { exits: hedged, placed: None })
                    }
                },
            }
        },
    }
}

/// Whether a position is held long enough to be sold; a hard crash does not wait.
pub open spec fn may_sell(
    rt: CryptoArbRuntime,
    pos: ArbitragePosition,
    kind: StopLossTriggerKind,
    now: DateTime,
) -> bool {
    kind is HardCrash || secs_between(now, pos.entry_time) >= rt.config.tailend.min_sell_delay_secs
}

/// What an order book means for a position in good health: its triggers are evaluated, and
/// the position is sold if one fires and it may be sold. `None` is an overflow.
pub open spec fn considered(
    rt: CryptoArbRuntime,
    book: ExitBook,
    lc: LifecycleView,
    pos: ArbitragePosition,
    snapshot: OrderbookSnapshot,
    now: DateTime,
) -> Option<ExitBook> {
    match (lookup(rt.active_markets.rows(), pos.market_id@), snapshot.bid()) {
        (Some(m), Some(bid)) => {
            let left = secs_between(m.market.end_date, now);
            if left <= rt.config.stop_loss.min_remaining_secs || less(
                pos.size,
                m.market.min_order_size,
            ) {
                Some(book)
            } else {
                match trigger_context_of(rt, pos, bid, snapshot.timestamp, left as i64, now) {
                    None => None,
                    Some(ctx) => match triggers_of(
                        lc,
                        ctx,
                        rt.config.stop_loss,
                        rt.config.tailend,
                    ) {
                        None => None,
                        Some(out) => {
                            let seen = LifecycleView {
                                ticks: out.ticks,
                                unarmable: out.unarmable,
                                ..lc
                            };
                            let noted = ExitBook {
                                lives: stored(book.lives, pos.token_id@, seen),
                                ..book
                            };
                            if out.trigger is None || !may_sell(rt, pos, out.trigger->0, now) {
                                Some(noted)
                            } else {
                                match built_exit(
                                    rt,
                                    book.exits,
                                    seen,
                                    pos,
                                    bid,
                                    snapshot,
                                    m.market.neg_risk,
                                    m.market.min_order_size,
                                    out.trigger->0,
                                    now,
                                ) {
                                    None => None,
                                    Some(b) => match b.placed {
                                        None => Some(ExitBook { exits: b.exits, ..noted }),
                                        Some((next, actions)) => Some(
                                            ExitBook {
                                                lives: stored(book.lives, pos.token_id@, next),
                                                exits: b.exits,
                                                actions: book.actions + actions,
                                            },
                                        ),
                                    },
                                }
                            }
                        },
                    },
                }
            }
        },
        _ => Some(book),
    }
}

/// The book once a position's token has a lifecycle.
pub open spec fn enlisted(book: ExitBook, token: Seq<char>) -> ExitBook {
    ExitBook { lives: with_lifecycle(book.lives, token), ..book }
}

/// The lifecycle of a token, a new one if there is none.
pub open spec fn life_of(lives: Seq<(Seq<char>, LifecycleView)>, token: Seq<char>) -> LifecycleView {
    match lookup(lives, token) {
        Some(lc) => lc,
        None => LifecycleView::fresh(),
    }
}

/// What a price change means for one position: where the cached book is recent, a healthy
/// position is considered for a sale. `None` is an overflow.
pub open spec fn fast_path_step(
    rt: CryptoArbRuntime,
    book: ExitBook,
    pos: ArbitragePosition,
    books: Seq<(Seq<char>, OrderbookSnapshot)>,
    now: DateTime,
) -> Option<ExitBook> {
    let b = enlisted(book, pos.token_id@);
    let lc = life_of(book.lives, pos.token_id@);
    match lookup(books, pos.token_id@) {
        Some(ob) => if lc.state is Healthy && millis_between(now, ob.timestamp)
            <= rt.config.tailend.fast_path_max_book_age_ms {
            considered(rt, b, lc, pos, ob, now)
        } else {
            Some(b)
        },
        None => Some(b),
    }
}

/// What a price change means for the positions of a coin, one after the other.
pub open spec fn fast_path(
    rt: CryptoArbRuntime,
    book: ExitBook,
    positions: Seq<ArbitragePosition>,
    coin: Seq<char>,
    books: Seq<(Seq<char>, OrderbookSnapshot)>,
    now: DateTime,
) -> Option<ExitBook>
    decreases positions.len(),
{
    if positions.len() == 0 {
        Some(book)
    } else {
        match fast_path(rt, book, positions.drop_last(), coin, books, now) {
            None => None,
            Some(b) => if positions.last().coin@ == coin {
                fast_path_step(rt, b, positions.last(), books, now)
            } else {
                Some(b)
            },
        }
    }
}

proof fn lemma_fast_path_overflows(
    rt: CryptoArbRuntime,
    book: ExitBook,
    positions: Seq<ArbitragePosition>,
    coin: Seq<char>,
    books: Seq<(Seq<char>, OrderbookSnapshot)>,
    now: DateTime,
    n: int,
)
    requires
        0 <= n <= positions.len(),
        fast_path(rt, book, positions.take(n), coin, books, now) is None,
    ensures
        fast_path(rt, book, positions, coin, books, now) is None,
    decreases positions.len(),
{
    if n < positions.len() {
        assert(positions.drop_last().take(n) =~= positions.take(n));
        lemma_fast_path_overflows(rt, book, positions.drop_last(), coin, books, now, n);
    } else {
        assert(positions.take(n) =~= positions);
    }
}

/// What an order book means for one position of its token: a resting exit that is too old
/// is cancelled, and a healthy position is considered for a sale. `None` is an overflow.
pub open spec fn book_step(
    rt: CryptoArbRuntime,
    book: ExitBook,
    pos: ArbitragePosition,
    snapshot: OrderbookSnapshot,
    now: DateTime,
) -> Option<ExitBook> {
    let b = enlisted(book, pos.token_id@);
    let lc = life_of(book.lives, pos.token_id@);
    match lc.state {
        StateView::ExitExecuting { order_id, order_type, submitted_at, .. } => Some(
            if order_type == OrderType::Gtc && secs_between(now, submitted_at)
                >= rt.config.stop_loss.gtc_stop_loss_max_age_secs {
                ExitBook { actions: b.actions.push(ActionView::CancelOrder(order_id)), ..b }
            } else {
                b
            },
        ),
        StateView::Hedged { .. } => Some(b),
        StateView::Healthy => considered(rt, b, lc, pos, snapshot, now),
    }
}

/// What an order book means for the positions of its token, one after the other.
pub open spec fn book_path(
    rt: CryptoArbRuntime,
    book: ExitBook,
    positions: Seq<ArbitragePosition>,
    snapshot: OrderbookSnapshot,
    now: DateTime,
) -> Option<ExitBook>
    decreases positions.len(),
{
    if positions.len() == 0 {
        Some(book)
    } else {
        match book_path(rt, book, positions.drop_last(), snapshot, now) {
            None => None,
            Some(b) => if positions.last().token_id@ == snapshot.token_id@ {
                book_step(rt, b, positions.last(), snapshot, now)
            } else {
                Some(b)
            },
        }
    }
}

proof fn lemma_book_path_overflows(
    rt: CryptoArbRuntime,
    book: ExitBook,
    positions: Seq<ArbitragePosition>,
    snapshot: OrderbookSnapshot,
    now: DateTime,
    n: int,
)
    requires
        0 <= n <= positions.len(),
        book_path(rt, book, positions.take(n), snapshot, now) is None,
    ensures
        book_path(rt, book, positions, snapshot, now) is None,
    decreases positions.len(),
{
    if n < positions.len() {
        assert(positions.drop_last().take(n) =~= positions.take(n));
        lemma_book_path_overflows(rt, book, positions.drop_last(), snapshot, now, n);
    } else {
        assert(positions.take(n) =~= positions);
    }
}

/// The exit side of a state.
pub open spec fn exit_book(rt: CryptoArbRuntime) -> ExitBook {
    ExitBook {
        lives: rt.position_lifecycle.rows(),
        exits: rt.exit_orders_by_id.rows(),
        actions: Seq::empty(),
    }
}

/// A hedge completes the set within the budget: the entry price and the opposite ask together
/// cost no more than is allowed.
pub proof fn hedges_stay_within_the_budget(rt: CryptoArbRuntime, pos: ArbitragePosition)
    requires
        hedge_of(rt, pos) is Some,
        hedge_of(rt, pos)->0 is Some,
    ensures
        ({
            let (token, ask) = (hedge_of(rt, pos)->0)->0;
            let cost = plus(Some(pos.entry_price), Some(ask));
            &&& rt.config.stop_loss.recovery_enabled
            &&& cost is Some && at_most(cost->0, rt.config.stop_loss.recovery_max_set_cost)
            &&& lookup(rt.cached_asks.rows(), token) == Some(ask)
        }),
{
}

/// A position that is hedged is left alone: neither an order book nor a price change asks for
/// anything.
pub proof fn hedged_positions_are_left_alone(
    rt: CryptoArbRuntime,
    book: ExitBook,
    pos: ArbitragePosition,
    snapshot: OrderbookSnapshot,
    books: Seq<(Seq<char>, OrderbookSnapshot)>,
    now: DateTime,
)
    requires
        life_of(book.lives, pos.token_id@).state is Hedged,
    ensures
        book_step(rt, book, pos, snapshot, now) == Some(book),
        fast_path_step(rt, book, pos, books, now) == Some(book),
{
}

/// An exit is asked for once: the position of an exit that was just placed is in the midst of
/// it, and no further order book or price change asks for anything more.
pub proof fn an_exit_is_asked_once(
    rt: CryptoArbRuntime,
    book: ExitBook,
    pos: ArbitragePosition,
    snapshot: OrderbookSnapshot,
    now: DateTime,
    later: OrderbookSnapshot,
    later_books: Seq<(Seq<char>, OrderbookSnapshot)>,
    later_time: DateTime,
)
    requires
        life_of(book.lives, pos.token_id@).state is Healthy,
        book_step(rt, book, pos, snapshot, now) is Some,
        book_step(rt, book, pos, snapshot, now)->0.actions != book.actions,
    ensures
        ({
            let c = book_step(rt, book, pos, snapshot, now)->0;
            &&& life_of(c.lives, pos.token_id@).state is ExitExecuting
            &&& book_step(rt, c, pos, later, later_time) == Some(c)
            &&& fast_path_step(rt, c, pos, later_books, later_time) == Some(c)
        }),
{
    let c = book_step(rt, book, pos, snapshot, now)->0;
    let b = enlisted(book, pos.token_id@);
    assert forall|v: LifecycleView| #[trigger]
        lookup(stored(b.lives, pos.token_id@, v), pos.token_id@) == Some(v) by {
        lemma_lookup_stored(b.lives, pos.token_id@, v, pos.token_id@);
    }
    assert(b.actions == book.actions);
    assert(lookup(c.lives, pos.token_id@) is Some);
    assert(life_of(c.lives, pos.token_id@).state is ExitExecuting);
    assert(has_key(c.lives, pos.token_id@));
}

/// Only a hard crash sells a position before its delay has passed.
pub proof fn young_positions_wait(
    rt: CryptoArbRuntime,
    pos: ArbitragePosition,
    kind: StopLossTriggerKind,
    now: DateTime,
)
    requires
        secs_between(now, pos.entry_time) < rt.config.tailend.min_sell_delay_secs,
    ensures
        may_sell(rt, pos, kind, now) <==> kind is HardCrash,
{
}

/// Two states agree but for lifecycles and exit orders.
pub open spec fn exits_only(a: CryptoArbRuntime, b: CryptoArbRuntime) -> bool {
    b == (CryptoArbRuntime {
        position_lifecycle: b.position_lifecycle,
        exit_orders_by_id: b.exit_orders_by_id,
        ..a
    })
}

/// Considering a position rests on nothing that exit handling changes, and only adds to the
/// actions.
proof fn lemma_considered(
    a: CryptoArbRuntime,
    b: CryptoArbRuntime,
    book: ExitBook,
    lc: LifecycleView,
    pos: ArbitragePosition,
    snapshot: OrderbookSnapshot,
    now: DateTime,
)
    requires
        exits_only(a, b),
    ensures
        match considered(b, (ExitBook { actions: Seq::empty(), ..book }), lc, pos, snapshot, now) {
            None => considered(a, book, lc, pos, snapshot, now) is None,
            Some(out) => considered(a, book, lc, pos, snapshot, now) == Some(
                ExitBook { actions: book.actions + out.actions, ..out },
            ),
        },
{
    assert(book.actions + Seq::<ActionView>::empty() =~= book.actions);
    match considered(b, (ExitBook { actions: Seq::empty(), ..book }), lc, pos, snapshot, now) {
        None => {},
        Some(out) => {
            assert forall|x: Seq<ActionView>| #[trigger] (Seq::<ActionView>::empty() + x) == x by {
                assert(Seq::<ActionView>::empty() + x =~= x);
            }
        },
    }
}

impl TailEndStrategy {
    /// The external price for a stop-loss.
    pub fn get_sl_price_data(&self, coin: &str, now: DateTime) -> (r: SlPriceData)
        ensures
            r == sl_data(self.base, coin@, now),
    {
        let limit: i128 = 2 * (self.base.config.stop_loss.sl_max_external_age_ms as i128);
        match self.base.sl_composite_cache.get(coin) {
            Some(entry) => {
                let age: i64 = now.millis_since(entry.1);
                if age as i128 <= limit {
                    return SlPriceData {
                        price: Some(entry.0.price),
                        age_ms: Some(age),
                        sources: Some(entry.0.sources_used),
                    };
                }
            },
            None => {},
        }
        match self.base.price_history.get(coin) {
            Some(v) => {
                let n: usize = v.len();
                if n > 0 {
                    let age: i64 = now.millis_since(v[n - 1].source_ts);
                    if age as i128 <= limit {
                        return SlPriceData {
                            price: Some(v[n - 1].price),
                            age_ms: Some(age),
                            sources: None,
                        };
                    }
                }
            },
            None => {},
        }
        SlPriceData { price: None, age_ms: None, sources: None }
    }

    /// Raises the peak of a position to its blended price at a bid.
    fn lift_peak(&mut self, i: usize, bid: Decimal, now: DateTime)
        requires
            i < old(self).base.positions@.len(),
        ensures
            final(self).base.positions@ == old(self).base.positions@.update(
                i as int,
                lifted(old(self).base, old(self).base.positions@[i as int], bid, now),
            ),
            final(self).base == (CryptoArbRuntime {
                positions: final(self).base.positions,
                ..old(self).base
            }),
    {
        let pos = &self.base.positions[i];
        let data: SlPriceData = self.get_sl_price_data(pos.coin.as_str(), now);
        let blended: Result<UnifiedSlPrice, Overflow> = compute_unified_sl_price(
            bid,
            pos.entry_price,
            pos.side,
            pos.reference_price,
            data.price,
            &self.base.config.stop_loss.unified_price,
        );
        match blended {
            Ok(u) => {
                let peak: Decimal = pos.peak_price.max(u.price);
                self.base.positions[i].peak_price = peak;
            },
            Err(_) => {},
        }
        assert(self.base.positions@ =~= old(self).base.positions@.update(
            i as int,
            lifted(old(self).base, old(self).base.positions@[i as int], bid, now),
        ));
    }

    /// Raises the peaks of the positions of an order book's token, to its bid and to the
    /// blended price there.
    pub fn lift_peaks_of_book(&mut self, snapshot: &OrderbookSnapshot, now: DateTime)
        ensures
            final(self).base.positions@ == old(self).base.positions@.map_values(
                |p: ArbitragePosition| book_lifted(old(self).base, p, *snapshot, now),
            ),
            final(self).base == (CryptoArbRuntime {
                positions: final(self).base.positions,
                ..old(self).base
            }),
    {
        let ghost rt = self.base;
        let ghost f = |p: ArbitragePosition| book_lifted(rt, p, *snapshot, now);
        match snapshot.best_bid() {
            Some(bid) => {
                self.base.update_peak_bid(snapshot.token_id.as_str(), bid);
                let mut i: usize = 0;
                while i < self.base.positions.len()
                    invariant
                        i <= rt.positions@.len(),
                        snapshot.bid() == Some(bid),
                        self.base.positions@.len() == rt.positions@.len(),
                        forall|j: int|
                            0 <= j < i ==> (#[trigger] self.base.positions@[j]) == book_lifted(
                                rt,
                                rt.positions@[j],
                                *snapshot,
                                now,
                            ),
                        forall|j: int|
                            i <= j < rt.positions@.len() ==> (#[trigger] self.base.positions@[j])
                                == raised(rt.positions@[j], snapshot.token_id@, bid),
                        self.base == (CryptoArbRuntime { positions: self.base.positions, ..rt }),
                    decreases rt.positions@.len() - i,
                {
                    if same_text(
                        self.base.positions[i].token_id.as_str(),
                        snapshot.token_id.as_str(),
                    ) {
                        self.lift_peak(i, bid, now);
                    }
                    i += 1;
                }
            },
            None => {},
        }
        assert(self.base.positions@ =~= rt.positions@.map_values(f));
    }

    /// Raises the peaks of a coin's positions to their blended prices at the bids of the order
    /// books at hand.
    pub fn lift_peaks_of_coin(
        &mut self,
        coin: &str,
        books: &Table<OrderbookSnapshot>,
        now: DateTime,
    )
        ensures
            final(self).base.positions@ == old(self).base.positions@.map_values(
                |p: ArbitragePosition| price_lifted(old(self).base, p, coin@, books.rows(), now),
            ),
            final(self).base == (CryptoArbRuntime {
                positions: final(self).base.positions,
                ..old(self).base
            }),
    {
        let ghost rt = self.base;
        let ghost f = |p: ArbitragePosition| price_lifted(rt, p, coin@, books.rows(), now);
        let mut i: usize = 0;
        while i < self.base.positions.len()
            invariant
                i <= rt.positions@.len(),
                self.base.positions@.len() == rt.positions@.len(),
                forall|j: int|
                    0 <= j < i ==> (#[trigger] self.base.positions@[j]) == price_lifted(
                        rt,
                        rt.positions@[j],
                        coin@,
                        books.rows(),
                        now,
                    ),
                forall|j: int|
                    i <= j < rt.positions@.len() ==> (#[trigger] self.base.positions@[j])
                        == rt.positions@[j],
                self.base == (CryptoArbRuntime { positions: self.base.positions, ..rt }),
            decreases rt.positions@.len() - i,
        {
            if same_text(self.base.positions[i].coin.as_str(), coin) {
                match books.get(self.base.positions[i].token_id.as_str()) {
                    Some(ob) => {
                        match ob.best_bid() {
                            Some(bid) => {
                                if now.millis_since(ob.timestamp)
                                    <= self.base.config.tailend.fast_path_max_book_age_ms {
                                    self.lift_peak(i, bid, now);
                                }
                            },
                            None => {},
                        }
                    },
                    None => {},
                }
            }
            i += 1;
        }
        assert(self.base.positions@ =~= rt.positions@.map_values(f));
    }

    /// What the triggers look at, for a position at a bid.
    pub fn trigger_context(
        &self,
        pos: &ArbitragePosition,
        bid: Decimal,
        book_time: DateTime,
        time_remaining: i64,
        now: DateTime,
    ) -> (r: Result<TriggerEvalContext, Overflow>)
        ensures
            ok_of(r) == trigger_context_of(self.base, *pos, bid, book_time, time_remaining, now),
    {
        let sl = &self.base.config.stop_loss;
        let data: SlPriceData = self.get_sl_price_data(pos.coin.as_str(), now);
        let unified_price: UnifiedSlPrice = compute_unified_sl_price(
            bid,
            pos.entry_price,
            pos.side,
            pos.reference_price,
            data.price,
            &sl.unified_price,
        )?;
        let external_fresh: bool = match data.age_ms {
            Some(age) => age <= sl.sl_max_external_age_ms,
            None => false,
        };
        let composite_ok: bool = match data.sources {
            Some(n) => n >= sl.sl_min_sources,
            None => false,
        };
        Ok(
            TriggerEvalContext {
                entry_price: pos.entry_price,
                peak_price: pos.peak_price,
                side: pos.side,
                reference_price: pos.reference_price,
                tick_size: pos.tick_size,
                entry_time: pos.entry_time,
                unified_price,
                book_age_ms: now.millis_since(book_time),
                external_fresh,
                composite_ok,
                time_remaining,
                now,
            },
        )
    }

    /// Writes a lifecycle back.
    pub fn write_lifecycle(&mut self, token_id: &str, lifecycle: PositionLifecycle)
        ensures
            final(self).base.position_lifecycle.rows() == stored(
                old(self).base.position_lifecycle.rows(),
                token_id@,
                lifecycle@,
            ),
            final(self).base == (CryptoArbRuntime {
                position_lifecycle: final(self).base.position_lifecycle,
                ..old(self).base
            }),
    {
        self.base.position_lifecycle.insert(owned(token_id), lifecycle);
    }

    /// Buys the opposite token along with an exit, when that completes the set within the
    /// budget; the order is remembered.
    pub fn evaluate_hedge(
        &mut self,
        pos: &ArbitragePosition,
        exit_clip: Decimal,
        neg_risk: bool,
        now: DateTime,
    ) -> (r: Result<Option<(Action, OrderId, Decimal)>, Overflow>)
        ensures
            match hedge_of(old(self).base, *pos) {
                None => r is Err && *final(self) == *old(self),
                Some(None) => r is Ok && r->Ok_0 is None && *final(self) == *old(self),
                Some(Some((token, ask))) => {
                    &&& r is Ok && r->Ok_0 is Some
                    &&& ((r->Ok_0)->0).0@ == hedge_order(*pos, token, ask, exit_clip, neg_risk)
                    &&& ((r->Ok_0)->0).1@ == stamped_id("hedge-"@, pos.token_id@, now)
                    &&& ((r->Ok_0)->0).2 == ask
                    &&& final(self).base.exit_orders_by_id.rows() == stored(
                        old(self).base.exit_orders_by_id.rows(),
                        stamped_id("hedge-"@, pos.token_id@, now),
                        hedge_meta(*pos, token, ask, exit_clip),
                    )
                },
            },
            final(self).base == (CryptoArbRuntime {
                exit_orders_by_id: final(self).base.exit_orders_by_id,
                ..old(self).base
            }),
    {
        if !self.base.config.stop_loss.recovery_enabled {
            return Ok(None);
        }
        let token: TokenId = match self.base.get_opposite_token(
            pos.market_id.as_str(),
            pos.token_id.as_str(),
        ) {
            None => {
                return Ok(None);
            },
            Some(t) => t,
        };
        let ask: Decimal = match self.base.cached_asks.get(token.as_str()) {
            None => {
                return Ok(None);
            },
            Some(a) => *a,
        };
        let cost: Decimal = pos.entry_price.plus(ask)?;
        if cost.gt(self.base.config.stop_loss.recovery_max_set_cost) {
            return Ok(None);
        }
        let id: OrderId = make_stamped_id("hedge-", pos.token_id.as_str(), now);
        let order = OrderRequest::new(
            token.clone(),
            ask,
            exit_clip,
            OrderSide::Buy,
            OrderType::Gtc,
            neg_risk,
        ).with_tick_size(pos.tick_size).with_fee_rate_bps(pos.fee_rate_bps);
        self.base.exit_orders_by_id.insert(
            id.clone(),
            ExitOrderMeta {
                token_id: pos.token_id.clone(),
                order_token_id: token,
                order_type: OrderType::Gtc,
                source_state: owned("Hedge(set completion)"),
                exit_price: ask,
                clip_size: exit_clip,
            },
        );
        Ok(Some((Action::PlaceOrder(order), id, ask)))
    }

    /// Builds the orders of an exit and moves the lifecycle on; nothing for dust.
    pub fn build_exit_order(
        &mut self,
        pos: &ArbitragePosition,
        current_bid: Decimal,
        snapshot: &OrderbookSnapshot,
        neg_risk: bool,
        min_order_size: Decimal,
        trigger_kind: &StopLossTriggerKind,
        lifecycle: &mut PositionLifecycle,
        now: DateTime,
    ) -> (r: Result<Option<Vec<Action>>, Overflow>)
        ensures
            match built_exit(
                old(self).base,
                old(self).base.exit_orders_by_id.rows(),
                old(lifecycle)@,
                *pos,
                current_bid,
                *snapshot,
                neg_risk,
                min_order_size,
                *trigger_kind,
                now,
            ) {
                None => r is Err && *final(self) == *old(self) && *final(lifecycle) == *old(
                    lifecycle,
                ),
                Some(b) => {
                    &&& r is Ok
                    &&& final(self).base.exit_orders_by_id.rows() == b.exits
                    &&& match b.placed {
                        None => r->Ok_0 is None && final(lifecycle)@ == old(lifecycle)@,
                        Some((lc, actions)) => r->Ok_0 is Some && acts((r->Ok_0)->0@) == actions
                            && final(lifecycle)@ == lc,
                    }
                },
            },
            final(self).base == (CryptoArbRuntime {
                exit_orders_by_id: final(self).base.exit_orders_by_id,
                ..old(self).base
            }),
    {
        let width: Decimal = pos.tick_size.times(Decimal::new(3, 0))?;
        let floor: Decimal = current_bid.minus(width)?;
        let depth: Decimal = snapshot.bid_depth_down_to(floor)?;
        let clip: Decimal = compute_exit_clip(
            pos.size,
            depth,
            self.base.config.stop_loss.exit_depth_cap_factor,
            min_order_size,
        )?;
        if clip.is_zero() {
            return Ok(None);
        }
        let order = OrderRequest::new(
            pos.token_id.clone(),
            current_bid,
            clip,
            OrderSide::Sell,
            OrderType::Fak,
            neg_risk,
        ).with_tick_size(pos.tick_size).with_fee_rate_bps(pos.fee_rate_bps);
        let id: OrderId = make_stamped_id("exit-", pos.token_id.as_str(), now);
        let hedge: Option<(Action, OrderId, Decimal)> = self.evaluate_hedge(
            pos,
            clip,
            neg_risk,
            now,
        )?;
        let (hedge_order_id, hedge_price): (Option<OrderId>, Option<Decimal>) = match &hedge {
            Some(h) => (Some(h.1.clone()), Some(h.2)),
            None => (None, None),
        };
        let mut reason = owned("trigger fired: ");
        reason.append(trigger_kind.to_string().as_str());
        let target = PositionLifecycleState::ExitExecuting {
            order_id: id.clone(),
            order_type: OrderType::Fak,
            exit_price: current_bid,
            submitted_at: now,
            hedge_order_id,
            hedge_price,
        };
        match lifecycle.transition(target, reason.as_str(), now) {
            Err(_) => {
                return Ok(None);
            },
            Ok(_) => {},
        }
        lifecycle.pending_exit_order_id = Some(id.clone());
        self.base.exit_orders_by_id.insert(
            id,
            ExitOrderMeta {
                token_id: pos.token_id.clone(),
                order_token_id: pos.token_id.clone(),
                order_type: OrderType::Fak,
                source_state: trigger_kind.to_string(),
                exit_price: current_bid,
                clip_size: clip,
            },
        );
        let mut actions: Vec<Action> = Vec::new();
        actions.push(Action::PlaceOrder(order));
        match hedge {
            Some(h) => {
                actions.push(h.0);
            },
            None => {},
        }
        proof {
            let ghost_hedge = hedge_of(old(self).base, *pos)->0;
            match ghost_hedge {
                Some((token, ask)) => {
                    assert(acts(actions@) =~= seq![
                        exit_order(*pos, current_bid, clip, OrderType::Fak, neg_risk),
                        hedge_order(*pos, token, ask, clip, neg_risk),
                    ]);
                },
                None => {
                    assert(acts(actions@) =~= seq![
                        exit_order(*pos, current_bid, clip, OrderType::Fak, neg_risk),
                    ]);
                },
            }
        }
        Ok(Some(actions))
    }

    /// Considers a position in good health for a sale, given its order book.
    pub fn consider_exit(
        &mut self,
        pos: &ArbitragePosition,
        lifecycle: PositionLifecycle,
        snapshot: &OrderbookSnapshot,
        now: DateTime,
    ) -> (r: Result<Vec<Action>, Overflow>)
        ensures
            match considered(
                old(self).base,
                exit_book(old(self).base),
                lifecycle@,
                *pos,
                *snapshot,
                now,
            ) {
                None => r is Err,
                Some(b) => {
                    &&& r is Ok
                    &&& final(self).base.position_lifecycle.rows() == b.lives
                    &&& final(self).base.exit_orders_by_id.rows() == b.exits
                    &&& acts(r->Ok_0@) == b.actions
                },
            },
            exits_only(old(self).base, final(self).base),
    {
        let none: Vec<Action> = Vec::new();
        assert(acts(none@) =~= Seq::empty());
        let (time_remaining, neg_risk, min_order_size): (i64, bool, Decimal) =
            match self.base.active_markets.get(pos.market_id.as_str()) {
            None => {
                return Ok(none);
            },
            Some(m) => (
                m.market.seconds_remaining_at(now),
                m.market.neg_risk,
                m.market.min_order_size,
            ),
        };
        let bid: Decimal = match snapshot.best_bid() {
            None => {
                return Ok(none);
            },
            Some(b) => b,
        };
        if time_remaining <= self.base.config.stop_loss.min_remaining_secs || pos.size.lt(
            min_order_size,
        ) {
            return Ok(none);
        }
        let ctx: TriggerEvalContext = self.trigger_context(
            pos,
            bid,
            snapshot.timestamp,
            time_remaining,
            now,
        )?;
        let mut lc: PositionLifecycle = lifecycle;
        let trigger: Option<StopLossTriggerKind> = lc.evaluate_triggers(
            &ctx,
            &self.base.config.stop_loss,
            &self.base.config.tailend,
        )?;
        match trigger {
            Some(kind) => {
                let sellable: bool = now.secs_since(pos.entry_time)
                    >= self.base.config.tailend.min_sell_delay_secs || matches!(
                    kind,
                    StopLossTriggerKind::HardCrash { .. }
                );
                if sellable {
                    let built: Option<Vec<Action>> = self.build_exit_order(
                        pos,
                        bid,
                        snapshot,
                        neg_risk,
                        min_order_size,
                        &kind,
                        &mut lc,
                        now,
                    )?;
                    match built {
                        Some(actions) => {
                            self.write_lifecycle(pos.token_id.as_str(), lc);
                            assert(Seq::<ActionView>::empty() + acts(actions@) =~= acts(actions@));
                            return Ok(actions);
                        },
                        None => {},
                    }
                }
            },
            None => {},
        }
        self.write_lifecycle(pos.token_id.as_str(), lc);
        Ok(none)
    }

    /// Takes note of the peaks of a coin's positions when its price changes, then considers
    /// those in good health for a sale, on the order books at hand. What was done before an
    /// overflow stays done.
    pub fn evaluate_exits_on_price_change(
        &mut self,
        coin: &str,
        books: &Table<OrderbookSnapshot>,
        now: DateTime,
    ) -> (r: Result<Vec<Action>, Overflow>)
        ensures
            fast_path_run(old(self).base, final(self).base, coin@, books.rows(), now, r),
    {
        let mut actions: Vec<Action> = Vec::new();
        assert(acts(actions@) =~= Seq::empty());
        if !self.base.config.tailend.fast_path_enabled {
            return Ok(actions);
        }
        self.lift_peaks_of_coin(coin, books, now);
        let ghost rt = self.base;
        let mut i: usize = 0;
        while i < self.base.positions.len()
            invariant
                i <= self.base.positions@.len(),
                prices_seen(old(self).base, rt, coin@, books.rows(), now),
                rt.config.tailend.fast_path_enabled,
                exits_only(rt, self.base),
                fast_path(rt, exit_book(rt), rt.positions@.take(i as int), coin@, books.rows(), now)
                    == Some(
                    ExitBook {
                        lives: self.base.position_lifecycle.rows(),
                        exits: self.base.exit_orders_by_id.rows(),
                        actions: acts(actions@),
                    },
                ),
            decreases self.base.positions@.len() - i,
        {
            assert(rt.positions@.take(i as int + 1).drop_last() =~= rt.positions@.take(i as int));
            let pos: ArbitragePosition = self.base.positions[i].clone();
            if same_text(pos.coin.as_str(), coin) {
                let ghost before = ExitBook {
                    lives: self.base.position_lifecycle.rows(),
                    exits: self.base.exit_orders_by_id.rows(),
                    actions: acts(actions@),
                };
                let lifecycle: PositionLifecycle = self.base.ensure_lifecycle(
                    pos.token_id.as_str(),
                );
                let healthy: bool = matches!(lifecycle.state, PositionLifecycleState::Healthy);
                match books.get(pos.token_id.as_str()) {
                    Some(ob) => {
                        if healthy && now.millis_since(ob.timestamp)
                            <= self.base.config.tailend.fast_path_max_book_age_ms {
                            proof {
                                lemma_considered(
                                    rt,
                                    self.base,
                                    enlisted(before, pos.token_id@),
                                    lifecycle@,
                                    pos,
                                    *ob,
                                    now,
                                );
                            }
                            let done: Result<Vec<Action>, Overflow> = self.consider_exit(
                                &pos,
                                lifecycle,
                                ob,
                                now,
                            );
                            match done {
                                Err(_) => {
                                    proof {
                                        lemma_fast_path_overflows(
                                            rt,
                                            exit_book(rt),
                                            rt.positions@,
                                            coin@,
                                            books.rows(),
                                            now,
                                            i as int + 1,
                                        );
                                    }
                                    return Err(Overflow);
                                },
                                Ok(v) => {
                                    let mut more: Vec<Action> = v;
                                    proof {
                                        lemma_acts_add(actions@, more@);
                                    }
                                    actions.append(&mut more);
                                },
                            }
                        }
                    },
                    None => {},
                }
            }
            i += 1;
        }
        assert(rt.positions@.take(i as int) =~= rt.positions@);
        Ok(actions)
    }

    /// Takes note of an order book: the best ask and the peaks of its token's positions;
    /// then handles their exits. What was done before an overflow stays done.
    pub fn handle_orderbook_update(&mut self, snapshot: &OrderbookSnapshot) -> (r: Result<
        Vec<Action>,
        Overflow,
    >)
        ensures
            book_run(old(self).base, final(self).base, *snapshot, r),
    {
        let now: DateTime = self.base.last_event_time;
        self.lift_peaks_of_book(snapshot, now);
        match snapshot.best_ask() {
            Some(ask) => {
                self.base.cached_asks.insert(snapshot.token_id.clone(), ask);
            },
            None => {},
        }
        let ghost rt = self.base;
        let mut actions: Vec<Action> = Vec::new();
        assert(acts(actions@) =~= Seq::empty());
        let mut i: usize = 0;
        while i < self.base.positions.len()
            invariant
                i <= self.base.positions@.len(),
                now == rt.last_event_time,
                book_seen(old(self).base, rt, *snapshot),
                exits_only(rt, self.base),
                book_path(rt, exit_book(rt), rt.positions@.take(i as int), *snapshot, now) == Some(
                    ExitBook {
                        lives: self.base.position_lifecycle.rows(),
                        exits: self.base.exit_orders_by_id.rows(),
                        actions: acts(actions@),
                    },
                ),
            decreases self.base.positions@.len() - i,
        {
            assert(rt.positions@.take(i as int + 1).drop_last() =~= rt.positions@.take(i as int));
            let pos: ArbitragePosition = self.base.positions[i].clone();
            if same_text(pos.token_id.as_str(), snapshot.token_id.as_str()) {
                let ghost before = ExitBook {
                    lives: self.base.position_lifecycle.rows(),
                    exits: self.base.exit_orders_by_id.rows(),
                    actions: acts(actions@),
                };
                let lifecycle: PositionLifecycle = self.base.ensure_lifecycle(
                    pos.token_id.as_str(),
                );
                match &lifecycle.state {
                    PositionLifecycleState::ExitExecuting {
                        order_id,
                        order_type,
                        submitted_at,
                        ..
                    } => {
                        if *order_type == OrderType::Gtc && now.secs_since(*submitted_at)
                            >= self.base.config.stop_loss.gtc_stop_loss_max_age_secs {
                            proof {
                                lemma_acts_push(
                                    actions@,
                                    Action::CancelOrder(*order_id),
                                );
                            }
                            actions.push(Action::CancelOrder(order_id.clone()));
                        }
                    },
                    PositionLifecycleState::Hedged { .. } => {},
                    PositionLifecycleState::Healthy => {
                        proof {
                            lemma_considered(
                                rt,
                                self.base,
                                enlisted(before, pos.token_id@),
                                lifecycle@,
                                pos,
                                *snapshot,
                                now,
                            );
                        }
                        let done: Result<Vec<Action>, Overflow> = self.consider_exit(
                            &pos,
                            lifecycle,
                            snapshot,
                            now,
                        );
                        match done {
                            Err(_) => {
                                proof {
                                    lemma_book_path_overflows(
                                        rt,
                                        exit_book(rt),
                                        rt.positions@,
                                        *snapshot,
                                        now,
                                        i as int + 1,
                                    );
                                }
                                return Err(Overflow);
                            },
                            Ok(v) => {
                                let mut more: Vec<Action> = v;
                                proof {
                                    lemma_acts_add(actions@, more@);
                                }
                                actions.append(&mut more);
                            },
                        }
                    },
                }
            }
            i += 1;
        }
        assert(rt.positions@.take(i as int) =~= rt.positions@);
        Ok(actions)
    }
}

/// The peaks of the blended prices of a coin's positions are noted, and nothing else.
pub open spec fn prices_seen(
    pre: CryptoArbRuntime,
    mid: CryptoArbRuntime,
    coin: Seq<char>,
    books: Seq<(Seq<char>, OrderbookSnapshot)>,
    now: DateTime,
) -> bool {
    &&& mid.positions@ == pre.positions@.map_values(
        |p: ArbitragePosition| price_lifted(pre, p, coin, books, now),
    )
    &&& mid == (CryptoArbRuntime { positions: mid.positions, ..pre })
}

/// A price change was handled: where the fast path is on, the peaks were noted, and it went
/// over the positions.
pub open spec fn fast_path_run(
    pre: CryptoArbRuntime,
    post: CryptoArbRuntime,
    coin: Seq<char>,
    books: Seq<(Seq<char>, OrderbookSnapshot)>,
    now: DateTime,
    r: Result<Vec<Action>, Overflow>,
) -> bool {
    if !pre.config.tailend.fast_path_enabled {
        r is Ok && r->Ok_0@.len() == 0 && post == pre
    } else {
        exists|mid: CryptoArbRuntime|
            {
                &&& #[trigger] prices_seen(pre, mid, coin, books, now)
                &&& exits_only(mid, post)
                &&& match fast_path(mid, exit_book(mid), mid.positions@, coin, books, now) {
                    None => r is Err,
                    Some(b) => {
                        &&& r is Ok
                        &&& post.position_lifecycle.rows() == b.lives
                        &&& post.exit_orders_by_id.rows() == b.exits
                        &&& acts(r->Ok_0@) == b.actions
                    },
                }
            }
    }
}

/// What considering a position adds to the actions: nothing, or the sale of its shares and
/// perhaps a purchase. Other positions' lifecycles stay.
proof fn lemma_considered_adds(
    rt: CryptoArbRuntime,
    book: ExitBook,
    lc: LifecycleView,
    pos: ArbitragePosition,
    snapshot: OrderbookSnapshot,
    now: DateTime,
    token: Seq<char>,
)
    requires
        considered(rt, book, lc, pos, snapshot, now) is Some,
    ensures
        ({
            let c = considered(rt, book, lc, pos, snapshot, now)->0;
            &&& book.actions.is_prefix_of(c.actions)
            &&& token != pos.token_id@ ==> lookup(c.lives, token) == lookup(book.lives, token)
            &&& forall|k: int|
                book.actions.len() <= k < c.actions.len() ==> !is_sale(
                    #[trigger] c.actions[k],
                    token,
                ) || token == pos.token_id@
        }),
{
    let c = considered(rt, book, lc, pos, snapshot, now)->0;
    assert forall|v: LifecycleView| token != pos.token_id@ implies #[trigger] lookup(
        stored(book.lives, pos.token_id@, v),
        token,
    ) == lookup(book.lives, token) by {
        lemma_lookup_stored(book.lives, pos.token_id@, v, token);
    }
    assert(book.actions.is_prefix_of(c.actions));
}

/// An action that sells a token.
pub open spec fn is_sale(a: ActionView, token: Seq<char>) -> bool {
    a matches ActionView::PlaceOrder(o) && o.side == OrderSide::Sell && o.token == token
}

/// An action that sells shares of a token at a price, at once or not at all.
pub open spec fn is_sale_at_once(
    a: ActionView,
    token: Seq<char>,
    price: Decimal,
    size: Decimal,
) -> bool {
    a matches ActionView::PlaceOrder(o) && o.side == OrderSide::Sell && o.token == token && o.price
        == price && o.size == size && o.order_type == OrderType::Fak
}

/// Going on over further positions adds to the actions; where none of them holds a token, it is
/// not sold and its lifecycle stays.
proof fn lemma_fast_path_grows(
    rt: CryptoArbRuntime,
    book: ExitBook,
    positions: Seq<ArbitragePosition>,
    coin: Seq<char>,
    books: Seq<(Seq<char>, OrderbookSnapshot)>,
    now: DateTime,
    n: int,
    token: Seq<char>,
)
    requires
        0 <= n <= positions.len(),
        fast_path(rt, book, positions, coin, books, now) is Some,
        forall|j: int| n <= j < positions.len() ==> (#[trigger] positions[j]).token_id@ != token,
    ensures
        fast_path(rt, book, positions.take(n), coin, books, now) is Some,
        ({
            let b = fast_path(rt, book, positions.take(n), coin, books, now)->0;
            let c = fast_path(rt, book, positions, coin, books, now)->0;
            &&& b.actions.is_prefix_of(c.actions)
            &&& lookup(c.lives, token) == lookup(b.lives, token)
            &&& forall|k: int|
                b.actions.len() <= k < c.actions.len() ==> !is_sale(
                    #[trigger] c.actions[k],
                    token,
                )
        }),
    decreases positions.len(),
{
    if n < positions.len() {
        let h = positions.drop_last();
        let pos = positions.last();
        assert forall|j: int| n <= j < h.len() implies (#[trigger] h[j]).token_id@ != token by {
            assert(h[j] == positions[j]);
        }
        assert(positions[positions.len() - 1] == pos);
        assert(h.take(n) =~= positions.take(n));
        lemma_fast_path_grows(rt, book, h, coin, books, now, n, token);
        let d = fast_path(rt, book, h, coin, books, now)->0;
        let c = fast_path(rt, book, positions, coin, books, now)->0;
        if pos.coin@ == coin {
            let e = enlisted(d, pos.token_id@);
            lemma_lookup_stored(d.lives, pos.token_id@, LifecycleView::fresh(), token);
            let lc = life_of(d.lives, pos.token_id@);
            match lookup(books, pos.token_id@) {
                Some(ob) => {
                    if considered(rt, e, lc, pos, ob, now) is Some {
                        lemma_considered_adds(rt, e, lc, pos, ob, now, token);
                    }
                },
                None => {},
            }
        }
        let b = fast_path(rt, book, positions.take(n), coin, books, now)->0;
        assert(d.actions.is_prefix_of(c.actions));
        assert forall|k: int| b.actions.len() <= k < c.actions.len() implies !is_sale(
            #[trigger] c.actions[k],
            token,
        ) by {
            if k < d.actions.len() {
                assert(c.actions[k] == d.actions[k]);
            }
        }
    } else {
        assert(positions.take(n) =~= positions);
    }
}

/// A healthy position whose blended price has crashed is sold at once, whatever its age: its
/// clip, at the bid.
proof fn lemma_a_crash_is_sold(
    rt: CryptoArbRuntime,
    book: ExitBook,
    lc: LifecycleView,
    pos: ArbitragePosition,
    snapshot: OrderbookSnapshot,
    now: DateTime,
    m: MarketWithReference,
    u: UnifiedSlPrice,
    implied: Decimal,
    clip: Decimal,
)
    requires
        lc.state is Healthy,
        lookup(rt.active_markets.rows(), pos.market_id@) == Some(m),
        snapshot.bids@.len() > 0,
        secs_between(m.market.end_date, now) > rt.config.stop_loss.min_remaining_secs,
        value(pos.size) >= value(m.market.min_order_size),
        blended_of(rt, pos, snapshot.bids@[0].price, now) == Some(u),
        u.implied_price == Some(implied),
        value(rt.config.stop_loss.unified_price.sensitivity) > 0 as real,
        difference_is_exact(pos.entry_price, u.price),
        difference_is_exact(pos.entry_price, implied),
        millis_between(now, snapshot.timestamp) <= rt.config.stop_loss.sl_max_book_age_ms,
        i64::MIN <= millis_between(now, snapshot.timestamp) <= i64::MAX,
        ({
            let sl = rt.config.stop_loss;
            let share = value(sl.hard_reversal_pct);
            ||| value(pos.entry_price) - value(u.price) >= value(sl.hard_drop_abs)
            ||| max_of(value(pos.entry_price) - value(implied), 0 as real) >= value(
                sl.unified_price.sensitivity,
            ) * (share + slack(share))
        }),
        clip_of(rt, pos, snapshot.bids@[0].price, snapshot, m.market.min_order_size) == Some(clip),
        clip.mantissa_of() != 0,
        considered(rt, book, lc, pos, snapshot, now) is Some,
    ensures
        ({
            let c = considered(rt, book, lc, pos, snapshot, now)->0;
            &&& book.actions.len() < c.actions.len()
            &&& is_sale_at_once(
                c.actions[book.actions.len() as int],
                pos.token_id@,
                snapshot.bids@[0].price,
                clip,
            )
            &&& lookup(c.lives, pos.token_id@) is Some
            &&& lookup(c.lives, pos.token_id@)->0.state is ExitExecuting
        }),
{
    let bid = snapshot.bids@[0].price;
    let left = secs_between(m.market.end_date, now);
    comparing_compares_values(pos.size, m.market.min_order_size);
    let ctx = trigger_context_of(rt, pos, bid, snapshot.timestamp, left as i64, now)->0;
    let sl = rt.config.stop_loss;
    let te = rt.config.tailend;
    if triggers_of(lc, ctx, sl, te) is Some {
        a_hard_crash_is_a_large_drop_or_reversal(lc, ctx, sl, te, implied);
    }
    assert forall|v: LifecycleView| #[trigger]
        lookup(stored(book.lives, pos.token_id@, v), pos.token_id@) == Some(v) by {
        lemma_lookup_stored(book.lives, pos.token_id@, v, pos.token_id@);
    }
}

/// A price change sells a crash at once: where the fast path is on, a healthy position of the
/// coin, alone with its token, in an active market with time left and no smaller than the least
/// order, whose cached book has a bid and is no older than the limits, and whose blended price
/// has dropped below entry by the hard drop or whose external price implies the hard reversal,
/// has its clip sold at the bid, and is in the midst of its exit.
pub proof fn a_price_change_sells_a_crash(
    pre: CryptoArbRuntime,
    post: CryptoArbRuntime,
    coin: Seq<char>,
    books: Seq<(Seq<char>, OrderbookSnapshot)>,
    now: DateTime,
    r: Result<Vec<Action>, Overflow>,
    i: int,
    ob: OrderbookSnapshot,
    m: MarketWithReference,
    u: UnifiedSlPrice,
    implied: Decimal,
    clip: Decimal,
)
    requires
        fast_path_run(pre, post, coin, books, now, r),
        r is Ok,
        pre.config.tailend.fast_path_enabled,
        0 <= i < pre.positions@.len(),
        forall|j: int|
            0 <= j < pre.positions@.len() && j != i ==> (#[trigger] pre.positions@[j]).token_id@
                != pre.positions@[i].token_id@,
        ({
            let pos = pre.positions@[i];
            let sl = pre.config.stop_loss;
            let age = now.nanos_of() - ob.timestamp.nanos_of();
            let left = m.market.end_date.nanos_of() - now.nanos_of();
            let life = lookup(pre.position_lifecycle.rows(), pos.token_id@);
            let share = value(sl.hard_reversal_pct);
            &&& pos.coin@ == coin
            &&& life is None || life->0.state is Healthy
            &&& lookup(pre.active_markets.rows(), pos.market_id@) == Some(m)
            &&& lookup(books, pos.token_id@) == Some(ob)
            &&& ob.bids@.len() > 0
            &&& 0 <= age <= pre.config.tailend.fast_path_max_book_age_ms * 1_000_000
            &&& age <= sl.sl_max_book_age_ms * 1_000_000
            &&& left > 0 && left >= (sl.min_remaining_secs + 1) * 1_000_000_000
            &&& value(pos.size) >= value(m.market.min_order_size)
            &&& blended_of(pre, pos, ob.bids@[0].price, now) == Some(u)
            &&& u.implied_price == Some(implied)
            &&& value(sl.unified_price.sensitivity) > 0 as real
            &&& difference_is_exact(pos.entry_price, u.price)
            &&& difference_is_exact(pos.entry_price, implied)
            &&& value(pos.entry_price) - value(u.price) >= value(sl.hard_drop_abs) || max_of(
                value(pos.entry_price) - value(implied),
                0 as real,
            ) >= value(sl.unified_price.sensitivity) * (share + slack(share))
            &&& clip_of(pre, pos, ob.bids@[0].price, ob, m.market.min_order_size) == Some(clip)
            &&& value(clip) != 0 as real
        }),
    ensures
        ({
            let pos = pre.positions@[i];
            let life = lookup(post.position_lifecycle.rows(), pos.token_id@);
            &&& exists|k: int|
                0 <= k < acts(r->Ok_0@).len() && is_sale_at_once(
                    #[trigger] acts(r->Ok_0@)[k],
                    pos.token_id@,
                    ob.bids@[0].price,
                    clip,
                )
            &&& life is Some && life->0.state is ExitExecuting
        }),
{
    let mid = choose|mid: CryptoArbRuntime|
        {
            &&& #[trigger] prices_seen(pre, mid, coin, books, now)
            &&& exits_only(mid, post)
            &&& match fast_path(mid, exit_book(mid), mid.positions@, coin, books, now) {
                None => r is Err,
                Some(b) => {
                    &&& r is Ok
                    &&& post.position_lifecycle.rows() == b.lives
                    &&& post.exit_orders_by_id.rows() == b.exits
                    &&& acts(r->Ok_0@) == b.actions
                },
            }
        };
    let ps = mid.positions@;
    let start = exit_book(mid);
    let p = pre.positions@[i];
    let q = ps[i];
    let token = p.token_id@;
    assert(q == price_lifted(pre, p, coin, books, now));
    assert(q == (ArbitragePosition { peak_price: q.peak_price, ..p }));
    assert forall|j: int| 0 <= j < ps.len() && j != i implies (#[trigger] ps[j]).token_id@
        != token by {
        assert(ps[j] == price_lifted(pre, pre.positions@[j], coin, books, now));
    }
    signs_agree(clip);
    let c = fast_path(mid, start, ps, coin, books, now)->0;
    lemma_fast_path_grows(mid, start, ps, coin, books, now, i + 1, token);
    let b = fast_path(mid, start, ps.take(i + 1), coin, books, now)->0;
    assert(ps.take(i + 1).drop_last() =~= ps.take(i));
    assert(ps.take(i + 1).last() == q);
    let a = fast_path(mid, start, ps.take(i), coin, books, now)->0;
    assert(ps.take(i).take(0) =~= Seq::<ArbitragePosition>::empty());
    lemma_fast_path_grows(mid, start, ps.take(i), coin, books, now, 0, token);
    assert(lookup(a.lives, token) == lookup(start.lives, token));
    let e = enlisted(a, token);
    let lc = life_of(a.lives, token);
    assert(lc.state is Healthy);
    assert(millis_between(now, ob.timestamp) <= mid.config.tailend.fast_path_max_book_age_ms);
    assert(b == considered(mid, e, lc, q, ob, now)->0);
    assert(blended_of(mid, q, ob.bids@[0].price, now) == Some(u));
    assert(clip_of(mid, q, ob.bids@[0].price, ob, m.market.min_order_size) == Some(clip));
    lemma_a_crash_is_sold(mid, e, lc, q, ob, now, m, u, implied, clip);
    let k = e.actions.len() as int;
    assert(c.actions[k] == b.actions[k]);
    assert(acts(r->Ok_0@)[k] == c.actions[k]);
}

/// A price change sells nothing on a book older than the limit, nor without a book.
pub proof fn a_stale_book_sells_nothing(
    pre: CryptoArbRuntime,
    post: CryptoArbRuntime,
    coin: Seq<char>,
    books: Seq<(Seq<char>, OrderbookSnapshot)>,
    now: DateTime,
    r: Result<Vec<Action>, Overflow>,
    token: Seq<char>,
    k: int,
)
    requires
        fast_path_run(pre, post, coin, books, now, r),
        r is Ok,
        pre.config.tailend.fast_path_max_book_age_ms >= 0,
        lookup(books, token) is None || now.nanos_of() - lookup(
            books,
            token,
        )->0.timestamp.nanos_of() >= (pre.config.tailend.fast_path_max_book_age_ms + 1)
            * 1_000_000,
        0 <= k < acts(r->Ok_0@).len(),
    ensures
        !is_sale(acts(r->Ok_0@)[k], token),
{
    if pre.config.tailend.fast_path_enabled {
        let mid = choose|mid: CryptoArbRuntime|
            {
                &&& #[trigger] prices_seen(pre, mid, coin, books, now)
                &&& exits_only(mid, post)
                &&& match fast_path(mid, exit_book(mid), mid.positions@, coin, books, now) {
                    None => r is Err,
                    Some(b) => {
                        &&& r is Ok
                        &&& post.position_lifecycle.rows() == b.lives
                        &&& post.exit_orders_by_id.rows() == b.exits
                        &&& acts(r->Ok_0@) == b.actions
                    },
                }
            };
        lemma_stale_books_sell_nothing(
            mid,
            exit_book(mid),
            mid.positions@,
            coin,
            books,
            now,
            token,
        );
    }
}

proof fn lemma_stale_books_sell_nothing(
    rt: CryptoArbRuntime,
    book: ExitBook,
    positions: Seq<ArbitragePosition>,
    coin: Seq<char>,
    books: Seq<(Seq<char>, OrderbookSnapshot)>,
    now: DateTime,
    token: Seq<char>,
)
    requires
        fast_path(rt, book, positions, coin, books, now) is Some,
        lookup(books, token) is None || millis_between(now, lookup(books, token)->0.timestamp)
            > rt.config.tailend.fast_path_max_book_age_ms,
        forall|k: int|
            0 <= k < book.actions.len() ==> !is_sale(#[trigger] book.actions[k], token),
    ensures
        ({
            let c = fast_path(rt, book, positions, coin, books, now)->0;
            forall|k: int| 0 <= k < c.actions.len() ==> !is_sale(#[trigger] c.actions[k], token)
        }),
    decreases positions.len(),
{
    if positions.len() > 0 {
        let h = positions.drop_last();
        let pos = positions.last();
        lemma_stale_books_sell_nothing(rt, book, h, coin, books, now, token);
        let d = fast_path(rt, book, h, coin, books, now)->0;
        let c = fast_path(rt, book, positions, coin, books, now)->0;
        let e = enlisted(d, pos.token_id@);
        let lc = life_of(d.lives, pos.token_id@);
        if pos.coin@ == coin && pos.token_id@ != token {
            match lookup(books, pos.token_id@) {
                Some(ob) => {
                    if considered(rt, e, lc, pos, ob, now) is Some {
                        lemma_considered_adds(rt, e, lc, pos, ob, now, token);
                    }
                },
                None => {},
            }
        }
        assert forall|k: int| 0 <= k < c.actions.len() implies !is_sale(
            #[trigger] c.actions[k],
            token,
        ) by {
            if k < d.actions.len() {
                assert(c.actions[k] == d.actions[k]);
            }
        }
    }
}

/// The best ask and the peaks of an order book's token are noted, and nothing else.
pub open spec fn book_noted(
    pre: CryptoArbRuntime,
    mid: CryptoArbRuntime,
    snapshot: OrderbookSnapshot,
) -> bool {
    &&& mid.cached_asks.rows() == (match snapshot.ask() {
        Some(ask) => stored(pre.cached_asks.rows(), snapshot.token_id@, ask),
        None => pre.cached_asks.rows(),
    })
    &&& mid.positions@ == (match snapshot.bid() {
        Some(bid) => pre.positions@.map_values(
            |p: ArbitragePosition| raised(p, snapshot.token_id@, bid),
        ),
        None => pre.positions@,
    })
    &&& mid == (CryptoArbRuntime {
        cached_asks: mid.cached_asks,
        positions: mid.positions,
        ..pre
    })
}

/// The best ask and the peaks of an order book's token are noted, those of the blended prices
/// too, and nothing else.
pub open spec fn book_seen(
    pre: CryptoArbRuntime,
    mid: CryptoArbRuntime,
    snapshot: OrderbookSnapshot,
) -> bool {
    &&& mid.cached_asks.rows() == (match snapshot.ask() {
        Some(ask) => stored(pre.cached_asks.rows(), snapshot.token_id@, ask),
        None => pre.cached_asks.rows(),
    })
    &&& mid.positions@ == pre.positions@.map_values(
        |p: ArbitragePosition| book_lifted(pre, p, snapshot, pre.last_event_time),
    )
    &&& mid == (CryptoArbRuntime {
        cached_asks: mid.cached_asks,
        positions: mid.positions,
        ..pre
    })
}

/// An order book was handled: what it tells was noted, then the exits of its token's
/// positions were handled.
pub open spec fn book_run(
    pre: CryptoArbRuntime,
    post: CryptoArbRuntime,
    snapshot: OrderbookSnapshot,
    r: Result<Vec<Action>, Overflow>,
) -> bool {
    exists|mid: CryptoArbRuntime|
        {
            &&& #[trigger] book_seen(pre, mid, snapshot)
            &&& exits_only(mid, post)
            &&& match book_path(mid, exit_book(mid), mid.positions@, snapshot, pre.last_event_time) {
                None => r is Err,
                Some(b) => {
                    &&& r is Ok
                    &&& post.position_lifecycle.rows() == b.lives
                    &&& post.exit_orders_by_id.rows() == b.exits
                    &&& acts(r->Ok_0@) == b.actions
                },
            }
        }
}

/// Going on over further positions adds to the actions; where none of them holds the book's token,
/// nothing changes.
proof fn lemma_book_path_grows(
    rt: CryptoArbRuntime,
    book: ExitBook,
    positions: Seq<ArbitragePosition>,
    snapshot: OrderbookSnapshot,
    now: DateTime,
    n: int,
)
    requires
        0 <= n <= positions.len(),
        forall|j: int|
            n <= j < positions.len() ==> (#[trigger] positions[j]).token_id@ != snapshot.token_id@,
    ensures
        book_path(rt, book, positions, snapshot, now) == book_path(
            rt,
            book,
            positions.take(n),
            snapshot,
            now,
        ),
    decreases positions.len(),
{
    if n < positions.len() {
        let h = positions.drop_last();
        assert forall|j: int| n <= j < h.len() implies (#[trigger] h[j]).token_id@
            != snapshot.token_id@ by {
            assert(h[j] == positions[j]);
        }
        assert(positions[positions.len() - 1] == positions.last());
        assert(h.take(n) =~= positions.take(n));
        lemma_book_path_grows(rt, book, h, snapshot, now, n);
    } else {
        assert(positions.take(n) =~= positions);
    }
}

/// An order book sells a crash at once: a healthy position, alone with its token, in an active
/// market with time left and no smaller than the least order, whose blended price has dropped below
/// entry by the hard drop or whose external price implies the hard reversal, has its clip sold at
/// the book's bid, and is in the midst of its exit.
pub proof fn an_order_book_sells_a_crash(
    pre: CryptoArbRuntime,
    post: CryptoArbRuntime,
    ob: OrderbookSnapshot,
    r: Result<Vec<Action>, Overflow>,
    i: int,
    m: MarketWithReference,
    u: UnifiedSlPrice,
    implied: Decimal,
    clip: Decimal,
)
    requires
        book_run(pre, post, ob, r),
        r is Ok,
        0 <= i < pre.positions@.len(),
        pre.positions@[i].token_id@ == ob.token_id@,
        forall|j: int|
            0 <= j < pre.positions@.len() && j != i ==> (#[trigger] pre.positions@[j]).token_id@
                != ob.token_id@,
        ({
            let pos = pre.positions@[i];
            let sl = pre.config.stop_loss;
            let now = pre.last_event_time;
            let age = now.nanos_of() - ob.timestamp.nanos_of();
            let left = m.market.end_date.nanos_of() - now.nanos_of();
            let life = lookup(pre.position_lifecycle.rows(), pos.token_id@);
            let share = value(sl.hard_reversal_pct);
            &&& life is None || life->0.state is Healthy
            &&& lookup(pre.active_markets.rows(), pos.market_id@) == Some(m)
            &&& ob.bids@.len() > 0
            &&& 0 <= age <= sl.sl_max_book_age_ms * 1_000_000
            &&& left > 0 && left >= (sl.min_remaining_secs + 1) * 1_000_000_000
            &&& value(pos.size) >= value(m.market.min_order_size)
            &&& blended_of(pre, pos, ob.bids@[0].price, now) == Some(u)
            &&& u.implied_price == Some(implied)
            &&& value(sl.unified_price.sensitivity) > 0 as real
            &&& difference_is_exact(pos.entry_price, u.price)
            &&& difference_is_exact(pos.entry_price, implied)
            &&& value(pos.entry_price) - value(u.price) >= value(sl.hard_drop_abs) || max_of(
                value(pos.entry_price) - value(implied),
                0 as real,
            ) >= value(sl.unified_price.sensitivity) * (share + slack(share))
            &&& clip_of(pre, pos, ob.bids@[0].price, ob, m.market.min_order_size) == Some(clip)
            &&& value(clip) != 0 as real
        }),
    ensures
        ({
            let life = lookup(post.position_lifecycle.rows(), ob.token_id@);
            &&& acts(r->Ok_0@).len() > 0
            &&& is_sale_at_once(acts(r->Ok_0@)[0], ob.token_id@, ob.bids@[0].price, clip)
            &&& life is Some && life->0.state is ExitExecuting
        }),
{
    let now = pre.last_event_time;
    let mid = choose|mid: CryptoArbRuntime|
        {
            &&& #[trigger] book_seen(pre, mid, ob)
            &&& exits_only(mid, post)
            &&& match book_path(mid, exit_book(mid), mid.positions@, ob, now) {
                None => r is Err,
                Some(b) => {
                    &&& r is Ok
                    &&& post.position_lifecycle.rows() == b.lives
                    &&& post.exit_orders_by_id.rows() == b.exits
                    &&& acts(r->Ok_0@) == b.actions
                },
            }
        };
    let ps = mid.positions@;
    let start = exit_book(mid);
    let p = pre.positions@[i];
    let q = ps[i];
    let token = p.token_id@;
    assert(q == book_lifted(pre, p, ob, now));
    assert(q == (ArbitragePosition { peak_price: q.peak_price, peak_bid: q.peak_bid, ..p }));
    assert forall|j: int| 0 <= j < ps.len() && j != i implies (#[trigger] ps[j]).token_id@
        != token by {
        assert(ps[j] == book_lifted(pre, pre.positions@[j], ob, now));
    }
    signs_agree(clip);
    lemma_book_path_grows(mid, start, ps, ob, now, i + 1);
    assert(ps.take(i + 1).drop_last() =~= ps.take(i));
    assert(ps.take(i + 1).last() == q);
    assert(ps.take(i).take(0) =~= Seq::<ArbitragePosition>::empty());
    lemma_book_path_grows(mid, start, ps.take(i), ob, now, 0);
    let e = enlisted(start, token);
    let lc = life_of(start.lives, token);
    assert(lc.state is Healthy);
    assert(blended_of(mid, q, ob.bids@[0].price, now) == Some(u));
    assert(clip_of(mid, q, ob.bids@[0].price, ob, m.market.min_order_size) == Some(clip));
    lemma_a_crash_is_sold(mid, e, lc, q, ob, now, m, u, implied, clip);
}

/// A sale takes what is left of the position, at most its share of the bids down to three ticks
/// below the best; nothing where that is less than the least order.
pub proof fn a_sale_reaches_three_ticks_down(
    rt: CryptoArbRuntime,
    pos: ArbitragePosition,
    bid: Decimal,
    snapshot: OrderbookSnapshot,
    least: Decimal,
)
    requires
        is_amount(bid),
        is_amount(pos.tick_size),
        clip_of(rt, pos, bid, snapshot, least) is Some,
        forall|floor: Decimal|
            (#[trigger] snapshot.bid_depth(floor)) is Some ==> product_is_exact(
                snapshot.bid_depth(floor)->0,
                rt.config.stop_loss.exit_depth_cap_factor,
            ),
    ensures
        exists|floor: Decimal|
            {
                let depth = #[trigger] snapshot.bid_depth(floor);
                let room = min_of(
                    value(pos.size),
                    value(depth->0) * value(rt.config.stop_loss.exit_depth_cap_factor),
                );
                let clip = value(clip_of(rt, pos, bid, snapshot, least)->0);
                &&& value(floor) == value(bid) - (3 as real) * value(pos.tick_size)
                &&& depth is Some
                &&& room >= value(least) ==> clip == room
                &&& room < value(least) ==> clip == 0 as real
            },
{
    lemma_dec_parts(3, 0);
    value_of_parts(3, 0);
    assert(is_within(dec(3, 0), 1, 0)) by {
        reveal_with_fuel(crate::decimal::pow10, 2);
    }
    small_products_are_exact(pos.tick_size, dec(3, 0), 6, 6, 1, 0);
    let reach = product_of(pos.tick_size, dec(3, 0))->0;
    lemma_within_more(bid, 6, 6, 7, 6);
    small_sums_are_exact(bid, reach, 7, 6);
    let floor = difference_of(bid, reach)->0;
    let depth = snapshot.bid_depth(floor);
    an_exit_takes_a_share_of_the_depth(
        pos.size,
        depth->0,
        rt.config.stop_loss.exit_depth_cap_factor,
        least,
    );
}

/// Only a hard crash sells a position before the whole of its delay has passed; after it, every
/// trigger does.
pub proof fn a_position_is_sold_after_its_delay(
    rt: CryptoArbRuntime,
    pos: ArbitragePosition,
    kind: StopLossTriggerKind,
    now: DateTime,
)
    requires
        rt.config.tailend.min_sell_delay_secs >= 1,
    ensures
        may_sell(rt, pos, kind, now) <==> kind is HardCrash || now.nanos_of()
            - pos.entry_time.nanos_of() >= rt.config.tailend.min_sell_delay_secs * 1_000_000_000,
{
    whole_seconds_have_passed(now, pos.entry_time);
    whole_seconds_have_passed(pos.entry_time, now);
}

/// A position is hedged, at the ask of the other outcome, where hedging is on and the entry price
/// and that ask together cost no more than is allowed; and not otherwise.
pub proof fn a_hedge_is_bought_within_the_budget(
    rt: CryptoArbRuntime,
    pos: ArbitragePosition,
    m: MarketWithReference,
    other: TokenId,
    ask: Decimal,
)
    requires
        lookup(rt.active_markets.rows(), pos.market_id@) == Some(m),
        m.market.token_ids.outcome_a@ != m.market.token_ids.outcome_b@,
        pos.token_id@ == m.market.token_ids.outcome_a@ && other == m.market.token_ids.outcome_b
            || pos.token_id@ == m.market.token_ids.outcome_b@ && other
            == m.market.token_ids.outcome_a,
        lookup(rt.cached_asks.rows(), other@) == Some(ask),
        sum_is_exact(pos.entry_price, ask),
    ensures
        ({
            let sl = rt.config.stop_loss;
            let affordable = value(pos.entry_price) + value(ask) <= value(
                sl.recovery_max_set_cost,
            );
            &&& sl.recovery_enabled && affordable ==> hedge_of(rt, pos) == Some(Some((other@, ask)))
            &&& !(sl.recovery_enabled && affordable) ==> hedge_of(rt, pos) == Some(
                None::<(Seq<char>, Decimal)>,
            )
        }),
{
    sums_add_up(pos.entry_price, ask);
    let cost = sum_of(pos.entry_price, ask)->0;
    comparing_compares_values(rt.config.stop_loss.recovery_max_set_cost, cost);
}

/// The external price of a coin is the cached composite while that is no older than twice the
/// limit, else the last quote of its history while that is, else none.
pub proof fn the_external_price_is_no_older_than_twice_the_limit(
    rt: CryptoArbRuntime,
    coin: Seq<char>,
    now: DateTime,
)
    requires
        rt.config.stop_loss.sl_max_external_age_ms >= 0,
    ensures
        ({
            let limit = (2 * rt.config.stop_loss.sl_max_external_age_ms + 1) * 1_000_000;
            let cached = lookup(rt.sl_composite_cache.rows(), coin);
            let quotes = history_of(rt.price_history.rows(), coin);
            let price = sl_data(rt, coin, now).price;
            let recent = cached is Some && now.nanos_of() - (cached->0).1.nanos_of() < limit;
            let quoted = quotes.len() > 0 && now.nanos_of() - quotes.last().source_ts.nanos_of()
                < limit;
            &&& recent ==> price == Some((cached->0).0.price) && sl_data(rt, coin, now).sources
                == Some((cached->0).0.sources_used)
            &&& !recent && quoted ==> price == Some(quotes.last().price) && sl_data(
                rt,
                coin,
                now,
            ).sources is None
            &&& !recent && !quoted ==> price is None
        }),
{
    let cached = lookup(rt.sl_composite_cache.rows(), coin);
    if cached is Some {
        whole_millis_have_passed(now, (cached->0).1);
        whole_millis_have_passed((cached->0).1, now);
    }
    let quotes = history_of(rt.price_history.rows(), coin);
    if quotes.len() > 0 {
        whole_millis_have_passed(now, quotes.last().source_ts);
        whole_millis_have_passed(quotes.last().source_ts, now);
    }
}

/// What the triggers hear of the external price: that it is fresh where it is no older than the
/// limit, and that it is a good composite where it has enough sources.
pub proof fn triggers_hear_how_good_the_price_is(
    rt: CryptoArbRuntime,
    pos: ArbitragePosition,
    bid: Decimal,
    book_time: DateTime,
    left: i64,
    now: DateTime,
)
    requires
        trigger_context_of(rt, pos, bid, book_time, left, now) is Some,
        i64::MIN <= millis_between(now, book_time) <= i64::MAX,
    ensures
        ({
            let ctx = trigger_context_of(rt, pos, bid, book_time, left, now)->0;
            let data = sl_data(rt, pos.coin@, now);
            let sl = rt.config.stop_loss;
            let age = now.nanos_of() - book_time.nanos_of();
            &&& ctx.external_fresh <==> data.age_ms is Some && data.age_ms->0
                <= sl.sl_max_external_age_ms
            &&& ctx.composite_ok <==> data.sources is Some && data.sources->0 >= sl.sl_min_sources
            &&& age >= 0 ==> ctx.book_age_ms * 1_000_000 <= age < (ctx.book_age_ms + 1) * 1_000_000
            &&& ctx.time_remaining == left && ctx.now == now
            &&& ctx.entry_price == pos.entry_price && ctx.peak_price == pos.peak_price
            &&& ctx.side == pos.side && ctx.reference_price == pos.reference_price
        }),
{
    whole_millis_have_passed(now, book_time);
}

/// The peak of a position follows the blended price: it is the larger of the two.
pub proof fn the_peak_is_the_highest_blended_price(
    rt: CryptoArbRuntime,
    pos: ArbitragePosition,
    bid: Decimal,
    now: DateTime,
    u: UnifiedSlPrice,
)
    requires
        blended_of(rt, pos, bid, now) == Some(u),
    ensures
        value(lifted(rt, pos, bid, now).peak_price) == max_of(value(pos.peak_price), value(u.price)),
        lifted(rt, pos, bid, now).peak_bid == pos.peak_bid,
{
    picking_picks_values(pos.peak_price, u.price);
}

/// Nothing is sold in the last seconds of a market, nor where less than the least order is left.
pub proof fn nothing_is_sold_at_the_end(
    rt: CryptoArbRuntime,
    book: ExitBook,
    lc: LifecycleView,
    pos: ArbitragePosition,
    snapshot: OrderbookSnapshot,
    now: DateTime,
    m: MarketWithReference,
)
    requires
        lookup(rt.active_markets.rows(), pos.market_id@) == Some(m),
        rt.config.stop_loss.min_remaining_secs >= 0,
        m.market.end_date.nanos_of() - now.nanos_of() < (rt.config.stop_loss.min_remaining_secs + 1)
            * 1_000_000_000 || value(pos.size) < value(m.market.min_order_size),
    ensures
        considered(rt, book, lc, pos, snapshot, now) == Some(book),
{
    whole_seconds_have_passed(m.market.end_date, now);
    whole_seconds_have_passed(now, m.market.end_date);
    comparing_compares_values(pos.size, m.market.min_order_size);
}

/// A sale that rests is cancelled once the whole of its allowed seconds has passed, and not before.
pub proof fn a_resting_sale_is_cancelled_for_its_age(
    rt: CryptoArbRuntime,
    book: ExitBook,
    pos: ArbitragePosition,
    snapshot: OrderbookSnapshot,
    now: DateTime,
    lc: LifecycleView,
)
    requires
        lookup(book.lives, pos.token_id@) == Some(lc),
        lc.state is ExitExecuting,
        lc.state->ExitExecuting_order_type == OrderType::Gtc,
        rt.config.stop_loss.gtc_stop_loss_max_age_secs >= 1,
    ensures
        ({
            let c = book_step(rt, book, pos, snapshot, now);
            let age = now.nanos_of() - lc.state->ExitExecuting_submitted_at.nanos_of();
            let old = age >= rt.config.stop_loss.gtc_stop_loss_max_age_secs * 1_000_000_000;
            &&& c is Some
            &&& old ==> c->0.actions == book.actions.push(
                ActionView::CancelOrder(lc.state->ExitExecuting_order_id),
            )
            &&& !old ==> c->0.actions == book.actions
        }),
{
    whole_seconds_have_passed(now, lc.state->ExitExecuting_submitted_at);
    whole_seconds_have_passed(lc.state->ExitExecuting_submitted_at, now);
}

} // verus!
