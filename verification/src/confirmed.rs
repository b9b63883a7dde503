//! Confirmed strategy: directional trades on model confidence.
use crate::base::{CryptoArbBase, mode_disabled_of, with_new_price};
use crate::decimal::{
    Decimal, Overflow, at_most, dec, difference_of, less, magnitude, ok_of, over, plus, sum_of,
};
use crate::domain::market::{MarketWithReference, confidence_of, winner_of};
use crate::domain::position::{ArbitrageMode, ArbitrageOpportunity, PendingOrder};
use crate::exchange::{
    Action, ActionView, ChainQuote, MarketData, MarketId, MarketInfo, OrderId, OrderRequest,
    OrderResult, OrderSide, OrderType, OrderbookSnapshot, OutcomeSide, TokenId, acts,
    lemma_acts_push,
};
use crate::fee_math::{checked_taker_fee, taker_fee_of};
use crate::mode_orders::{ModeClass, mode_order_filled, mode_order_placed};
use crate::runtime::{CryptoArbRuntime, signed, to_signed};
use crate::services::feed::{price_entry, price_recorded_as};
use crate::services::position::{exposed_in, slots_used};
use crate::services::pricing::{history_of, wick_of};
use crate::sizing::{
    Sizing, make_order, margins_of, order_margins, placed_of, pricing_of, size_order, sizing_of,
};
use crate::table::{Table, lemma_lookup_stored, lookup, stored};
use crate::tailend::entry::token_for;
use crate::text::same_text;
use crate::time::{DateTime, secs_between};
use crate::value::{
    abs_of, comparing_compares_values, difference_is_exact, differences_add_up, negating_negates,
    quotients_compare, signs_agree, slack, sum_is_exact, sums_add_up, value,
};
use vstd::prelude::*;

verus! {

/// The confirmed strategy.
#[derive(Debug)]
pub struct ConfirmedStrategy {
    pub base: CryptoArbBase,
}

/// The token of an outcome, and the best ask of its book.
pub open spec fn ask_on(
    m: MarketInfo,
    side: OutcomeSide,
    books: Seq<(Seq<char>, OrderbookSnapshot)>,
) -> Option<Decimal> {
    match lookup(books, token_for(m, side)@) {
        Some(ob) => ob.ask(),
        None => None,
    }
}

/// The best ask of an outcome.
pub fn find_ask(m: &MarketInfo, side: OutcomeSide, books: &Table<OrderbookSnapshot>) -> (r: Option<
    Decimal,
>)
    ensures
        r == ask_on(*m, side, books.rows()),
{
    let token: &str = if side.is_up() {
        m.token_ids.outcome_a.as_str()
    } else {
        m.token_ids.outcome_b.as_str()
    };
    match books.get(token) {
        Some(ob) => ob.best_ask(),
        None => None,
    }
}

/// The token of an outcome.
pub fn pick_token(m: &MarketInfo, side: OutcomeSide) -> (r: TokenId)
    ensures
        r == token_for(*m, side),
{
    if side.is_up() {
        m.token_ids.outcome_a.clone()
    } else {
        m.token_ids.outcome_b.clone()
    }
}

/// The mode is switched off. `None` is an overflow.
pub open spec fn confirmed_disabled(base: CryptoArbBase) -> Option<bool> {
    mode_disabled_of(
        lookup(base.mode_stats.rows(), "Confirmed"@),
        base.rt.config.performance,
    )
}

/// The opportunity that a market offers: outside the tail-end window if that mode is on, on
/// the side that the price points to, with enough confidence and margin. The outer `None` is
/// an overflow.
pub open spec fn confirmed_opportunity(
    base: CryptoArbBase,
    m: MarketWithReference,
    market_id: MarketId,
    price: Decimal,
    books: Seq<(Seq<char>, OrderbookSnapshot)>,
    now: DateTime,
) -> Option<Option<ArbitrageOpportunity>> {
    let config = base.rt.config;
    let left = secs_between(m.market.end_date, now) as i64;
    if left <= 0 || (config.tailend.enabled && left < signed(config.tailend.time_threshold_secs)) {
        Some(None)
    } else {
        match confirmed_disabled(base) {
            None => None,
            Some(true) => Some(None),
            Some(false) => match winner_of(m.reference_price, price) {
                None => Some(None),
                Some(side) => match ask_on(m.market, side, books) {
                    None => Some(None),
                    Some(ask) => match confidence_of(
                        m.reference_price,
                        m.reference_quality.factor(),
                        price,
                        ask,
                        left,
                    ) {
                        None => None,
                        Some(confidence) => if less(confidence, config.confirmed.min_confidence) {
                            Some(None)
                        } else {
                            match margins_of(
                                config.order.hybrid_mode,
                                config.fee.taker_fee_rate,
                                ask,
                            ) {
                                None => None,
                                Some((gross, fee, net)) => if less(
                                    net,
                                    if left < 300 {
                                        config.late_window_margin
                                    } else {
                                        config.confirmed.min_margin
                                    },
                                ) {
                                    Some(None)
                                } else {
                                    Some(
                                        Some(
                                            ArbitrageOpportunity {
                                                mode: ArbitrageMode::Confirmed,
                                                market_id,
                                                outcome_to_buy: side,
                                                token_id: token_for(m.market, side),
                                                buy_price: ask,
                                                confidence,
                                                profit_margin: gross,
                                                estimated_fee: fee,
                                                net_margin: net,
                                            },
                                        ),
                                    )
                                },
                            }
                        },
                    },
                },
            },
        }
    }
}

/// An entry is made only on the side that the price points to, with enough confidence and a
/// sufficient net margin, and never where the tail-end strategy trades.
pub proof fn confirmed_entries_meet_the_conditions(
    base: CryptoArbBase,
    m: MarketWithReference,
    market_id: MarketId,
    price: Decimal,
    books: Seq<(Seq<char>, OrderbookSnapshot)>,
    now: DateTime,
)
    requires
        confirmed_opportunity(base, m, market_id, price, books, now) is Some,
        confirmed_opportunity(base, m, market_id, price, books, now)->0 is Some,
    ensures
        ({
            let o = (confirmed_opportunity(base, m, market_id, price, books, now)->0)->0;
            let config = base.rt.config;
            let left = secs_between(m.market.end_date, now) as i64;
            &&& left > 0
            &&& config.tailend.enabled ==> left >= signed(config.tailend.time_threshold_secs)
            &&& winner_of(m.reference_price, price) == Some(o.outcome_to_buy)
            &&& at_most(config.confirmed.min_confidence, o.confidence)
            &&& at_most(
                if left < 300 {
                    config.late_window_margin
                } else {
                    config.confirmed.min_margin
                },
                o.net_margin,
            )
        }),
{
}

/// The middle of a book, when it has both sides. The outer `None` is an overflow.
pub open spec fn mid_of(book: Option<OrderbookSnapshot>) -> Option<Option<Decimal>> {
    match book {
        None => Some(None),
        Some(ob) => match (ob.ask(), ob.bid()) {
            (Some(ask), Some(bid)) => match over(
                plus(Some(ask), Some(bid)),
                Some(dec(2, 0)),
            ) {
                Some(m) => Some(Some(m)),
                None => None,
            },
            _ => Some(None),
        },
    }
}

fn find_mid(book: Option<&OrderbookSnapshot>) -> (r: Result<Option<Decimal>, Overflow>)
    ensures
        ok_of(r) == mid_of(
            match book {
                Some(ob) => Some(*ob),
                None => None,
            },
        ),
{
    match book {
        None => Ok(None),
        Some(ob) => match (ob.best_ask(), ob.best_bid()) {
            (Some(ask), Some(bid)) => {
                let m: Decimal = ask.plus(bid)?.over(Decimal::new(2, 0))?;
                Ok(Some(m))
            },
            _ => Ok(None),
        },
    }
}

/// The price has moved by more than the fee and margin at the middle of the predicted side's
/// book; without a middle the question stays open, and the market is looked at. `None` is
/// an overflow.
pub open spec fn moved_enough(
    base: CryptoArbBase,
    m: MarketWithReference,
    price: Decimal,
    books: Seq<(Seq<char>, OrderbookSnapshot)>,
) -> Option<bool> {
    match (
        mid_of(lookup(books, m.market.token_ids.outcome_a@)),
        mid_of(lookup(books, m.market.token_ids.outcome_b@)),
    ) {
        (Some(mid_a), Some(mid_b)) => {
            let mid = match winner_of(m.reference_price, price) {
                Some(side) => if side.bets_up() {
                    mid_a
                } else {
                    mid_b
                },
                None => None,
            };
            match mid {
                None => Some(true),
                Some(p) => match (
                    plus(
                        taker_fee_of(p, base.rt.config.fee.taker_fee_rate),
                        Some(base.rt.config.confirmed.min_margin),
                    ),
                    wick_of(price, m.reference_price),
                ) {
                    (Some(threshold), Some(delta)) => Some(at_most(threshold, delta)),
                    _ => None,
                },
            }
        },
        _ => None,
    }
}

/// What is done about a market: nothing, or an order. `None` is an overflow.
pub open spec fn confirmed_plan(
    base: CryptoArbBase,
    m: MarketWithReference,
    price: Decimal,
    books: Seq<(Seq<char>, OrderbookSnapshot)>,
    now: DateTime,
) -> Option<Option<(OrderRequest, PendingOrder)>> {
    match moved_enough(base, m, price, books) {
        None => None,
        Some(false) => Some(None),
        Some(true) => match confirmed_opportunity(base, m, m.market.id, price, books, now) {
            None => None,
            Some(None) => Some(None),
            Some(Some(o)) => if o.buy_price.mantissa_of() == 0 {
                Some(None)
            } else {
                match sizing_of(base.rt.config.sizing, o.confidence, o.buy_price) {
                    None => None,
                    Some(None) => Some(None),
                    Some(Some(s)) => if less(s.shares, m.market.min_order_size) {
                        Some(None)
                    } else {
                        match placed_of(base.rt.config.order, m, o, s) {
                            None => None,
                            Some(p) => Some(Some(p)),
                        }
                    },
                }
            },
        },
    }
}

/// What entering markets changes: the pending orders and the actions so far; and whether the
/// position limit has ended the search.
pub ghost struct SearchBook {
    pub pending: Seq<(Seq<char>, PendingOrder)>,
    pub actions: Seq<ActionView>,
    pub ended: bool,
}

/// What a price means for one market. `None` is an overflow.
pub open spec fn confirmed_step(
    base: CryptoArbBase,
    b: SearchBook,
    key: Seq<char>,
    m: MarketWithReference,
    price: Decimal,
    books: Seq<(Seq<char>, OrderbookSnapshot)>,
    now: DateTime,
) -> Option<SearchBook> {
    let rt = base.rt;
    let limits = rt.open_limit_orders.rows();
    let reservations = rt.market_reservations.rows();
    if b.ended || exposed_in(rt.positions@, b.pending, limits, reservations, key) {
        Some(b)
    } else if slots_used(rt.positions@, b.pending, limits, reservations)
        >= rt.config.max_positions {
        Some(SearchBook { ended: true, ..b })
    } else {
        match confirmed_plan(base, m, price, books, now) {
            None => None,
            Some(None) => Some(b),
            Some(Some((order, pending))) => Some(
                SearchBook {
                    pending: stored(b.pending, order.token_id@, pending),
                    actions: b.actions.push(ActionView::PlaceOrder(order@)),
                    ..b
                },
            ),
        }
    }
}

/// What a price means for the markets of a coin, one after the other.
pub open spec fn confirmed_path(
    base: CryptoArbBase,
    b: SearchBook,
    rows: Seq<(Seq<char>, MarketWithReference)>,
    coin: Seq<char>,
    price: Decimal,
    books: Seq<(Seq<char>, OrderbookSnapshot)>,
    now: DateTime,
) -> Option<SearchBook>
    decreases rows.len(),
{
    if rows.len() == 0 {
        Some(b)
    } else {
        match confirmed_path(base, b, rows.drop_last(), coin, price, books, now) {
            None => None,
            Some(c) => if rows.last().1.coin@ == coin {
                confirmed_step(base, c, rows.last().0, rows.last().1, price, books, now)
            } else {
                Some(c)
            },
        }
    }
}

proof fn lemma_confirmed_path_overflows(
    base: CryptoArbBase,
    b: SearchBook,
    rows: Seq<(Seq<char>, MarketWithReference)>,
    coin: Seq<char>,
    price: Decimal,
    books: Seq<(Seq<char>, OrderbookSnapshot)>,
    now: DateTime,
    n: int,
)
    requires
        0 <= n <= rows.len(),
        confirmed_path(base, b, rows.take(n), coin, price, books, now) is None,
    ensures
        confirmed_path(base, b, rows, coin, price, books, now) is None,
    decreases rows.len(),
{
    if n < rows.len() {
        assert(rows.drop_last().take(n) =~= rows.take(n));
        lemma_confirmed_path_overflows(base, b, rows.drop_last(), coin, price, books, now, n);
    } else {
        assert(rows.take(n) =~= rows);
    }
}

/// Two states agree but for the pending orders.
pub open spec fn pending_only(a: CryptoArbBase, b: CryptoArbBase) -> bool {
    b == (CryptoArbBase {
        rt: CryptoArbRuntime { pending_orders: b.rt.pending_orders, ..a.rt },
        ..a
    })
}

proof fn lemma_confirmed_plan_env(
    a: CryptoArbBase,
    b: CryptoArbBase,
    m: MarketWithReference,
    price: Decimal,
    books: Seq<(Seq<char>, OrderbookSnapshot)>,
    now: DateTime,
)
    requires
        pending_only(a, b),
    ensures
        confirmed_plan(a, m, price, books, now) == confirmed_plan(b, m, price, books, now),
{
}

/// The search of a state that has just begun.
pub open spec fn search_book(base: CryptoArbBase) -> SearchBook {
    SearchBook { pending: base.rt.pending_orders.rows(), actions: Seq::empty(), ended: false }
}

/// The markets of a coin were searched at a price.
pub open spec fn confirmed_search(
    pre: CryptoArbBase,
    post: CryptoArbBase,
    coin: Seq<char>,
    price: Decimal,
    books: Seq<(Seq<char>, OrderbookSnapshot)>,
    now: DateTime,
    r: Result<Vec<Action>, Overflow>,
) -> bool {
    &&& pending_only(pre, post)
    &&& match confirmed_path(
        pre,
        search_book(pre),
        pre.rt.active_markets.rows(),
        coin,
        price,
        books,
        now,
    ) {
        None => r is Err,
        Some(b) => r is Ok && b.pending == post.rt.pending_orders.rows() && b.actions == acts(
            r->Ok_0@,
        ),
    }
}

/// The steps of handling an external price: it is recorded, then the coin's markets are
/// searched.
pub open spec fn confirmed_price_steps(
    pre: CryptoArbBase,
    post: CryptoArbBase,
    symbol: String,
    price: Decimal,
    source: String,
    data: MarketData,
    now: DateTime,
    quotes: Seq<ChainQuote>,
    r: Result<Vec<Action>, Overflow>,
    recorded: CryptoArbBase,
    spike: Result<Option<Decimal>, Overflow>,
    promoted: Seq<Action>,
    entries: Result<Vec<Action>, Overflow>,
) -> bool {
    &&& base_price_recorded(pre, recorded, symbol, price, source, now, quotes, spike, promoted)
    &&& confirmed_search(recorded, post, symbol@, price, data.orderbooks.rows(), now, entries)
    &&& entries is Err ==> r is Err
    &&& entries is Ok ==> r is Ok && r->Ok_0@ == promoted + entries->Ok_0@
}

/// A price was recorded in the state with the simple stop-loss.
pub open spec fn base_price_recorded(
    pre: CryptoArbBase,
    post: CryptoArbBase,
    symbol: String,
    price: Decimal,
    source: String,
    now: DateTime,
    quotes: Seq<ChainQuote>,
    spike: Result<Option<Decimal>, Overflow>,
    promoted: Seq<Action>,
) -> bool {
    &&& price_recorded_as(
        pre.rt,
        post.rt,
        with_new_price(
            history_of(pre.rt.price_history.rows(), symbol@),
            price_entry(price, source, now, now),
        ),
        symbol,
        price,
        source,
        now,
        quotes,
        spike,
        promoted,
    )
    &&& post == (CryptoArbBase { rt: post.rt, ..pre })
}

/// An external price was handled, step by step.
pub open spec fn confirmed_price_handled(
    pre: CryptoArbBase,
    post: CryptoArbBase,
    symbol: String,
    price: Decimal,
    source: String,
    data: MarketData,
    now: DateTime,
    quotes: Seq<ChainQuote>,
    r: Result<Vec<Action>, Overflow>,
) -> bool {
    exists|
        recorded: CryptoArbBase,
        spike: Result<Option<Decimal>, Overflow>,
        promoted: Seq<Action>,
        entries: Result<Vec<Action>, Overflow>,
    |
        #[trigger] confirmed_price_steps(
            pre,
            post,
            symbol,
            price,
            source,
            data,
            now,
            quotes,
            r,
            recorded,
            spike,
            promoted,
            entries,
        )
}

impl ConfirmedStrategy {
    /// The strategy on a shared state.
    pub fn new(base: CryptoArbBase) -> (r: Self)
        ensures
            r.base == base,
    {
        ConfirmedStrategy { base }
    }

    /// The opportunity that a market offers, if any.
    pub fn judge_opportunity(
        &self,
        m: &MarketWithReference,
        market_id: &MarketId,
        current_price: Decimal,
        books: &Table<OrderbookSnapshot>,
        now: DateTime,
    ) -> (r: Result<Option<ArbitrageOpportunity>, Overflow>)
        ensures
            ok_of(r) == confirmed_opportunity(
                self.base,
                *m,
                *market_id,
                current_price,
                books.rows(),
                now,
            ),
    {
        let config = &self.base.rt.config;
        let left: i64 = m.market.seconds_remaining_at(now);
        if left <= 0 || (config.tailend.enabled && left < to_signed(
            config.tailend.time_threshold_secs,
        )) {
            return Ok(None);
        }
        if self.base.is_mode_disabled(&ArbitrageMode::Confirmed)? {
            return Ok(None);
        }
        let side: OutcomeSide = match m.predict_winner(current_price) {
            None => {
                return Ok(None);
            },
            Some(s) => s,
        };
        let ask: Decimal = match find_ask(&m.market, side, books) {
            None => {
                return Ok(None);
            },
            Some(a) => a,
        };
        let confidence: Decimal = m.get_confidence(current_price, ask, left)?;
        if confidence.lt(config.confirmed.min_confidence) {
            return Ok(None);
        }
        let (gross, fee, net): (Decimal, Decimal, Decimal) = order_margins(
            config.order.hybrid_mode,
            config.fee.taker_fee_rate,
            ask,
        )?;
        let least: Decimal = if left < 300 {
            config.late_window_margin
        } else {
            config.confirmed.min_margin
        };
        if net.lt(least) {
            return Ok(None);
        }
        Ok(
            Some(
                ArbitrageOpportunity {
                    mode: ArbitrageMode::Confirmed,
                    market_id: market_id.clone(),
                    outcome_to_buy: side,
                    token_id: pick_token(&m.market, side),
                    buy_price: ask,
                    confidence,
                    profit_margin: gross,
                    estimated_fee: fee,
                    net_margin: net,
                },
            ),
        )
    }

    /// The opportunity that an active market offers, if any.
    pub fn evaluate_opportunity(
        &self,
        market_id: &MarketId,
        current_price: Decimal,
        books: &Table<OrderbookSnapshot>,
        now: DateTime,
    ) -> (r: Result<Option<ArbitrageOpportunity>, Overflow>)
        ensures
            ok_of(r) == (match lookup(self.base.rt.active_markets.rows(), market_id@) {
                None => Some(None),
                Some(m) => confirmed_opportunity(
                    self.base,
                    m,
                    *market_id,
                    current_price,
                    books.rows(),
                    now,
                ),
            }),
    {
        match self.base.rt.active_markets.get(market_id.as_str()) {
            None => Ok(None),
            Some(m) => self.judge_opportunity(m, market_id, current_price, books, now),
        }
    }

    /// Whether a market is worth a look at a price.
    pub fn should_evaluate(
        &self,
        m: &MarketWithReference,
        price: Decimal,
        books: &Table<OrderbookSnapshot>,
    ) -> (r: Result<bool, Overflow>)
        ensures
            ok_of(r) == moved_enough(self.base, *m, price, books.rows()),
    {
        let mid_a: Option<Decimal> = find_mid(books.get(m.market.token_ids.outcome_a.as_str()))?;
        let mid_b: Option<Decimal> = find_mid(books.get(m.market.token_ids.outcome_b.as_str()))?;
        let mid: Option<Decimal> = match m.predict_winner(price) {
            Some(side) => if side.is_up() {
                mid_a
            } else {
                mid_b
            },
            None => None,
        };
        match mid {
            None => Ok(true),
            Some(p) => {
                let fee: Decimal = checked_taker_fee(p, self.base.rt.config.fee.taker_fee_rate)?;
                let threshold: Decimal = fee.plus(self.base.rt.config.confirmed.min_margin)?;
                let delta: Decimal = price.minus(m.reference_price)?.abs().over(m.reference_price)?;
                Ok(delta.ge(threshold))
            },
        }
    }

    /// What is done about a market: nothing, or an order.
    pub fn plan_order(
        &self,
        m: &MarketWithReference,
        price: Decimal,
        books: &Table<OrderbookSnapshot>,
        now: DateTime,
    ) -> (r: Result<Option<(OrderRequest, PendingOrder)>, Overflow>)
        ensures
            ok_of(r) == confirmed_plan(self.base, *m, price, books.rows(), now),
    {
        if !self.should_evaluate(m, price, books)? {
            return Ok(None);
        }
        let o: ArbitrageOpportunity = match self.judge_opportunity(
            m,
            &m.market.id,
            price,
            books,
            now,
        )? {
            None => {
                return Ok(None);
            },
            Some(o) => o,
        };
        if o.buy_price.is_zero() {
            return Ok(None);
        }
        let sizing: Sizing = match size_order(
            &self.base.rt.config.sizing,
            o.confidence,
            o.buy_price,
        )? {
            None => {
                return Ok(None);
            },
            Some(s) => s,
        };
        if sizing.shares.lt(m.market.min_order_size) {
            return Ok(None);
        }
        let placed: (OrderRequest, PendingOrder) = make_order(
            &self.base.rt.config.order,
            m,
            &o,
            sizing,
        )?;
        Ok(Some(placed))
    }

    /// Searches the markets of a coin at a price. What was done before an overflow stays
    /// done.
    pub fn search_markets(
        &mut self,
        coin: &str,
        price: Decimal,
        books: &Table<OrderbookSnapshot>,
        now: DateTime,
    ) -> (r: Result<Vec<Action>, Overflow>)
        ensures
            confirmed_search(
                old(self).base,
                final(self).base,
                coin@,
                price,
                books.rows(),
                now,
                r,
            ),
    {
        let ghost start = self.base;
        let ghost rows = start.rt.active_markets.rows();
        let mut actions: Vec<Action> = Vec::new();
        let mut ended: bool = false;
        let mut i: usize = 0;
        assert(acts(actions@) =~= Seq::empty());
        while i < self.base.rt.active_markets.len()
            invariant
                i <= rows.len(),
                start == old(self).base,
                rows == start.rt.active_markets.rows(),
                pending_only(start, self.base),
                confirmed_path(
                    start,
                    search_book(start),
                    rows.take(i as int),
                    coin@,
                    price,
                    books.rows(),
                    now,
                ) == Some(
                    SearchBook {
                        pending: self.base.rt.pending_orders.rows(),
                        actions: acts(actions@),
                        ended,
                    },
                ),
            decreases rows.len() - i,
        {
            assert(rows.take(i as int + 1).drop_last() =~= rows.take(i as int));
            let key: MarketId = self.base.rt.active_markets.key_at(i).clone();
            let m: MarketWithReference = self.base.rt.active_markets.value_at(i).clone();
            if same_text(m.coin.as_str(), coin) && !ended && !self.base.rt.has_market_exposure(
                key.as_str(),
            ) {
                if !self.base.rt.can_open_position() {
                    ended = true;
                } else {
                    proof {
                        lemma_confirmed_plan_env(start, self.base, m, price, books.rows(), now);
                    }
                    match self.plan_order(&m, price, books, now) {
                        Err(_) => {
                            proof {
                                lemma_confirmed_path_overflows(
                                    start,
                                    search_book(start),
                                    rows,
                                    coin@,
                                    price,
                                    books.rows(),
                                    now,
                                    i as int + 1,
                                );
                            }
                            return Err(Overflow);
                        },
                        Ok(None) => {},
                        Ok(Some((order, pending))) => {
                            self.base.rt.pending_orders.insert(order.token_id.clone(), pending);
                            let a = Action::PlaceOrder(order);
                            proof {
                                lemma_acts_push(actions@, a);
                            }
                            actions.push(a);
                        },
                    }
                }
            }
            i += 1;
        }
        assert(rows.take(i as int) =~= rows);
        Ok(actions)
    }

    /// Handles an external price: it is recorded, then the coin's markets are searched. What
    /// was done before an overflow stays done.
    pub fn handle_external_price(
        &mut self,
        symbol: &String,
        price: Decimal,
        source: &String,
        data: &MarketData,
        now: DateTime,
        quotes: &Vec<ChainQuote>,
    ) -> (r: Result<Vec<Action>, Overflow>)
        ensures
            confirmed_price_handled(
                old(self).base,
                final(self).base,
                *symbol,
                price,
                *source,
                *data,
                now,
                quotes@,
                r,
            ),
    {
        let (spike, promoted) = self.base.record_price(symbol, price, source, now, quotes);
        let ghost first = promoted@;
        let ghost recorded = self.base;
        let entries: Result<Vec<Action>, Overflow> = self.search_markets(
            symbol.as_str(),
            price,
            &data.orderbooks,
            now,
        );
        let r: Result<Vec<Action>, Overflow> = match entries {
            Err(_) => Err(Overflow),
            Ok(v) => {
                let mut more: Vec<Action> = v;
                let mut result: Vec<Action> = promoted;
                result.append(&mut more);
                Ok(result)
            },
        };
        assert(confirmed_price_steps(
            old(self).base, self.base, *symbol, price, *source, *data, now, quotes@, r, recorded,
            spike, first, entries,
        ));
        r
    }

    /// Takes note of the answer to an order.
    pub fn on_order_placed(&mut self, result: &OrderResult, now: DateTime) -> (r: Result<
        Vec<Action>,
        Overflow,
    >)
        ensures
            r is Ok ==> r->Ok_0@.len() == 0,
            mode_order_placed(
                old(self).base,
                final(self).base,
                ModeClass::Confirmed,
                *result,
                now,
                r is Ok,
            ),
    {
        self.base.note_order_placed(ModeClass::Confirmed, result, now)?;
        Ok(Vec::new())
    }

    /// Takes note of a filled order.
    pub fn on_order_filled(
        &mut self,
        order_id: &OrderId,
        price: Decimal,
        size: Decimal,
        now: DateTime,
    ) -> (r: Vec<Action>)
        ensures
            r@.len() == 0,
            mode_order_filled(
                old(self).base.rt,
                final(self).base.rt,
                ModeClass::Confirmed,
                *order_id,
                price,
                size,
                now,
            ),
            final(self).base == (CryptoArbBase { rt: final(self).base.rt, ..old(self).base }),
    {
        self.base.note_order_filled(ModeClass::Confirmed, order_id, price, size, now);
        Vec::new()
    }
}

/// A market is bought where, open and outside the tail-end window, with the mode not switched off,
/// the outcome that the price points to has an ask, and the confidence and the net margin there are
/// enough; and not otherwise.
pub proof fn a_confident_market_is_bought(
    base: CryptoArbBase,
    m: MarketWithReference,
    market_id: MarketId,
    price: Decimal,
    books: Seq<(Seq<char>, OrderbookSnapshot)>,
    now: DateTime,
    ob: OrderbookSnapshot,
    confidence: Decimal,
)
    requires
        confirmed_opportunity(base, m, market_id, price, books, now) is Some,
        i64::MIN <= secs_between(m.market.end_date, now) <= i64::MAX,
        base.rt.config.tailend.time_threshold_secs <= i64::MAX,
        confirmed_disabled(base) == Some(false),
        value(price) != value(m.reference_price),
        lookup(
            books,
            if value(price) > value(m.reference_price) {
                m.market.token_ids.outcome_a@
            } else {
                m.market.token_ids.outcome_b@
            },
        ) == Some(ob),
        ob.asks@.len() > 0,
        confidence_of(
            m.reference_price,
            m.reference_quality.factor(),
            price,
            ob.asks@[0].price,
            secs_between(m.market.end_date, now) as i64,
        ) == Some(confidence),
        margins_of(
            base.rt.config.order.hybrid_mode,
            base.rt.config.fee.taker_fee_rate,
            ob.asks@[0].price,
        ) is Some,
    ensures
        ({
            let out = confirmed_opportunity(base, m, market_id, price, books, now)->0;
            let config = base.rt.config;
            let left = m.market.end_date.nanos_of() - now.nanos_of();
            let open = left >= 1_000_000_000 && (config.tailend.enabled ==> left
                >= config.tailend.time_threshold_secs * 1_000_000_000);
            let net = (margins_of(
                config.order.hybrid_mode,
                config.fee.taker_fee_rate,
                ob.asks@[0].price,
            )->0).2;
            let floor = if left < 300_000_000_000 {
                config.late_window_margin
            } else {
                config.confirmed.min_margin
            };
            let good = value(confidence) >= value(config.confirmed.min_confidence) && value(net)
                >= value(floor);
            &&& out is Some <==> open && good
            &&& out is Some ==> out->0.buy_price == ob.asks@[0].price && out->0.confidence
                == confidence && out->0.net_margin == net
            &&& out is Some && value(price) > value(m.reference_price) ==> out->0.outcome_to_buy
                == OutcomeSide::Up && out->0.token_id == m.market.token_ids.outcome_a
            &&& out is Some && value(price) < value(m.reference_price) ==> out->0.outcome_to_buy
                == OutcomeSide::Down && out->0.token_id == m.market.token_ids.outcome_b
        }),
{
    let config = base.rt.config;
    comparing_compares_values(m.reference_price, price);
    comparing_compares_values(price, m.reference_price);
    comparing_compares_values(confidence, config.confirmed.min_confidence);
    let net = (margins_of(
        config.order.hybrid_mode,
        config.fee.taker_fee_rate,
        ob.asks@[0].price,
    )->0).2;
    comparing_compares_values(net, config.late_window_margin);
    comparing_compares_values(net, config.confirmed.min_margin);
}

/// A market is looked at where the price has moved from the reference by at least the fee at the
/// middle of the predicted side's book plus the least margin, as a share of the reference. The 28th
/// digit is left to rounding.
pub proof fn a_market_is_looked_at_after_a_move(
    base: CryptoArbBase,
    m: MarketWithReference,
    price: Decimal,
    books: Seq<(Seq<char>, OrderbookSnapshot)>,
    middle: Decimal,
    fee: Decimal,
)
    requires
        value(m.reference_price) > 0 as real,
        value(price) != value(m.reference_price),
        moved_enough(base, m, price, books) is Some,
        mid_of(
            lookup(
                books,
                if value(price) > value(m.reference_price) {
                    m.market.token_ids.outcome_a@
                } else {
                    m.market.token_ids.outcome_b@
                },
            ),
        ) == Some(Some(middle)),
        taker_fee_of(middle, base.rt.config.fee.taker_fee_rate) == Some(fee),
        sum_is_exact(fee, base.rt.config.confirmed.min_margin),
        difference_is_exact(price, m.reference_price),
    ensures
        ({
            let looked = moved_enough(base, m, price, books)->0;
            let share = value(fee) + value(base.rt.config.confirmed.min_margin);
            let (p, r) = (value(price), value(m.reference_price));
            &&& looked ==> abs_of(p - r) >= r * (share - slack(share))
            &&& abs_of(p - r) >= r * (share + slack(share)) ==> looked
        }),
{
    comparing_compares_values(m.reference_price, price);
    comparing_compares_values(price, m.reference_price);
    sums_add_up(fee, base.rt.config.confirmed.min_margin);
    differences_add_up(price, m.reference_price);
    let d = difference_of(price, m.reference_price)->0;
    negating_negates(d);
    if wick_of(price, m.reference_price) is Some {
        quotients_compare(
            magnitude(d),
            m.reference_price,
            sum_of(fee, base.rt.config.confirmed.min_margin)->0,
        );
    }
}

/// A market that has moved and is worth a trade gets one order, where nothing is held or asked for
/// in it, a slot is left, and the shares are at least the least order; it is remembered as pending.
pub proof fn a_confirmed_market_gets_one_order(
    base: CryptoArbBase,
    b: SearchBook,
    key: Seq<char>,
    m: MarketWithReference,
    price: Decimal,
    books: Seq<(Seq<char>, OrderbookSnapshot)>,
    now: DateTime,
    o: ArbitrageOpportunity,
    s: Sizing,
    order_type: OrderType,
    limit: Decimal,
)
    requires
        !b.ended,
        moved_enough(base, m, price, books) == Some(true),
        confirmed_opportunity(base, m, m.market.id, price, books, now) == Some(Some(o)),
        value(o.buy_price) != 0 as real,
        sizing_of(base.rt.config.sizing, o.confidence, o.buy_price) == Some(Some(s)),
        value(s.shares) >= value(m.market.min_order_size),
        pricing_of(base.rt.config.order, o.buy_price) == Some((order_type, limit)),
    ensures
        ({
            let rt = base.rt;
            let limits = rt.open_limit_orders.rows();
            let held = rt.market_reservations.rows();
            let exposed = exposed_in(rt.positions@, b.pending, limits, held, key);
            let room = slots_used(rt.positions@, b.pending, limits, held) < rt.config.max_positions;
            let c = confirmed_step(base, b, key, m, price, books, now);
            let last = c->0.actions.last();
            let pending = lookup(c->0.pending, o.token_id@);
            &&& c is Some
            &&& exposed ==> c->0 == b
            &&& !exposed && !room ==> c->0 == (SearchBook { ended: true, ..b })
            &&& !exposed && room ==> c->0.actions.len() == b.actions.len() + 1 && last is PlaceOrder
                && last->PlaceOrder_0.token == o.token_id@ && last->PlaceOrder_0.price == limit
                && last->PlaceOrder_0.size == s.shares && last->PlaceOrder_0.side == OrderSide::Buy
                && last->PlaceOrder_0.order_type == order_type && pending is Some
                && pending->0.price == limit && pending->0.size == s.shares && !c->0.ended
        }),
{
    signs_agree(o.buy_price);
    comparing_compares_values(s.shares, m.market.min_order_size);
    lemma_lookup_stored(
        b.pending,
        o.token_id@,
        (placed_of(base.rt.config.order, m, o, s)->0).1,
        o.token_id@,
    );
}

/// A market that has not moved, is not worth a trade, or whose shares are fewer than the least
/// order, gets no order.
pub proof fn an_unconfirmed_market_gets_no_order(
    base: CryptoArbBase,
    b: SearchBook,
    key: Seq<char>,
    m: MarketWithReference,
    price: Decimal,
    books: Seq<(Seq<char>, OrderbookSnapshot)>,
    now: DateTime,
)
    requires
        confirmed_step(base, b, key, m, price, books, now) is Some,
        ({
            let o = confirmed_opportunity(base, m, m.market.id, price, books, now);
            let s = sizing_of(base.rt.config.sizing, (o->0)->0.confidence, (o->0)->0.buy_price);
            ||| moved_enough(base, m, price, books) == Some(false)
            ||| o == Some(None::<ArbitrageOpportunity>)
            ||| o is Some && o->0 is Some && s is Some && s->0 is Some && value((s->0)->0.shares)
                < value(m.market.min_order_size)
        }),
    ensures
        confirmed_step(base, b, key, m, price, books, now)->0.actions == b.actions,
        confirmed_step(base, b, key, m, price, books, now)->0.pending == b.pending,
{
    let o = confirmed_opportunity(base, m, m.market.id, price, books, now);
    let s = sizing_of(base.rt.config.sizing, (o->0)->0.confidence, (o->0)->0.buy_price);
    comparing_compares_values((s->0)->0.shares, m.market.min_order_size);
}

/// A price concerns the markets of its coin, and no others.
pub proof fn a_price_concerns_its_own_markets(
    base: CryptoArbBase,
    b: SearchBook,
    rows: Seq<(Seq<char>, MarketWithReference)>,
    key: Seq<char>,
    m: MarketWithReference,
    coin: Seq<char>,
    price: Decimal,
    books: Seq<(Seq<char>, OrderbookSnapshot)>,
    now: DateTime,
    c: SearchBook,
)
    requires
        confirmed_path(base, b, rows, coin, price, books, now) == Some(c),
    ensures
        m.coin@ != coin ==> confirmed_path(
            base,
            b,
            rows.push((key, m)),
            coin,
            price,
            books,
            now,
        ) == Some(c),
        m.coin@ == coin ==> confirmed_path(base, b, rows.push((key, m)), coin, price, books, now)
            == confirmed_step(base, c, key, m, price, books, now),
{
    assert(rows.push((key, m)).drop_last() =~= rows);
}

} // verus!
