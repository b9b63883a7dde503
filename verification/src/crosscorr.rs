//! Cross-correlated strategy: a spike of a leading coin is traded on the coins that follow it.
use crate::base::{CryptoArbBase, mode_disabled_of};
use crate::config::CorrelationPair;
use crate::confirmed::{ask_on, base_price_recorded, find_ask, pending_only, pick_token};
use crate::decimal::{
    Decimal, Overflow, at_most, dec, is_decimal, less, magnitude, ok_of, one, smaller, times, zero,
};
use crate::domain::market::MarketWithReference;
use crate::domain::position::{ArbitrageMode, ArbitrageOpportunity, PendingOrder};
use crate::domain::telemetry::SpikeEvent;
use crate::exchange::{
    Action, ActionView, ChainQuote, MarketData, OrderId, OrderRequest, OrderResult, OrderSide,
    OrderType, OrderView, OrderbookSnapshot, OutcomeSide, acts, lemma_acts_push,
};
use crate::mode_orders::{ModeClass, mode_order_filled, mode_order_placed};
use crate::runtime::{CryptoArbRuntime, signed, to_signed};
use crate::services::pricing::{find_price_before, latest, price_before};
use crate::sizing::{
    Sizing, make_order, margins_of, order_margins, placed_of, price_order, pricing_of, size_order,
    sizing_of,
};
use crate::table::{Table, lemma_lookup_stored, lookup, stored};
use crate::tailend::entry::token_for;
use crate::text::same_text;
use crate::time::{DateTime, secs_between, shifted};
use crate::value::{
    abs_of, comparing_compares_values, min_of, negating_negates, picking_picks_values,
    product_is_exact, products_multiply, signs_agree, value, value_of_hundredths,
};
use vstd::prelude::*;

verus! {

/// The cross-correlated strategy.
#[derive(Debug)]
pub struct CrossCorrStrategy {
    pub base: CryptoArbBase,
}

/// The coins that follow a leader, over all pairs with that leader.
pub open spec fn followers_of(pairs: Seq<CorrelationPair>, leader: Seq<char>) -> Seq<String>
    decreases pairs.len(),
{
    if pairs.len() == 0 {
        Seq::empty()
    } else if pairs.last().leader@ == leader {
        followers_of(pairs.drop_last(), leader) + pairs.last().followers@
    } else {
        followers_of(pairs.drop_last(), leader)
    }
}

/// An opportunity on a follower, with its size.
#[derive(Debug)]
pub struct SizedOpportunity {
    pub opportunity: ArbitrageOpportunity,
    pub sizing: Sizing,
}

/// What a follower's market comes to.
#[derive(Debug)]
pub enum FollowerOutcome {
    /// Nothing to be done.
    Skip,
    /// No position can be opened: the other markets of the coin are not looked at.
    Stop,
    /// Worth a trade.
    Take(SizedOpportunity),
}

/// The side on which followers are bought.
pub open spec fn follower_side(change: Decimal) -> OutcomeSide {
    if less(zero(), change) {
        OutcomeSide::Up
    } else {
        OutcomeSide::Down
    }
}

/// What a follower's market comes to: it has not moved yet (its ask lies in [0.40, 0.60]),
/// its margin is enough, and a position can be opened. `None` is an overflow.
pub open spec fn follower_outcome(
    base: CryptoArbBase,
    key: Seq<char>,
    m: MarketWithReference,
    leader: String,
    change: Decimal,
    confidence: Decimal,
    books: Seq<(Seq<char>, OrderbookSnapshot)>,
    now: DateTime,
) -> Option<FollowerOutcome> {
    let config = base.rt.config;
    let side = follower_side(change);
    if base.rt.exposed(key) || secs_between(m.market.end_date, now) <= 0 {
        Some(FollowerOutcome::Skip)
    } else {
        match ask_on(m.market, side, books) {
            None => Some(FollowerOutcome::Skip),
            Some(ask) => if less(dec(60, 2), ask) || less(ask, dec(40, 2)) {
                Some(FollowerOutcome::Skip)
            } else {
                match margins_of(config.order.hybrid_mode, config.fee.taker_fee_rate, ask) {
                    None => None,
                    Some((gross, fee, net)) => if less(net, config.min_profit_margin) {
                        Some(FollowerOutcome::Skip)
                    } else if base.rt.used_slots() >= config.max_positions {
                        Some(FollowerOutcome::Stop)
                    } else {
                        match sizing_of(config.sizing, confidence, ask) {
                            None => None,
                            Some(None) => Some(FollowerOutcome::Skip),
                            Some(Some(sizing)) => Some(
                                FollowerOutcome::Take(
                                    SizedOpportunity {
                                        opportunity: ArbitrageOpportunity {
                                            mode: ArbitrageMode::CrossCorrelated { leader },
                                            market_id: m.market.id,
                                            outcome_to_buy: side,
                                            token_id: token_for(m.market, side),
                                            buy_price: ask,
                                            confidence,
                                            profit_margin: gross,
                                            estimated_fee: fee,
                                            net_margin: net,
                                        },
                                        sizing,
                                    },
                                ),
                            ),
                        }
                    },
                }
            },
        }
    }
}

/// A follower is bought only while it has not moved, on the side that its leader took, and
/// with a sufficient net margin.
pub proof fn followers_have_not_moved(
    base: CryptoArbBase,
    key: Seq<char>,
    m: MarketWithReference,
    leader: String,
    change: Decimal,
    confidence: Decimal,
    books: Seq<(Seq<char>, OrderbookSnapshot)>,
    now: DateTime,
)
    requires
        follower_outcome(base, key, m, leader, change, confidence, books, now) is Some,
        follower_outcome(base, key, m, leader, change, confidence, books, now)->0 is Take,
    ensures
        ({
            let o = (follower_outcome(
                base,
                key,
                m,
                leader,
                change,
                confidence,
                books,
                now,
            )->0)->Take_0.opportunity;
            &&& at_most(dec(40, 2), o.buy_price) && at_most(o.buy_price, dec(60, 2))
            &&& at_most(base.rt.config.min_profit_margin, o.net_margin)
            &&& o.outcome_to_buy == follower_side(change)
            &&& o.confidence == confidence
            &&& !base.rt.exposed(key) && base.rt.used_slots() < base.rt.config.max_positions
        }),
{
}

/// The opportunities on a follower's markets, in order, and whether the search was stopped.
/// `None` is an overflow.
pub open spec fn follower_path(
    base: CryptoArbBase,
    rows: Seq<(Seq<char>, MarketWithReference)>,
    follower: Seq<char>,
    leader: String,
    change: Decimal,
    confidence: Decimal,
    books: Seq<(Seq<char>, OrderbookSnapshot)>,
    now: DateTime,
) -> Option<(Seq<SizedOpportunity>, bool)>
    decreases rows.len(),
{
    if rows.len() == 0 {
        Some((Seq::empty(), false))
    } else {
        match follower_path(
            base,
            rows.drop_last(),
            follower,
            leader,
            change,
            confidence,
            books,
            now,
        ) {
            None => None,
            Some((found, stopped)) => if stopped || rows.last().1.coin@ != follower {
                Some((found, stopped))
            } else {
                match follower_outcome(
                    base,
                    rows.last().0,
                    rows.last().1,
                    leader,
                    change,
                    confidence,
                    books,
                    now,
                ) {
                    None => None,
                    Some(FollowerOutcome::Skip) => Some((found, false)),
                    Some(FollowerOutcome::Stop) => Some((found, true)),
                    Some(FollowerOutcome::Take(o)) => Some((found.push(o), false)),
                }
            },
        }
    }
}

proof fn lemma_follower_path_overflows(
    base: CryptoArbBase,
    rows: Seq<(Seq<char>, MarketWithReference)>,
    follower: Seq<char>,
    leader: String,
    change: Decimal,
    confidence: Decimal,
    books: Seq<(Seq<char>, OrderbookSnapshot)>,
    now: DateTime,
    n: int,
)
    requires
        0 <= n <= rows.len(),
        follower_path(base, rows.take(n), follower, leader, change, confidence, books, now) is None,
    ensures
        follower_path(base, rows, follower, leader, change, confidence, books, now) is None,
    decreases rows.len(),
{
    if n < rows.len() {
        assert(rows.drop_last().take(n) =~= rows.take(n));
        lemma_follower_path_overflows(
            base,
            rows.drop_last(),
            follower,
            leader,
            change,
            confidence,
            books,
            now,
            n,
        );
    } else {
        assert(rows.take(n) =~= rows);
    }
}

/// The opportunities on followers, one coin after the other. `None` is an overflow.
pub open spec fn followers_path(
    base: CryptoArbBase,
    followers: Seq<String>,
    leader: String,
    change: Decimal,
    confidence: Decimal,
    books: Seq<(Seq<char>, OrderbookSnapshot)>,
    now: DateTime,
) -> Option<Seq<SizedOpportunity>>
    decreases followers.len(),
{
    if followers.len() == 0 {
        Some(Seq::empty())
    } else {
        match (
            followers_path(base, followers.drop_last(), leader, change, confidence, books, now),
            follower_path(
                base,
                base.rt.active_markets.rows(),
                followers.last()@,
                leader,
                change,
                confidence,
                books,
                now,
            ),
        ) {
            (Some(a), Some((b, _))) => Some(a + b),
            _ => None,
        }
    }
}

proof fn lemma_followers_path_overflows(
    base: CryptoArbBase,
    followers: Seq<String>,
    leader: String,
    change: Decimal,
    confidence: Decimal,
    books: Seq<(Seq<char>, OrderbookSnapshot)>,
    now: DateTime,
    n: int,
)
    requires
        0 <= n <= followers.len(),
        followers_path(base, followers.take(n), leader, change, confidence, books, now) is None,
    ensures
        followers_path(base, followers, leader, change, confidence, books, now) is None,
    decreases followers.len(),
{
    if n < followers.len() {
        assert(followers.drop_last().take(n) =~= followers.take(n));
        lemma_followers_path_overflows(
            base,
            followers.drop_last(),
            leader,
            change,
            confidence,
            books,
            now,
            n,
        );
    } else {
        assert(followers.take(n) =~= followers);
    }
}

/// The confidence in followers: the size of the leader's move, at most 1, times the discount.
/// `None` is an overflow.
pub open spec fn follower_confidence_of(change: Decimal, discount: Decimal) -> Option<Decimal> {
    times(Some(smaller(magnitude(change), one())), Some(discount))
}

/// The opportunities that a leader's move makes: none without followers, below a confidence
/// of 0.50, or when the mode is switched off. `None` is an overflow.
pub open spec fn opportunities_of(
    base: CryptoArbBase,
    leader: String,
    change: Decimal,
    books: Seq<(Seq<char>, OrderbookSnapshot)>,
    now: DateTime,
) -> Option<Seq<SizedOpportunity>> {
    let followers = followers_of(base.rt.config.correlation.pairs@, leader@);
    if followers.len() == 0 {
        Some(Seq::empty())
    } else {
        match follower_confidence_of(change, base.rt.config.correlation.discount_factor) {
            None => None,
            Some(confidence) => if less(confidence, dec(50, 2)) {
                Some(Seq::empty())
            } else {
                match mode_disabled_of(
                    lookup(base.mode_stats.rows(), "CrossCorrelated"@),
                    base.rt.config.performance,
                ) {
                    None => None,
                    Some(true) => Some(Seq::empty()),
                    Some(false) => followers_path(
                        base,
                        followers,
                        leader,
                        change,
                        confidence,
                        books,
                        now,
                    ),
                }
            },
        }
    }
}

/// What placing the orders of opportunities changes.
pub ghost struct OrderBookkeeping {
    pub pending: Seq<(Seq<char>, PendingOrder)>,
    pub actions: Seq<ActionView>,
}

/// The orders of opportunities, one after the other; one whose market is gone is placed
/// without a record. `None` is an overflow.
pub open spec fn orders_of(
    rt: CryptoArbRuntime,
    b: OrderBookkeeping,
    list: Seq<SizedOpportunity>,
) -> Option<OrderBookkeeping>
    decreases list.len(),
{
    if list.len() == 0 {
        Some(b)
    } else {
        let o = list.last().opportunity;
        let sizing = list.last().sizing;
        match (orders_of(rt, b, list.drop_last()), pricing_of(rt.config.order, o.buy_price)) {
            (Some(c), Some((order_type, price))) => Some(
                OrderBookkeeping {
                    pending: match lookup(rt.active_markets.rows(), o.market_id@) {
                        Some(m) => stored(
                            c.pending,
                            o.token_id@,
                            (placed_of(rt.config.order, m, o, sizing)->0).1,
                        ),
                        None => c.pending,
                    },
                    actions: c.actions.push(
                        ActionView::PlaceOrder(
                            OrderView {
                                token: o.token_id@,
                                price,
                                size: sizing.shares,
                                side: OrderSide::Buy,
                                order_type,
                                neg_risk: false,
                                tick_size: None,
                                fee_rate_bps: None,
                                post_only: false,
                            },
                        ),
                    ),
                },
            ),
            _ => None,
        }
    }
}

proof fn lemma_orders_overflow(
    rt: CryptoArbRuntime,
    b: OrderBookkeeping,
    list: Seq<SizedOpportunity>,
    n: int,
)
    requires
        0 <= n <= list.len(),
        orders_of(rt, b, list.take(n)) is None,
    ensures
        orders_of(rt, b, list) is None,
    decreases list.len(),
{
    if n < list.len() {
        assert(list.drop_last().take(n) =~= list.take(n));
        lemma_orders_overflow(rt, b, list.drop_last(), n);
    } else {
        assert(list.take(n) =~= list);
    }
}

/// A price before the spike window, or the price itself. `None` is an overflow.
pub open spec fn spike_origin(rt: CryptoArbRuntime, symbol: Seq<char>, price: Decimal, now: DateTime) -> Option<
    Decimal,
> {
    match lookup(rt.price_history.rows(), symbol) {
        None => Some(price),
        Some(s) => match shifted(now, -signed(rt.config.spike.window_secs)) {
            None => None,
            Some(cutoff) => match price_before(s, cutoff) {
                Some(p) => Some(p),
                None => Some(price),
            },
        },
    }
}

/// A spike is large enough, and its coin leads others.
pub open spec fn leads_now(rt: CryptoArbRuntime, symbol: Seq<char>, spike: Option<Decimal>) -> bool {
    &&& spike is Some
    &&& at_most(rt.config.correlation.min_spike_pct, magnitude(spike->0))
    &&& followers_of(rt.config.correlation.pairs@, symbol).len() > 0
}

/// A spike of a leading coin was traded: it is recorded, and the followers are bought.
pub open spec fn spike_traded(
    pre: CryptoArbBase,
    post: CryptoArbBase,
    symbol: String,
    price: Decimal,
    change: Decimal,
    books: Seq<(Seq<char>, OrderbookSnapshot)>,
    now: DateTime,
    r: Result<Vec<Action>, Overflow>,
) -> bool {
    match spike_origin(pre.rt, symbol@, price, now) {
        None => r is Err && post == pre,
        Some(origin) => {
            let event = SpikeEvent {
                coin: symbol,
                timestamp: now,
                change_pct: change,
                from_price: origin,
                to_price: price,
                acted: true,
            };
            let traded = match opportunities_of(pre, symbol, change, books, now) {
                Some(list) => orders_of(
                    pre.rt,
                    OrderBookkeeping {
                        pending: pre.rt.pending_orders.rows(),
                        actions: Seq::empty(),
                    },
                    list,
                ),
                None => None,
            };
            &&& post.rt.spike_events@ == latest(
                pre.rt.spike_events@.push(event),
                pre.rt.config.spike.history_size as int,
            )
            &&& match traded {
                None => r is Err,
                Some(b) => r is Ok && b.pending == post.rt.pending_orders.rows() && b.actions
                    == acts(r->Ok_0@),
            }
            &&& post == (CryptoArbBase {
                rt: CryptoArbRuntime {
                    spike_events: post.rt.spike_events,
                    pending_orders: post.rt.pending_orders,
                    ..pre.rt
                },
                ..pre
            })
        },
    }
}

/// The steps of handling an external price: it is recorded, and a spike of a leading coin is
/// traded.
pub open spec fn crosscorr_price_steps(
    pre: CryptoArbBase,
    post: CryptoArbBase,
    symbol: String,
    price: Decimal,
    source: String,
    data: MarketData,
    now: DateTime,
    quotes: Seq<ChainQuote>,
    r: Result<(Vec<Action>, bool), Overflow>,
    recorded: CryptoArbBase,
    spike: Result<Option<Decimal>, Overflow>,
    promoted: Seq<Action>,
    trades: Result<Vec<Action>, Overflow>,
) -> bool {
    &&& base_price_recorded(pre, recorded, symbol, price, source, now, quotes, spike, promoted)
    &&& match spike {
        Err(_) => r is Err && post == recorded,
        Ok(change) => if !leads_now(recorded.rt, symbol@, change) {
            r is Ok && r->Ok_0.0@ == promoted && !r->Ok_0.1 && post == recorded
        } else {
            &&& spike_traded(
                recorded,
                post,
                symbol,
                price,
                change->0,
                data.orderbooks.rows(),
                now,
                trades,
            )
            &&& trades is Err ==> r is Err
            &&& trades is Ok ==> r is Ok && r->Ok_0.0@ == promoted + trades->Ok_0@ && r->Ok_0.1
        },
    }
}

/// An external price was handled, step by step.
pub open spec fn crosscorr_price_handled(
    pre: CryptoArbBase,
    post: CryptoArbBase,
    symbol: String,
    price: Decimal,
    source: String,
    data: MarketData,
    now: DateTime,
    quotes: Seq<ChainQuote>,
    r: Result<(Vec<Action>, bool), Overflow>,
) -> bool {
    exists|
        recorded: CryptoArbBase,
        spike: Result<Option<Decimal>, Overflow>,
        promoted: Seq<Action>,
        trades: Result<Vec<Action>, Overflow>,
    |
        #[trigger] crosscorr_price_steps(
            pre,
            post,
            symbol,
            price,
            source,
            data,
            now,
            quotes,
            r,
            recorded,
            spike,
            promoted,
            trades,
        )
}

impl CrossCorrStrategy {
    /// The strategy on a shared state.
    pub fn new(base: CryptoArbBase) -> (r: Self)
        ensures
            r.base == base,
    {
        CrossCorrStrategy { base }
    }

    /// The coins that follow a leader.
    pub fn get_followers(&self, leader: &str) -> (r: Vec<String>)
        ensures
            r@ == followers_of(self.base.rt.config.correlation.pairs@, leader@),
    {
        let pairs = &self.base.rt.config.correlation.pairs;
        let mut r: Vec<String> = Vec::new();
        let mut i: usize = 0;
        assert(r@ =~= Seq::empty());
        while i < pairs.len()
            invariant
                i <= pairs@.len(),
                r@ == followers_of(pairs@.take(i as int), leader@),
            decreases pairs@.len() - i,
        {
            assert(pairs@.take(i as int + 1).drop_last() =~= pairs@.take(i as int));
            if same_text(pairs[i].leader.as_str(), leader) {
                let ghost before = r@;
                let list = &pairs[i].followers;
                let mut j: usize = 0;
                while j < list.len()
                    invariant
                        j <= list@.len(),
                        r@ =~= before + list@.take(j as int),
                    decreases list@.len() - j,
                {
                    r.push(list[j].clone());
                    j += 1;
                }
                assert(list@.take(j as int) =~= list@);
            }
            i += 1;
        }
        assert(pairs@.take(i as int) =~= pairs@);
        r
    }

    /// What a follower's market comes to.
    pub fn judge_follower(
        &self,
        key: &str,
        m: &MarketWithReference,
        leader: &String,
        change: Decimal,
        confidence: Decimal,
        books: &Table<OrderbookSnapshot>,
        now: DateTime,
    ) -> (r: Result<FollowerOutcome, Overflow>)
        ensures
            ok_of(r) == follower_outcome(
                self.base,
                key@,
                *m,
                *leader,
                change,
                confidence,
                books.rows(),
                now,
            ),
    {
        let config = &self.base.rt.config;
        if self.base.rt.has_market_exposure(key) || m.market.seconds_remaining_at(now) <= 0 {
            return Ok(FollowerOutcome::Skip);
        }
        let side: OutcomeSide = if change.gt(Decimal::zero()) {
            OutcomeSide::Up
        } else {
            OutcomeSide::Down
        };
        let ask: Decimal = match find_ask(&m.market, side, books) {
            None => {
                return Ok(FollowerOutcome::Skip);
            },
            Some(a) => a,
        };
        if ask.gt(Decimal::new(60, 2)) || ask.lt(Decimal::new(40, 2)) {
            return Ok(FollowerOutcome::Skip);
        }
        let (gross, fee, net): (Decimal, Decimal, Decimal) = order_margins(
            config.order.hybrid_mode,
            config.fee.taker_fee_rate,
            ask,
        )?;
        if net.lt(config.min_profit_margin) {
            return Ok(FollowerOutcome::Skip);
        }
        if !self.base.rt.can_open_position() {
            return Ok(FollowerOutcome::Stop);
        }
        match size_order(&config.sizing, confidence, ask)? {
            None => Ok(FollowerOutcome::Skip),
            Some(sizing) => Ok(
                FollowerOutcome::Take(
                    SizedOpportunity {
                        opportunity: ArbitrageOpportunity {
                            mode: ArbitrageMode::CrossCorrelated { leader: leader.clone() },
                            market_id: m.market.id.clone(),
                            outcome_to_buy: side,
                            token_id: pick_token(&m.market, side),
                            buy_price: ask,
                            confidence,
                            profit_margin: gross,
                            estimated_fee: fee,
                            net_margin: net,
                        },
                        sizing,
                    },
                ),
            ),
        }
    }

    /// The opportunities on one follower.
    fn search_follower(
        &self,
        follower: &str,
        leader: &String,
        change: Decimal,
        confidence: Decimal,
        books: &Table<OrderbookSnapshot>,
        now: DateTime,
    ) -> (r: Result<Vec<SizedOpportunity>, Overflow>)
        ensures
            match follower_path(
                self.base,
                self.base.rt.active_markets.rows(),
                follower@,
                *leader,
                change,
                confidence,
                books.rows(),
                now,
            ) {
                None => r is Err,
                Some((found, _)) => r is Ok && r->Ok_0@ == found,
            },
    {
        let ghost rows = self.base.rt.active_markets.rows();
        let mut found: Vec<SizedOpportunity> = Vec::new();
        let mut stopped: bool = false;
        let mut i: usize = 0;
        assert(found@ =~= Seq::empty());
        while i < self.base.rt.active_markets.len()
            invariant
                i <= rows.len(),
                rows == self.base.rt.active_markets.rows(),
                follower_path(
                    self.base,
                    rows.take(i as int),
                    follower@,
                    *leader,
                    change,
                    confidence,
                    books.rows(),
                    now,
                ) == Some((found@, stopped)),
            decreases rows.len() - i,
        {
            assert(rows.take(i as int + 1).drop_last() =~= rows.take(i as int));
            let m = self.base.rt.active_markets.value_at(i);
            if !stopped && same_text(m.coin.as_str(), follower) {
                match self.judge_follower(
                    self.base.rt.active_markets.key_at(i).as_str(),
                    m,
                    leader,
                    change,
                    confidence,
                    books,
                    now,
                ) {
                    Err(_) => {
                        proof {
                            lemma_follower_path_overflows(
                                self.base,
                                rows,
                                follower@,
                                *leader,
                                change,
                                confidence,
                                books.rows(),
                                now,
                                i as int + 1,
                            );
                        }
                        return Err(Overflow);
                    },
                    Ok(FollowerOutcome::Skip) => {},
                    Ok(FollowerOutcome::Stop) => {
                        stopped = true;
                    },
                    Ok(FollowerOutcome::Take(o)) => {
                        found.push(o);
                    },
                }
            }
            i += 1;
        }
        assert(rows.take(i as int) =~= rows);
        Ok(found)
    }

    /// The opportunities that a leader's move makes on its followers.
    pub fn generate_opportunities(
        &self,
        leader_coin: &String,
        leader_change_pct: Decimal,
        books: &Table<OrderbookSnapshot>,
        now: DateTime,
    ) -> (r: Result<Vec<SizedOpportunity>, Overflow>)
        ensures
            match opportunities_of(
                self.base,
                *leader_coin,
                leader_change_pct,
                books.rows(),
                now,
            ) {
                None => r is Err,
                Some(list) => r is Ok && r->Ok_0@ == list,
            },
    {
        let mut all: Vec<SizedOpportunity> = Vec::new();
        assert(all@ =~= Seq::empty());
        let followers: Vec<String> = self.get_followers(leader_coin.as_str());
        if followers.len() == 0 {
            return Ok(all);
        }
        let confidence: Decimal = leader_change_pct.abs().min(Decimal::one()).times(
            self.base.rt.config.correlation.discount_factor,
        )?;
        if confidence.lt(Decimal::new(50, 2)) {
            return Ok(all);
        }
        if self.base.is_mode_disabled(
            &ArbitrageMode::CrossCorrelated { leader: leader_coin.clone() },
        )? {
            return Ok(all);
        }
        let mut i: usize = 0;
        while i < followers.len()
            invariant
                i <= followers@.len(),
                followers@ == followers_of(self.base.rt.config.correlation.pairs@, leader_coin@),
                followers@.len() > 0,
                follower_confidence_of(
                    leader_change_pct,
                    self.base.rt.config.correlation.discount_factor,
                ) == Some(confidence),
                !less(confidence, dec(50, 2)),
                mode_disabled_of(
                    lookup(self.base.mode_stats.rows(), "CrossCorrelated"@),
                    self.base.rt.config.performance,
                ) == Some(false),
                followers_path(
                    self.base,
                    followers@.take(i as int),
                    *leader_coin,
                    leader_change_pct,
                    confidence,
                    books.rows(),
                    now,
                ) == Some(all@),
            decreases followers@.len() - i,
        {
            assert(followers@.take(i as int + 1).drop_last() =~= followers@.take(i as int));
            match self.search_follower(
                followers[i].as_str(),
                leader_coin,
                leader_change_pct,
                confidence,
                books,
                now,
            ) {
                Err(_) => {
                    proof {
                        lemma_followers_path_overflows(
                            self.base,
                            followers@,
                            *leader_coin,
                            leader_change_pct,
                            confidence,
                            books.rows(),
                            now,
                            i as int + 1,
                        );
                    }
                    return Err(Overflow);
                },
                Ok(v) => {
                    let mut more: Vec<SizedOpportunity> = v;
                    all.append(&mut more);
                },
            }
            i += 1;
        }
        assert(followers@.take(i as int) =~= followers@);
        Ok(all)
    }

    /// Places the orders of opportunities. What was done before an overflow stays done.
    pub fn place_orders(&mut self, list: &Vec<SizedOpportunity>) -> (r: Result<
        Vec<Action>,
        Overflow,
    >)
        ensures
            match orders_of(
                old(self).base.rt,
                OrderBookkeeping {
                    pending: old(self).base.rt.pending_orders.rows(),
                    actions: Seq::empty(),
                },
                list@,
            ) {
                None => r is Err,
                Some(b) => r is Ok && b.pending == final(self).base.rt.pending_orders.rows()
                    && b.actions == acts(r->Ok_0@),
            },
            pending_only(old(self).base, final(self).base),
    {
        let ghost rt = self.base.rt;
        let ghost start = OrderBookkeeping {
            pending: rt.pending_orders.rows(),
            actions: Seq::empty(),
        };
        let mut actions: Vec<Action> = Vec::new();
        let mut i: usize = 0;
        assert(acts(actions@) =~= Seq::empty());
        while i < list.len()
            invariant
                i <= list@.len(),
                rt == old(self).base.rt,
                start == (OrderBookkeeping {
                    pending: rt.pending_orders.rows(),
                    actions: Seq::empty(),
                }),
                pending_only(old(self).base, self.base),
                orders_of(rt, start, list@.take(i as int)) == Some(
                    OrderBookkeeping {
                        pending: self.base.rt.pending_orders.rows(),
                        actions: acts(actions@),
                    },
                ),
            decreases list@.len() - i,
        {
            assert(list@.take(i as int + 1).drop_last() =~= list@.take(i as int));
            let o = &list[i].opportunity;
            let sizing: Sizing = list[i].sizing;
            let priced: Result<(OrderType, Decimal), Overflow> = price_order(
                &self.base.rt.config.order,
                o.buy_price,
            );
            let (order_type, price): (OrderType, Decimal) = match priced {
                Ok(p) => p,
                Err(_) => {
                    proof {
                        lemma_orders_overflow(rt, start, list@, i as int + 1);
                    }
                    return Err(Overflow);
                },
            };
            let pending: Option<PendingOrder> = match self.base.rt.active_markets.get(
                o.market_id.as_str(),
            ) {
                None => None,
                Some(m) => match make_order(&self.base.rt.config.order, m, o, sizing) {
                    Ok((_, p)) => Some(p),
                    Err(_) => None,
                },
            };
            match pending {
                Some(p) => {
                    self.base.rt.pending_orders.insert(o.token_id.clone(), p);
                },
                None => {},
            }
            let a = Action::PlaceOrder(
                OrderRequest::new(
                    o.token_id.clone(),
                    price,
                    sizing.shares,
                    OrderSide::Buy,
                    order_type,
                    false,
                ),
            );
            proof {
                lemma_acts_push(actions@, a);
            }
            actions.push(a);
            i += 1;
        }
        assert(list@.take(i as int) =~= list@);
        Ok(actions)
    }

    /// Records a spike of a leading coin and buys its followers. What was done before an
    /// overflow stays done.
    pub fn trade_spike(
        &mut self,
        symbol: &String,
        price: Decimal,
        change: Decimal,
        books: &Table<OrderbookSnapshot>,
        now: DateTime,
    ) -> (r: Result<Vec<Action>, Overflow>)
        ensures
            spike_traded(
                old(self).base,
                final(self).base,
                *symbol,
                price,
                change,
                books.rows(),
                now,
                r,
            ),
    {
        let origin: Decimal = match self.base.rt.price_history.get(symbol.as_str()) {
            None => price,
            Some(v) => match now.minus_secs(to_signed(self.base.rt.config.spike.window_secs)) {
                None => {
                    return Err(Overflow);
                },
                Some(cutoff) => match find_price_before(v, cutoff) {
                    Some(p) => p,
                    None => price,
                },
            },
        };
        let list: Result<Vec<SizedOpportunity>, Overflow> = self.generate_opportunities(
            symbol,
            change,
            books,
            now,
        );
        self.base.rt.record_spike(
            SpikeEvent {
                coin: symbol.clone(),
                timestamp: now,
                change_pct: change,
                from_price: origin,
                to_price: price,
                acted: true,
            },
        );
        match list {
            Err(_) => Err(Overflow),
            Ok(list) => {
                proof {
                    lemma_orders_env(
                        old(self).base.rt,
                        self.base.rt,
                        OrderBookkeeping {
                            pending: self.base.rt.pending_orders.rows(),
                            actions: Seq::empty(),
                        },
                        list@,
                    );
                }
                self.place_orders(&list)
            },
        }
    }

    /// Handles an external price: it is recorded, and a spike of a leading coin is traded;
    /// says whether one was. What was done before an overflow stays done.
    pub fn handle_external_price(
        &mut self,
        symbol: &String,
        price: Decimal,
        source: &String,
        data: &MarketData,
        now: DateTime,
        quotes: &Vec<ChainQuote>,
    ) -> (r: Result<(Vec<Action>, bool), Overflow>)
        ensures
            crosscorr_price_handled(
                old(self).base,
                final(self).base,
                *symbol,
                price,
                *source,
                *data,
                now,
                quotes@,
                r,
            ),
    {
        let (spike, promoted) = self.base.record_price(symbol, price, source, now, quotes);
        let ghost first = promoted@;
        let ghost recorded = self.base;
        let mut trades: Result<Vec<Action>, Overflow> = Err(Overflow);
        let ghost mut traded: Result<Vec<Action>, Overflow> = trades;
        let r: Result<(Vec<Action>, bool), Overflow> = match spike {
            Err(_) => Err(Overflow),
            Ok(change) => {
                let leads: Option<Decimal> = match change {
                    Some(pct) => if pct.abs().ge(
                        self.base.rt.config.correlation.min_spike_pct,
                    ) && self.get_followers(symbol.as_str()).len() > 0 {
                        Some(pct)
                    } else {
                        None
                    },
                    None => None,
                };
                match leads {
                    None => Ok((promoted, false)),
                    Some(pct) => {
                        trades = self.trade_spike(symbol, price, pct, &data.orderbooks, now);
                        proof {
                            traded = trades;
                        }
                        match trades {
                            Err(_) => Err(Overflow),
                            Ok(v) => {
                                let mut more: Vec<Action> = v;
                                let mut result: Vec<Action> = promoted;
                                result.append(&mut more);
                                Ok((result, true))
                            },
                        }
                    },
                }
            },
        };
        assert(crosscorr_price_steps(
            old(self).base, self.base, *symbol, price, *source, *data, now, quotes@, r, recorded,
            spike, first, traded,
        ));
        r
    }

    /// Takes note of the answer to an order.
    pub fn on_order_placed(&mut self, result: &OrderResult, now: DateTime) -> (r: Result<
        Vec<Action>,
        Overflow,
    >)
        ensures
            r is Ok ==> r->Ok_0@.len() == 0,
            mode_order_placed(
                old(self).base,
                final(self).base,
                ModeClass::CrossCorrelated,
                *result,
                now,
                r is Ok,
            ),
    {
        self.base.note_order_placed(ModeClass::CrossCorrelated, result, now)?;
        Ok(Vec::new())
    }

    /// Takes note of a filled order.
    pub fn on_order_filled(
        &mut self,
        order_id: &OrderId,
        price: Decimal,
        size: Decimal,
        now: DateTime,
    ) -> (r: Vec<Action>)
        ensures
            r@.len() == 0,
            mode_order_filled(
                old(self).base.rt,
                final(self).base.rt,
                ModeClass::CrossCorrelated,
                *order_id,
                price,
                size,
                now,
            ),
            final(self).base == (CryptoArbBase { rt: final(self).base.rt, ..old(self).base }),
    {
        self.base.note_order_filled(ModeClass::CrossCorrelated, order_id, price, size, now);
        Vec::new()
    }
}

/// Placing orders does not rest on the spikes on record.
proof fn lemma_orders_env(
    a: CryptoArbRuntime,
    b: CryptoArbRuntime,
    start: OrderBookkeeping,
    list: Seq<SizedOpportunity>,
)
    requires
        b == (CryptoArbRuntime { spike_events: b.spike_events, ..a }),
    ensures
        orders_of(a, start, list) == orders_of(b, start, list),
    decreases list.len(),
{
    if list.len() > 0 {
        lemma_orders_env(a, b, start, list.drop_last());
    }
}

/// Followers are bought on the side that the leader took: a rise where it rose, a fall where it did
/// not; with the size of its move as confidence, at most 1, times the discount.
pub proof fn followers_follow_the_leader(change: Decimal, discount: Decimal)
    requires
        is_decimal(change),
        product_is_exact(smaller(magnitude(change), one()), discount),
    ensures
        value(change) > 0 as real ==> follower_side(change) == OutcomeSide::Up,
        value(change) <= 0 as real ==> follower_side(change) == OutcomeSide::Down,
        follower_confidence_of(change, discount) is Some,
        value(follower_confidence_of(change, discount)->0) == min_of(
            abs_of(value(change)),
            1 as real,
        ) * value(discount),
{
    signs_agree(change);
    negating_negates(change);
    picking_picks_values(magnitude(change), one());
    products_multiply(smaller(magnitude(change), one()), discount);
}

/// A follower that has not moved is bought: its market open and without exposure, the ask of the
/// leader's side between 0.40 and 0.60, a sufficient net margin, a slot left and a size; and not
/// otherwise.
pub proof fn a_follower_that_lags_is_bought(
    base: CryptoArbBase,
    key: Seq<char>,
    m: MarketWithReference,
    leader: String,
    change: Decimal,
    confidence: Decimal,
    books: Seq<(Seq<char>, OrderbookSnapshot)>,
    now: DateTime,
    ob: OrderbookSnapshot,
)
    requires
        follower_outcome(base, key, m, leader, change, confidence, books, now) is Some,
        lookup(
            books,
            if value(change) > 0 as real {
                m.market.token_ids.outcome_a@
            } else {
                m.market.token_ids.outcome_b@
            },
        ) == Some(ob),
        ob.asks@.len() > 0,
        margins_of(
            base.rt.config.order.hybrid_mode,
            base.rt.config.fee.taker_fee_rate,
            ob.asks@[0].price,
        ) is Some,
        sizing_of(base.rt.config.sizing, confidence, ob.asks@[0].price) is Some,
    ensures
        ({
            let out = follower_outcome(base, key, m, leader, change, confidence, books, now)->0;
            let ask = value(ob.asks@[0].price);
            let net = (margins_of(
                base.rt.config.order.hybrid_mode,
                base.rt.config.fee.taker_fee_rate,
                ob.asks@[0].price,
            )->0).2;
            let open = !base.rt.exposed(key) && m.market.end_date.nanos_of() - now.nanos_of()
                >= 1_000_000_000;
            let lags = ask * (10 as real) >= 4 as real && ask * (10 as real) <= 6 as real;
            let pays = value(net) >= value(base.rt.config.min_profit_margin);
            let room = base.rt.used_slots() < base.rt.config.max_positions;
            let sized = sizing_of(base.rt.config.sizing, confidence, ob.asks@[0].price)->0 is Some;
            &&& out is Take <==> open && lags && pays && room && sized
            &&& out is Stop <==> open && lags && pays && !room
            &&& out is Take ==> out->Take_0.opportunity.buy_price == ob.asks@[0].price
                && out->Take_0.opportunity.market_id == m.market.id
            &&& out is Take && value(change) > 0 as real ==> out->Take_0.opportunity.outcome_to_buy
                == OutcomeSide::Up && out->Take_0.opportunity.token_id
                == m.market.token_ids.outcome_a
            &&& out is Take && value(change) <= 0 as real ==> out->Take_0.opportunity.outcome_to_buy
                == OutcomeSide::Down && out->Take_0.opportunity.token_id
                == m.market.token_ids.outcome_b
        }),
{
    let ask = ob.asks@[0].price;
    signs_agree(change);
    value_of_hundredths(60);
    value_of_hundredths(40);
    comparing_compares_values(dec(60, 2), ask);
    comparing_compares_values(ask, dec(40, 2));
    let net = (margins_of(
        base.rt.config.order.hybrid_mode,
        base.rt.config.fee.taker_fee_rate,
        ask,
    )->0).2;
    comparing_compares_values(net, base.rt.config.min_profit_margin);
}

/// A leader's move makes opportunities only with a confidence of at least 0.50.
pub proof fn a_weak_lead_makes_no_opportunity(
    base: CryptoArbBase,
    leader: String,
    change: Decimal,
    books: Seq<(Seq<char>, OrderbookSnapshot)>,
    now: DateTime,
    confidence: Decimal,
)
    requires
        follower_confidence_of(change, base.rt.config.correlation.discount_factor) == Some(
            confidence,
        ),
        value(confidence) * (2 as real) < 1 as real,
    ensures
        opportunities_of(base, leader, change, books, now) == Some(
            Seq::<SizedOpportunity>::empty(),
        ),
{
    value_of_hundredths(50);
    comparing_compares_values(confidence, dec(50, 2));
}

/// A coin follows a leader where a pair of that leader lists it, and not otherwise.
pub proof fn followers_are_listed_with_their_leader(
    pairs: Seq<CorrelationPair>,
    leader: Seq<char>,
    coin: String,
)
    ensures
        followers_of(pairs, leader).contains(coin) <==> exists|i: int|
            0 <= i < pairs.len() && (#[trigger] pairs[i]).leader@ == leader
                && pairs[i].followers@.contains(coin),
    decreases pairs.len(),
{
    if pairs.len() > 0 {
        let h = pairs.drop_last();
        let last = pairs.last();
        followers_are_listed_with_their_leader(h, leader, coin);
        let a = followers_of(h, leader);
        assert(pairs[pairs.len() - 1] == last);
        if exists|i: int|
            0 <= i < h.len() && (#[trigger] h[i]).leader@ == leader && h[i].followers@.contains(
                coin,
            ) {
            let i = choose|i: int|
                0 <= i < h.len() && (#[trigger] h[i]).leader@ == leader
                    && h[i].followers@.contains(coin);
            assert(pairs[i] == h[i]);
        }
        if exists|i: int|
            0 <= i < pairs.len() && (#[trigger] pairs[i]).leader@ == leader
                && pairs[i].followers@.contains(coin) {
            let i = choose|i: int|
                0 <= i < pairs.len() && (#[trigger] pairs[i]).leader@ == leader
                    && pairs[i].followers@.contains(coin);
            if i < h.len() {
                assert(h[i] == pairs[i]);
            }
        }
        if last.leader@ == leader {
            let b = last.followers@;
            let all = a + b;
            if a.contains(coin) {
                let i = choose|i: int| 0 <= i < a.len() && a[i] == coin;
                assert(all[i] == coin);
            }
            if b.contains(coin) {
                let i = choose|i: int| 0 <= i < b.len() && b[i] == coin;
                assert(all[a.len() + i] == coin);
            }
            if all.contains(coin) {
                let i = choose|i: int| 0 <= i < all.len() && all[i] == coin;
                if i < a.len() {
                    assert(a[i] == coin);
                } else {
                    assert(b[i - a.len()] == coin);
                }
            }
        }
    }
}

/// One market more of a follower adds its opportunity, if it is worth a trade and no market before
/// it has ended the search; a market of another coin adds nothing.
pub proof fn each_market_of_a_follower_counts(
    base: CryptoArbBase,
    rows: Seq<(Seq<char>, MarketWithReference)>,
    key: Seq<char>,
    m: MarketWithReference,
    follower: Seq<char>,
    leader: String,
    change: Decimal,
    confidence: Decimal,
    books: Seq<(Seq<char>, OrderbookSnapshot)>,
    now: DateTime,
    found: Seq<SizedOpportunity>,
    stopped: bool,
    outcome: FollowerOutcome,
)
    requires
        follower_path(base, rows, follower, leader, change, confidence, books, now) == Some(
            (found, stopped),
        ),
        follower_outcome(base, key, m, leader, change, confidence, books, now) == Some(outcome),
    ensures
        ({
            let after = follower_path(
                base,
                rows.push((key, m)),
                follower,
                leader,
                change,
                confidence,
                books,
                now,
            );
            let looked = m.coin@ == follower && !stopped;
            &&& !looked ==> after == Some((found, stopped))
            &&& looked && outcome is Take ==> after == Some((found.push(outcome->Take_0), false))
            &&& looked && outcome is Stop ==> after == Some((found, true))
            &&& looked && outcome is Skip ==> after == Some((found, false))
        }),
{
    assert(rows.push((key, m)).drop_last() =~= rows);
}

/// Each opportunity is ordered at the price that orders get, with its shares, and remembered as
/// pending where its market is active.
pub proof fn each_opportunity_is_ordered(
    rt: CryptoArbRuntime,
    b: OrderBookkeeping,
    list: Seq<SizedOpportunity>,
    s: SizedOpportunity,
    c: OrderBookkeeping,
    order_type: OrderType,
    price: Decimal,
)
    requires
        orders_of(rt, b, list) == Some(c),
        pricing_of(rt.config.order, s.opportunity.buy_price) == Some((order_type, price)),
    ensures
        ({
            let after = orders_of(rt, b, list.push(s));
            let last = after->0.actions.last();
            let pending = lookup(after->0.pending, s.opportunity.token_id@);
            &&& after is Some
            &&& after->0.actions.len() == c.actions.len() + 1
            &&& last is PlaceOrder
            &&& last->PlaceOrder_0.token == s.opportunity.token_id@ && last->PlaceOrder_0.price
                == price && last->PlaceOrder_0.size == s.sizing.shares && last->PlaceOrder_0.side
                == OrderSide::Buy && last->PlaceOrder_0.order_type == order_type
            &&& lookup(rt.active_markets.rows(), s.opportunity.market_id@) is Some ==> pending
                is Some && pending->0.price == price && pending->0.size == s.sizing.shares
            &&& lookup(rt.active_markets.rows(), s.opportunity.market_id@) is None
                ==> after->0.pending == c.pending
        }),
{
    assert(list.push(s).drop_last() =~= list);
    match lookup(rt.active_markets.rows(), s.opportunity.market_id@) {
        Some(m) => {
            lemma_lookup_stored(
                c.pending,
                s.opportunity.token_id@,
                (placed_of(rt.config.order, m, s.opportunity, s.sizing)->0).1,
                s.opportunity.token_id@,
            );
        },
        None => {},
    }
}

/// A spike is traded where it is at least the least spike, up or down, and its coin has followers.
pub proof fn a_large_spike_leads(rt: CryptoArbRuntime, symbol: Seq<char>, change: Decimal)
    requires
        is_decimal(change),
    ensures
        leads_now(rt, symbol, Some(change)) <==> abs_of(value(change)) >= value(
            rt.config.correlation.min_spike_pct,
        ) && followers_of(rt.config.correlation.pairs@, symbol).len() > 0,
        !leads_now(rt, symbol, None),
{
    negating_negates(change);
    comparing_compares_values(rt.config.correlation.min_spike_pct, magnitude(change));
}

} // verus!
