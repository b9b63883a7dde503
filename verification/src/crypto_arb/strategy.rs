//! The combined strategy: prices, order books, markets and orders.
use crate::config::ArbitrageConfig;
use crate::crypto_arb::rules::{
    StopBook, TradeBook, add_entry, best_reference, book_handled, chain_answer, coin_asked,
    coin_in, confirmed_found, crypto_price_handled, exposed, find_ask, found, latest_in,
    leg_size_of, lemma_market_path_overflows, lemma_purchase_overflows, lemma_stop_path_overflows,
    market_discovered, market_expired, market_path, market_step, no_market, no_token,
    opportunities_of, order_answered, order_refused, positions_where, price_taken_in,
    purchase_path, referenced, reversed_of, stop_path, stop_sale_of, tail_end_found, token_of,
    two_sided_found, with_entry,
};
use crate::crypto_arb::types::{
    ArbitragePosition, MarketWithReference, PendingOrder, ReferenceQuality,
};
use crate::decimal::{Decimal, Overflow, ok_of};
use crate::domain::market::BoundarySnapshot;
use crate::domain::position::{ArbitrageMode, ArbitrageOpportunity, copy_id};
use crate::exchange::{
    Action, ChainQuote, LogLevel, MarketData, MarketId, MarketInfo, OrderRequest, OrderResult,
    OrderSide, OrderType, OrderbookSnapshot, OutcomeSide, acts, book_stored, lemma_acts_push,
};
use crate::fee_math::checked_taker_fee;
use crate::runtime::{PriceEntry, list_has};
use crate::services::feed::{is_near_boundary, take_boundary};
use crate::services::market::{find_quote, window_start};
use crate::services::pricing::{
    boundary_key, find_historical, make_boundary_key, prune_boundaries, pruned,
};
use crate::sizing::order_margins;
use crate::table::{Table, lemma_lookup_stored, lookup};
use crate::text::{opt_text, owned, same_text, to_upper, u64_to_text, upper_text};
use crate::time::DateTime;
use vstd::prelude::*;
use vstd::string::*;

verus! {

/// The combined strategy.
#[derive(Debug)]
pub struct CryptoArbitrageStrategy {
    pub config: ArbitrageConfig,
    /// Markets being traded, by id.
    pub active_markets: Table<MarketWithReference>,
    /// Prices by coin, oldest first.
    pub price_history: Table<Vec<PriceEntry>>,
    /// Prices at window boundaries, by coin and boundary.
    pub boundary_prices: Table<BoundarySnapshot>,
    /// Open positions, oldest first.
    pub positions: Vec<ArbitragePosition>,
    /// Orders not confirmed yet, by token.
    pub pending_orders: Table<PendingOrder>,
    /// Tokens with a stop-loss sale in flight.
    pub pending_stop_loss: Table<bool>,
    /// Milliseconds of the last scan.
    pub last_scan: Option<u64>,
    /// Milliseconds of the last dashboard update.
    pub last_dashboard_emit: Option<u64>,
    /// Best asks, by token.
    pub cached_asks: Table<Decimal>,
    /// Markets that wait for a price, by coin.
    pub pending_discovery: Table<MarketInfo>,
}

impl CryptoArbitrageStrategy {
    /// A strategy without markets, prices, positions or orders.
    pub fn new(config: ArbitrageConfig) -> (r: Self)
        ensures
            r.config == config,
            r.active_markets.rows().len() == 0,
            r.price_history.rows().len() == 0,
            r.boundary_prices.rows().len() == 0,
            r.positions@.len() == 0,
            r.pending_orders.rows().len() == 0,
            r.pending_stop_loss.rows().len() == 0,
            r.last_scan is None,
            r.last_dashboard_emit is None,
            r.cached_asks.rows().len() == 0,
            r.pending_discovery.rows().len() == 0,
    {
        CryptoArbitrageStrategy {
            config,
            active_markets: Table::new(),
            price_history: Table::new(),
            boundary_prices: Table::new(),
            positions: Vec::new(),
            pending_orders: Table::new(),
            pending_stop_loss: Table::new(),
            last_scan: None,
            last_dashboard_emit: None,
            cached_asks: Table::new(),
            pending_discovery: Table::new(),
        }
    }

    /// The latest price of a coin.
    pub fn get_latest_price(&self, coin: &str) -> (r: Option<Decimal>)
        ensures
            r == latest_in(self.price_history.rows(), coin@),
    {
        match self.price_history.get(coin) {
            Some(v) => if v.len() > 0 {
                Some(v[v.len() - 1].price)
            } else {
                None
            },
            None => None,
        }
    }

    /// The most accurate reference price of a coin's window that starts at `window_ts`.
    pub fn find_best_reference(
        &self,
        coin: &str,
        window_ts: i64,
        current_price: Decimal,
        quotes: &Vec<ChainQuote>,
    ) -> (r: (Decimal, ReferenceQuality))
        ensures
            r == best_reference(
                lookup(self.boundary_prices.rows(), boundary_key(coin@, window_ts as int)),
                chain_answer(self.config, quotes@, window_ts),
                lookup(self.price_history.rows(), coin@),
                window_ts,
                current_price,
            ),
    {
        if self.config.use_chainlink {
            match find_quote(quotes, window_ts) {
                Some(p) => {
                    return (p.price, ReferenceQuality::OnChain);
                },
                None => {},
            }
        }
        match self.boundary_prices.get(make_boundary_key(coin, window_ts).as_str()) {
            Some(b) => {
                return (b.price, ReferenceQuality::Exact);
            },
            None => {},
        }
        match find_historical(self.price_history.get(coin), window_ts, false) {
            Some(c) => (c.price, ReferenceQuality::Historical(c.staleness)),
            None => (current_price, ReferenceQuality::Current),
        }
    }

    /// Drops the boundary prices of a coin that are older than four windows.
    pub fn prune_boundary_snapshots(&mut self, coin: &str, now: DateTime)
        ensures
            final(self).boundary_prices.rows() == pruned(
                old(self).boundary_prices.rows(),
                coin@,
                now,
            ),
            *final(self) == (CryptoArbitrageStrategy {
                boundary_prices: final(self).boundary_prices,
                ..*old(self)
            }),
    {
        prune_boundaries(&mut self.boundary_prices, coin, now);
    }

    /// The coin that a market's question is about.
    pub fn extract_coin(&self, question: &str) -> (r: Option<String>)
        ensures
            opt_text(r) == coin_asked(upper_text(question@), self.config.coins@),
    {
        let upper: String = to_upper(question);
        coin_in(upper.as_str(), &self.config.coins)
    }

    fn reference_market(
        &self,
        market: &MarketInfo,
        coin: &String,
        price: Decimal,
        now: DateTime,
        quotes: &Vec<ChainQuote>,
    ) -> (r: MarketWithReference)
        ensures
            r == referenced(
                self.config,
                self.boundary_prices.rows(),
                self.price_history.rows(),
                quotes@,
                *market,
                *coin,
                price,
                now,
            ),
    {
        let window_ts: i64 = window_start(market, now);
        let (reference_price, reference_quality): (Decimal, ReferenceQuality) =
            self.find_best_reference(coin.as_str(), window_ts, price, quotes);
        MarketWithReference {
            market: market.clone(),
            reference_price,
            reference_quality,
            discovery_time: now,
            coin: coin.clone(),
        }
    }

    fn is_exposed(&self, market: &str) -> (r: bool)
        ensures
            r == exposed(self.positions@, self.pending_orders.rows(), market@),
    {
        let mut i: usize = 0;
        while i < self.positions.len()
            invariant
                i <= self.positions@.len(),
                forall|j: int| 0 <= j < i ==> (#[trigger] self.positions@[j]).market_id@ != market@,
            decreases self.positions@.len() - i,
        {
            if same_text(self.positions[i].market_id.as_str(), market) {
                return true;
            }
            i += 1;
        }
        let mut k: usize = 0;
        while k < self.pending_orders.len()
            invariant
                k <= self.pending_orders.rows().len(),
                forall|j: int|
                    0 <= j < k ==> (#[trigger] self.pending_orders.rows()[j]).1.market_id@
                        != market@,
            decreases self.pending_orders.rows().len() - k,
        {
            if same_text(self.pending_orders.value_at(k).market_id.as_str(), market) {
                assert(self.pending_orders.rows()[k as int].1.market_id@ == market@);
                return true;
            }
            k += 1;
        }
        false
    }

    /// The two legs of a two-sided trade.
    fn two_sided_legs(
        &self,
        market: &MarketWithReference,
        up: Decimal,
        down: Decimal,
        combined: Decimal,
    ) -> (r: Result<Vec<ArbitrageOpportunity>, Overflow>)
        ensures
            found(r) == two_sided_found(self.config, *market, up, down, combined),
    {
        let rate: Decimal = self.config.fee.taker_fee_rate;
        let gross: Decimal = Decimal::one().minus(combined)?;
        let fee_up: Decimal = checked_taker_fee(up, rate)?;
        let fee_down: Decimal = checked_taker_fee(down, rate)?;
        let fees: Decimal = fee_up.plus(fee_down)?;
        let net: Decimal = gross.minus(fees)?;
        let mut r: Vec<ArbitrageOpportunity> = Vec::new();
        if net.le(Decimal::zero()) {
            assert(r@ =~= Seq::empty());
            return Ok(r);
        }
        r.push(
            ArbitrageOpportunity {
                mode: ArbitrageMode::TwoSided,
                market_id: market.market.id.clone(),
                outcome_to_buy: OutcomeSide::Up,
                token_id: market.market.token_ids.outcome_a.clone(),
                buy_price: up,
                confidence: Decimal::one(),
                profit_margin: gross,
                estimated_fee: fees,
                net_margin: net,
            },
        );
        r.push(
            ArbitrageOpportunity {
                mode: ArbitrageMode::TwoSided,
                market_id: market.market.id.clone(),
                outcome_to_buy: OutcomeSide::Down,
                token_id: market.market.token_ids.outcome_b.clone(),
                buy_price: down,
                confidence: Decimal::one(),
                profit_margin: gross,
                estimated_fee: fees,
                net_margin: net,
            },
        );
        assert(r@ =~= two_sided_found(self.config, *market, up, down, combined)->0);
        Ok(r)
    }

    /// The opportunities of a market at a price: tail-end first, else two-sided, else
    /// confirmed.
    pub fn evaluate_opportunity(
        &self,
        market: &MarketWithReference,
        current_price: Decimal,
        books: &Table<OrderbookSnapshot>,
        now: DateTime,
    ) -> (r: Result<Vec<ArbitrageOpportunity>, Overflow>)
        ensures
            found(r) == opportunities_of(
                self.config,
                self.positions@,
                self.pending_orders.rows(),
                *market,
                current_price,
                books.rows(),
                now,
            ),
    {
        let left: i64 = market.market.seconds_remaining_at(now);
        let mut r: Vec<ArbitrageOpportunity> = Vec::new();
        assert(r@ =~= Seq::empty());
        if left <= 0 || self.is_exposed(market.market.id.as_str()) {
            return Ok(r);
        }
        let up: Option<Decimal> = find_ask(books, market.market.token_ids.outcome_a.as_str());
        let down: Option<Decimal> = find_ask(books, market.market.token_ids.outcome_b.as_str());
        let winner: Option<OutcomeSide> = market.predict_winner(current_price);
        let wanted: Option<Decimal> = match winner {
            Some(side) => if side.is_up() {
                up
            } else {
                down
            },
            None => None,
        };
        if left < 120 {
            match (winner, wanted) {
                (Some(side), Some(ask)) => if ask.ge(Decimal::new(90, 2)) {
                    let (gross, fee, net): (Decimal, Decimal, Decimal) = order_margins(
                        false,
                        self.config.fee.taker_fee_rate,
                        ask,
                    )?;
                    r.push(
                        ArbitrageOpportunity {
                            mode: ArbitrageMode::TailEnd,
                            market_id: market.market.id.clone(),
                            outcome_to_buy: side,
                            token_id: token_of(&market.market.token_ids, side).clone(),
                            buy_price: ask,
                            confidence: Decimal::one(),
                            profit_margin: gross,
                            estimated_fee: fee,
                            net_margin: net,
                        },
                    );
                    assert(r@ =~= tail_end_found(
                        self.config,
                        *market,
                        current_price,
                        up,
                        down,
                    )->0);
                    return Ok(r);
                },
                _ => {},
            }
        }
        match (up, down) {
            (Some(u), Some(d)) => {
                let combined: Decimal = u.plus(d)?;
                if combined.lt(Decimal::new(98, 2)) {
                    return self.two_sided_legs(market, u, d, combined);
                }
            },
            _ => {},
        }
        match (winner, wanted) {
            (Some(side), Some(ask)) => {
                let confidence: Decimal = market.get_confidence(current_price, ask, left)?;
                let (gross, fee, net): (Decimal, Decimal, Decimal) = order_margins(
                    false,
                    self.config.fee.taker_fee_rate,
                    ask,
                )?;
                let floor: Decimal = if left < 300 {
                    self.config.late_window_margin
                } else {
                    self.config.min_profit_margin
                };
                if confidence.ge(Decimal::new(50, 2)) && net.ge(floor) {
                    r.push(
                        ArbitrageOpportunity {
                            mode: ArbitrageMode::Confirmed,
                            market_id: market.market.id.clone(),
                            outcome_to_buy: side,
                            token_id: token_of(&market.market.token_ids, side).clone(),
                            buy_price: ask,
                            confidence,
                            profit_margin: gross,
                            estimated_fee: fee,
                            net_margin: net,
                        },
                    );
                    assert(r@ =~= confirmed_found(
                        self.config,
                        *market,
                        current_price,
                        up,
                        down,
                        left as int,
                    )->0);
                }
            },
            _ => {},
        }
        Ok(r)
    }

    /// The shares of each leg of a two-sided trade.
    fn leg_size(&self, opps: &Vec<ArbitrageOpportunity>) -> (r: Result<Option<Decimal>, Overflow>)
        ensures
            ok_of(r) == leg_size_of(self.config, opps@),
    {
        if opps.len() == 2 && matches!(opps[0].mode, ArbitrageMode::TwoSided) {
            let combined: Decimal = opps[0].buy_price.plus(opps[1].buy_price)?;
            if combined.gt(Decimal::zero()) {
                Ok(Some(self.config.sizing.base_size.over(combined)?))
            } else {
                Ok(None)
            }
        } else {
            Ok(None)
        }
    }

    /// Buys the opportunities of a market.
    fn buy_all(
        &mut self,
        market: &MarketWithReference,
        opps: &Vec<ArbitrageOpportunity>,
        leg_size: Option<Decimal>,
        actions: &mut Vec<Action>,
    ) -> (r: Result<(), Overflow>)
        ensures
            match purchase_path(
                old(self).config,
                *market,
                opps@,
                leg_size,
                (TradeBook {
                    pending: old(self).pending_orders.rows(),
                    actions: acts(old(actions)@),
                }),
            ) {
                None => r is Err,
                Some(b) => r is Ok && b == (TradeBook {
                    pending: final(self).pending_orders.rows(),
                    actions: acts(final(actions)@),
                }),
            },
            *final(self) == (CryptoArbitrageStrategy {
                pending_orders: final(self).pending_orders,
                ..*old(self)
            }),
    {
        let ghost start = TradeBook {
            pending: self.pending_orders.rows(),
            actions: acts(actions@),
        };
        let mut failed: bool = false;
        let mut i: usize = 0;
        while i < opps.len() && !failed
            invariant
                i <= opps@.len(),
                *self == (CryptoArbitrageStrategy {
                    pending_orders: self.pending_orders,
                    ..*old(self)
                }),
                failed ==> purchase_path(self.config, *market, opps@, leg_size, start) is None,
                !failed ==> purchase_path(
                    self.config,
                    *market,
                    opps@.take(i as int),
                    leg_size,
                    start,
                ) == Some(
                    TradeBook { pending: self.pending_orders.rows(), actions: acts(actions@) },
                ),
            decreases opps@.len() - i,
        {
            assert(opps@.take(i as int + 1).drop_last() =~= opps@.take(i as int));
            let o = &opps[i];
            if !o.buy_price.is_zero() {
                let sized: Result<Decimal, Overflow> = match leg_size {
                    Some(n) => Ok(n),
                    None => self.config.sizing.base_size.over(o.buy_price),
                };
                match sized {
                    Err(_) => {
                        failed = true;
                        proof {
                            lemma_purchase_overflows(
                                self.config,
                                *market,
                                opps@,
                                leg_size,
                                start,
                                i as int + 1,
                            );
                        }
                    },
                    Ok(size) => {
                        let order = OrderRequest::new(
                            o.token_id.clone(),
                            o.buy_price,
                            size,
                            OrderSide::Buy,
                            OrderType::Fok,
                            false,
                        );
                        self.pending_orders.insert(
                            o.token_id.clone(),
                            PendingOrder {
                                market_id: market.market.id.clone(),
                                token_id: o.token_id.clone(),
                                side: o.outcome_to_buy,
                                price: o.buy_price,
                                size,
                                reference_price: market.reference_price,
                                coin: market.coin.clone(),
                            },
                        );
                        let a = Action::PlaceOrder(order);
                        proof {
                            lemma_acts_push(actions@, a);
                        }
                        actions.push(a);
                    },
                }
            }
            i += 1;
        }
        if failed {
            return Err(Overflow);
        }
        assert(opps@.take(i as int) =~= opps@);
        Ok(())
    }

    /// Trades a market: buys its opportunities where the position limit allows all of them.
    fn trade_market(
        &mut self,
        market: &MarketWithReference,
        price: Decimal,
        books: &Table<OrderbookSnapshot>,
        now: DateTime,
        actions: &mut Vec<Action>,
    ) -> (r: Result<(), Overflow>)
        ensures
            match market_step(
                old(self).config,
                old(self).positions@,
                *market,
                price,
                books.rows(),
                now,
                (TradeBook {
                    pending: old(self).pending_orders.rows(),
                    actions: acts(old(actions)@),
                }),
            ) {
                None => r is Err,
                Some(b) => r is Ok && b == (TradeBook {
                    pending: final(self).pending_orders.rows(),
                    actions: acts(final(actions)@),
                }),
            },
            *final(self) == (CryptoArbitrageStrategy {
                pending_orders: final(self).pending_orders,
                ..*old(self)
            }),
    {
        let opps: Vec<ArbitrageOpportunity> = self.evaluate_opportunity(market, price, books, now)?;
        let total: u128 = self.positions.len() as u128 + self.pending_orders.len() as u128
            + opps.len() as u128;
        if opps.len() == 0 || total > self.config.max_positions as u128 {
            return Ok(());
        }
        let leg_size: Option<Decimal> = self.leg_size(&opps)?;
        self.buy_all(market, &opps, leg_size, actions)
    }

    /// Takes a price in, and activates the market that waited for it.
    fn take_price(
        &mut self,
        symbol: &String,
        price: Decimal,
        source: &String,
        now: DateTime,
        quotes: &Vec<ChainQuote>,
    ) -> (r: Vec<Action>)
        ensures
            price_taken_in(
                *old(self),
                *final(self),
                *symbol,
                price,
                *source,
                now,
                quotes@,
                acts(r@),
            ),
    {
        let entry = PriceEntry { received_at: now, price, source: source.clone(), source_ts: now };
        let i: usize = self.price_history.find(symbol.as_str());
        if i < self.price_history.len() {
            let ghost before = self.price_history.rows();
            let mut list: Vec<PriceEntry> = self.price_history.replace_at(i, Vec::new());
            add_entry(&mut list, entry);
            self.price_history.set_at(i, list);
            assert(self.price_history.rows() =~= before.update(
                i as int,
                (before[i as int].0, with_entry(before[i as int].1, entry)),
            ));
        } else {
            let mut list: Vec<PriceEntry> = Vec::new();
            assert(list@ =~= Seq::empty());
            add_entry(&mut list, entry);
            self.price_history.insert(symbol.clone(), list);
        }
        if is_near_boundary(now) {
            take_boundary(&mut self.boundary_prices, symbol.as_str(), price, source, now);
        }
        let mut actions: Vec<Action> = Vec::new();
        match self.pending_discovery.remove(symbol.as_str()) {
            Some(market) => {
                let m: MarketWithReference = self.reference_market(
                    &market,
                    symbol,
                    price,
                    now,
                    quotes,
                );
                self.active_markets.insert(market.id.clone(), m);
                actions.push(Action::SubscribeMarket(market));
                assert(acts(actions@) =~= seq![actions@[0]@]);
            },
            None => {
                assert(acts(actions@) =~= Seq::empty());
            },
        }
        actions
    }

    /// Handles a price of a coin: records it, activates the market that waited for it, and
    /// trades the markets of the coin. An order is only a position once it is confirmed.
    pub fn on_crypto_price(
        &mut self,
        symbol: &String,
        price: Decimal,
        source: &String,
        books: &Table<OrderbookSnapshot>,
        now: DateTime,
        quotes: &Vec<ChainQuote>,
    ) -> (r: Result<Vec<Action>, Overflow>)
        ensures
            crypto_price_handled(
                *old(self),
                *final(self),
                *symbol,
                price,
                *source,
                books.rows(),
                now,
                quotes@,
                r,
            ),
    {
        let mut actions: Vec<Action> = self.take_price(symbol, price, source, now, quotes);
        let ghost mid = *self;
        let ghost start = TradeBook {
            pending: self.pending_orders.rows(),
            actions: acts(actions@),
        };
        assert(acts(actions@) =~= match lookup(old(self).pending_discovery.rows(), symbol@) {
            Some(market) => seq![Action::SubscribeMarket(market)@],
            None => Seq::empty(),
        });
        let mut failed: bool = false;
        let mut i: usize = 0;
        while i < self.active_markets.len() && !failed
            invariant
                i <= mid.active_markets.rows().len(),
                *self == (CryptoArbitrageStrategy { pending_orders: self.pending_orders, ..mid }),
                failed ==> market_path(
                    mid.config,
                    mid.positions@,
                    mid.active_markets.rows(),
                    symbol@,
                    price,
                    books.rows(),
                    now,
                    start,
                ) is None,
                !failed ==> market_path(
                    mid.config,
                    mid.positions@,
                    mid.active_markets.rows().take(i as int),
                    symbol@,
                    price,
                    books.rows(),
                    now,
                    start,
                ) == Some(
                    TradeBook { pending: self.pending_orders.rows(), actions: acts(actions@) },
                ),
            decreases mid.active_markets.rows().len() - i,
        {
            let ghost rows = mid.active_markets.rows();
            assert(rows.take(i as int + 1).drop_last() =~= rows.take(i as int));
            if same_text(self.active_markets.value_at(i).coin.as_str(), symbol.as_str()) {
                let m: MarketWithReference = self.active_markets.value_at(i).clone();
                match self.trade_market(&m, price, books, now, &mut actions) {
                    Ok(_) => {},
                    Err(_) => {
                        failed = true;
                        proof {
                            lemma_market_path_overflows(
                                mid.config,
                                mid.positions@,
                                rows,
                                symbol@,
                                price,
                                books.rows(),
                                now,
                                start,
                                i as int + 1,
                            );
                        }
                    },
                }
            }
            i += 1;
        }
        assert(mid == (CryptoArbitrageStrategy {
            pending_orders: old(self).pending_orders,
            ..*self
        }));
        if failed {
            return Err(Overflow);
        }
        assert(mid.active_markets.rows().take(i as int) =~= mid.active_markets.rows());
        Ok(actions)
    }

    /// Whether the price has moved against a position by enough.
    fn has_reversed(&self, pos: &ArbitragePosition) -> (r: Result<bool, Overflow>)
        ensures
            ok_of(r) == reversed_of(
                self.price_history.rows(),
                self.config.stop_loss.reversal_pct,
                *pos,
            ),
    {
        match self.get_latest_price(pos.coin.as_str()) {
            None => Ok(false),
            Some(current) => {
                let diff: Decimal = if pos.side.is_up() {
                    pos.reference_price.minus(current)?
                } else {
                    current.minus(pos.reference_price)?
                };
                let reversal: Decimal = diff.over(pos.reference_price)?;
                Ok(reversal.ge(self.config.stop_loss.reversal_pct))
            },
        }
    }

    /// The sale that a position calls for at an order book.
    pub fn check_stop_loss(
        &self,
        pos: &ArbitragePosition,
        snapshot: &OrderbookSnapshot,
        now: DateTime,
    ) -> (r: Result<Option<OrderRequest>, Overflow>)
        ensures
            ok_of(r) == stop_sale_of(*self, *pos, *snapshot, now),
    {
        let left: i64 = match self.active_markets.get(pos.market_id.as_str()) {
            None => {
                return Ok(None);
            },
            Some(m) => m.market.seconds_remaining_at(now),
        };
        if left <= 60 {
            return Ok(None);
        }
        let reversed: bool = self.has_reversed(pos)?;
        match snapshot.best_bid() {
            None => Ok(None),
            Some(bid) => {
                let drop: Decimal = pos.entry_price.minus(bid)?;
                if reversed && drop.ge(self.config.stop_loss.min_drop) {
                    Ok(
                        Some(
                            OrderRequest::new(
                                pos.token_id.clone(),
                                bid,
                                pos.size,
                                OrderSide::Sell,
                                OrderType::Fok,
                                false,
                            ),
                        ),
                    )
                } else {
                    Ok(None)
                }
            },
        }
    }

    /// Handles an order book: stores it, keeps its best ask, and sells the positions of its
    /// token whose stop-loss fires. A position stays until its sale is confirmed.
    pub fn on_orderbook_update(
        &mut self,
        snapshot: &OrderbookSnapshot,
        data: &mut MarketData,
        now: DateTime,
    ) -> (r: Result<Vec<Action>, Overflow>)
        ensures
            book_handled(*old(self), *final(self), *snapshot, now, r),
            book_stored(old(data).orderbooks.rows(), final(data).orderbooks.rows(), *snapshot),
            *final(data) == (MarketData { orderbooks: final(data).orderbooks, ..*old(data) }),
    {
        data.store_book(snapshot);
        match snapshot.best_ask() {
            Some(ask) => {
                self.cached_asks.insert(snapshot.token_id.clone(), ask);
            },
            None => {},
        }
        let ghost start = StopBook {
            awaited: self.pending_stop_loss.rows(),
            actions: Seq::empty(),
        };
        let ghost all = self.positions@;
        let ghost asks = self.cached_asks;
        let mut actions: Vec<Action> = Vec::new();
        assert(acts(actions@) =~= Seq::empty());
        let mut failed: bool = false;
        let mut i: usize = 0;
        while i < self.positions.len() && !failed
            invariant
                i <= all.len(),
                all == old(self).positions@,
                *self == (CryptoArbitrageStrategy {
                    pending_stop_loss: self.pending_stop_loss,
                    cached_asks: asks,
                    ..*old(self)
                }),
                failed ==> stop_path(*old(self), all, *snapshot, now, start) is None,
                !failed ==> stop_path(*old(self), all.take(i as int), *snapshot, now, start)
                    == Some(
                    StopBook { awaited: self.pending_stop_loss.rows(), actions: acts(actions@) },
                ),
            decreases all.len() - i,
        {
            assert(all.take(i as int + 1).drop_last() =~= all.take(i as int));
            let pos: ArbitragePosition = self.positions[i].clone();
            if same_text(pos.token_id.as_str(), snapshot.token_id.as_str())
                && !self.pending_stop_loss.contains_key(pos.token_id.as_str()) {
                match self.check_stop_loss(&pos, snapshot, now) {
                    Err(_) => {
                        failed = true;
                        proof {
                            lemma_stop_path_overflows(
                                *old(self),
                                all,
                                *snapshot,
                                now,
                                start,
                                i as int + 1,
                            );
                        }
                    },
                    Ok(None) => {},
                    Ok(Some(order)) => {
                        self.pending_stop_loss.insert(pos.token_id.clone(), true);
                        let a = Action::PlaceOrder(order);
                        proof {
                            lemma_acts_push(actions@, a);
                        }
                        actions.push(a);
                    },
                }
            }
            i += 1;
        }
        if failed {
            return Err(Overflow);
        }
        assert(all.take(i as int) =~= all);
        Ok(actions)
    }

    /// Handles a discovered market.
    pub fn on_market_discovered(
        &mut self,
        market: &MarketInfo,
        prices: &Table<Decimal>,
        now: DateTime,
        quotes: &Vec<ChainQuote>,
    ) -> (r: Vec<Action>)
        ensures
            market_discovered(
                *old(self),
                *final(self),
                *market,
                coin_asked(upper_text(market.question@), old(self).config.coins@),
                prices.rows(),
                now,
                quotes@,
                acts(r@),
            ),
    {
        let coin: Option<String> = self.extract_coin(market.question.as_str());
        self.discover(market, coin, prices, now, quotes)
    }

    /// Handles a discovered market, given the coin that its question is about.
    pub fn discover(
        &mut self,
        market: &MarketInfo,
        coin: Option<String>,
        prices: &Table<Decimal>,
        now: DateTime,
        quotes: &Vec<ChainQuote>,
    ) -> (r: Vec<Action>)
        ensures
            market_discovered(
                *old(self),
                *final(self),
                *market,
                opt_text(coin),
                prices.rows(),
                now,
                quotes@,
                acts(r@),
            ),
    {
        let mut actions: Vec<Action> = Vec::new();
        assert(acts(actions@) =~= Seq::empty());
        match coin {
            None => {},
            Some(coin) => if list_has(&self.config.coins, coin.as_str()) {
                match prices.get(coin.as_str()) {
                    None => {
                        self.pending_discovery.insert(coin, market.clone());
                    },
                    Some(price) => {
                        let m: MarketWithReference = self.reference_market(
                            market,
                            &coin,
                            *price,
                            now,
                            quotes,
                        );
                        proof {
                            lemma_lookup_stored(
                                self.active_markets.rows(),
                                market.id@,
                                m,
                                market.id@,
                            );
                        }
                        self.active_markets.insert(market.id.clone(), m);
                        actions.push(Action::SubscribeMarket(market.clone()));
                        assert(acts(actions@) =~= seq![actions@[0]@]);
                    },
                }
            },
        }
        actions
    }

    /// Handles an expired market.
    pub fn on_market_expired(&mut self, market_id: &MarketId) -> (r: Vec<Action>)
        ensures
            market_expired(*old(self), *final(self), market_id@, acts(r@)),
    {
        let _ = self.active_markets.remove(market_id.as_str());
        let ghost all = self.positions@;
        let ghost stays = no_market(market_id@);
        let ghost goes = |p: ArbitragePosition| p.market_id@ == market_id@;
        let mut rest: Vec<ArbitragePosition> = Vec::new();
        let mut count: usize = 0;
        let mut i: usize = 0;
        while i < self.positions.len()
            invariant
                self.positions@ == all,
                i <= all.len(),
                count <= i,
                stays == no_market(market_id@),
                goes == (|p: ArbitragePosition| p.market_id@ == market_id@),
                rest@ =~= positions_where(all.take(i as int), stays),
                count == positions_where(all.take(i as int), goes).len(),
            decreases all.len() - i,
        {
            assert(all.take(i as int + 1).drop_last() =~= all.take(i as int));
            if same_text(self.positions[i].market_id.as_str(), market_id.as_str()) {
                count += 1;
            } else {
                rest.push(self.positions[i].clone());
            }
            i += 1;
        }
        assert(all.take(i as int) =~= all);
        self.positions = rest;
        let mut actions: Vec<Action> = Vec::new();
        actions.push(Action::UnsubscribeMarket(market_id.clone()));
        if count > 0 {
            let mut message = owned("Market ");
            message.append(market_id.as_str());
            message.append(" expired with ");
            message.append(u64_to_text(count as u64).as_str());
            message.append(" open position(s)");
            actions.push(Action::Log { level: LogLevel::Info, message });
            assert(acts(actions@) =~= seq![actions@[0]@, actions@[1]@]);
        } else {
            assert(acts(actions@) =~= seq![actions@[0]@]);
        }
        actions
    }

    /// Takes the positions of a token out.
    pub fn remove_position_by_token(&mut self, token_id: &str)
        ensures
            final(self).positions@ == positions_where(
                old(self).positions@,
                no_token(token_id@),
            ),
            *final(self) == (CryptoArbitrageStrategy {
                positions: final(self).positions,
                ..*old(self)
            }),
    {
        let ghost all = self.positions@;
        let ghost stays = no_token(token_id@);
        let mut rest: Vec<ArbitragePosition> = Vec::new();
        let mut i: usize = 0;
        while i < self.positions.len()
            invariant
                self.positions@ == all,
                i <= all.len(),
                stays == no_token(token_id@),
                rest@ =~= positions_where(all.take(i as int), stays),
            decreases all.len() - i,
        {
            assert(all.take(i as int + 1).drop_last() =~= all.take(i as int));
            if !same_text(self.positions[i].token_id.as_str(), token_id) {
                rest.push(self.positions[i].clone());
            }
            i += 1;
        }
        assert(all.take(i as int) =~= all);
        self.positions = rest;
    }

    /// Handles the answer to an order.
    pub fn on_order_placed(&mut self, result: &OrderResult, now: DateTime) -> (r: Vec<Action>)
        ensures
            r@.len() == 0,
            order_answered(*old(self), *final(self), *result, now),
    {
        if self.pending_stop_loss.remove(result.token_id.as_str()).is_some() {
            if result.success {
                self.remove_position_by_token(result.token_id.as_str());
            }
            return Vec::new();
        }
        match self.pending_orders.remove(result.token_id.as_str()) {
            None => {},
            Some(order) => if result.success {
                self.positions.push(
                    ArbitragePosition {
                        market_id: order.market_id,
                        token_id: order.token_id,
                        side: order.side,
                        entry_price: order.price,
                        size: order.size,
                        reference_price: order.reference_price,
                        coin: order.coin,
                        order_id: copy_id(&result.order_id),
                        entry_time: now,
                    },
                );
            },
        }
        Vec::new()
    }

    /// Handles the rejection of an order.
    pub fn on_order_rejected(&mut self, token_id: Option<&str>)
        ensures
            order_refused(
                *old(self),
                *final(self),
                match token_id {
                    Some(t) => Some(t@),
                    None => None,
                },
            ),
    {
        match token_id {
            Some(t) => {
                let _ = self.pending_orders.remove(t);
                let _ = self.pending_stop_loss.remove(t);
            },
            None => {},
        }
    }
}

} // verus!
