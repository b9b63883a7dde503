//! The rules of the combined strategy: what it trades, sells and remembers.
use crate::config::ArbitrageConfig;
use crate::crypto_arb::strategy::CryptoArbitrageStrategy;
use crate::crypto_arb::types::{
    ArbitragePosition, MarketWithReference, PendingOrder, ReferenceQuality,
};
use crate::decimal::{
    Decimal, Overflow, at_most, dec, difference_of, less, minus, one, over, plus, quotient_of,
    sum_of, zero,
};
use crate::domain::market::{BoundarySnapshot, confidence_of, winner_of};
use crate::domain::position::{ArbitrageMode, ArbitrageOpportunity};
use crate::exchange::{
    Action, ActionView, ChainQuote, ChainlinkPrice, LogLevel, MarketInfo, OrderRequest,
    OrderResult, OrderSide, OrderType, OrderbookSnapshot, OutcomeSide, TokenId, TokenIds, acts,
};
use crate::fee_math::taker_fee_of;
use crate::runtime::{PRICE_HISTORY_SIZE, PriceEntry, lists};
use crate::services::feed::{boundaries_with, near_boundary};
use crate::services::market::{find_ticker, first_ticker, quote_for, window_of};
use crate::services::pricing::{boundary_key, historical_reference, history_of};
use crate::sizing::margins_of;
use crate::table::{
    Table, distinct_keys, dropped, has_key, lemma_has_row, lemma_lookup_dropped,
    lemma_lookup_stored, lookup, stored,
};
use crate::text::{contains_text, int_text, occurs, opt_text, owned};
use crate::time::{DateTime, secs_between};
use crate::value::{
    comparing_compares_values, difference_is_exact, differences_add_up, is_ratio,
    quotients_compare, quotients_divide, signs_agree, slack, sum_is_exact, sums_add_up, value,
    value_of_hundredths,
};
use vstd::prelude::*;
use vstd::string::*;

verus! {

/// The best ask of a token.
pub open spec fn ask_in(books: Seq<(Seq<char>, OrderbookSnapshot)>, token: Seq<char>) -> Option<
    Decimal,
> {
    match lookup(books, token) {
        Some(b) => b.ask(),
        None => None,
    }
}

/// The best ask of a token.
pub fn find_ask(books: &Table<OrderbookSnapshot>, token: &str) -> (r: Option<Decimal>)
    ensures
        r == ask_in(books.rows(), token@),
{
    match books.get(token) {
        Some(b) => b.best_ask(),
        None => None,
    }
}

/// A market has an open position or an unconfirmed order.
pub open spec fn exposed(
    positions: Seq<ArbitragePosition>,
    pending: Seq<(Seq<char>, PendingOrder)>,
    market: Seq<char>,
) -> bool {
    ||| exists|i: int| 0 <= i < positions.len() && (#[trigger] positions[i]).market_id@ == market
    ||| exists|i: int| 0 <= i < pending.len() && (#[trigger] pending[i]).1.market_id@ == market
}

/// A list of opportunities that may fail to come about.
pub open spec fn found(r: Result<Vec<ArbitrageOpportunity>, Overflow>) -> Option<
    Seq<ArbitrageOpportunity>,
> {
    match r {
        Ok(v) => Some(v@),
        Err(_) => None,
    }
}

/// The ask of the outcome that the price points to.
pub open spec fn side_ask(side: OutcomeSide, up: Option<Decimal>, down: Option<Decimal>) -> Option<
    Decimal,
> {
    if side.bets_up() {
        up
    } else {
        down
    }
}

/// The token of an outcome.
pub open spec fn side_token(ids: TokenIds, side: OutcomeSide) -> TokenId {
    if side.bets_up() {
        ids.outcome_a
    } else {
        ids.outcome_b
    }
}

/// The token of an outcome.
pub fn token_of<'a>(ids: &'a TokenIds, side: OutcomeSide) -> (r: &'a TokenId)
    ensures
        *r == side_token(*ids, side),
{
    if side.is_up() {
        &ids.outcome_a
    } else {
        &ids.outcome_b
    }
}

/// The tail-end trade applies: less than two minutes are left and the predicted outcome asks
/// for 0.90 or more.
pub open spec fn tail_end_applies(
    m: MarketWithReference,
    price: Decimal,
    up: Option<Decimal>,
    down: Option<Decimal>,
    left: int,
) -> bool {
    match winner_of(m.reference_price, price) {
        Some(side) => left < 120 && side_ask(side, up, down) is Some && at_most(
            dec(90, 2),
            side_ask(side, up, down)->0,
        ),
        None => false,
    }
}

/// The tail-end opportunity. `None` is an overflow.
pub open spec fn tail_end_found(
    config: ArbitrageConfig,
    m: MarketWithReference,
    price: Decimal,
    up: Option<Decimal>,
    down: Option<Decimal>,
) -> Option<Seq<ArbitrageOpportunity>> {
    let side = winner_of(m.reference_price, price)->0;
    let ask = side_ask(side, up, down)->0;
    match margins_of(false, config.fee.taker_fee_rate, ask) {
        None => None,
        Some((gross, fee, net)) => Some(
            seq![
                ArbitrageOpportunity {
                    mode: ArbitrageMode::TailEnd,
                    market_id: m.market.id,
                    outcome_to_buy: side,
                    token_id: side_token(m.market.token_ids, side),
                    buy_price: ask,
                    confidence: one(),
                    profit_margin: gross,
                    estimated_fee: fee,
                    net_margin: net,
                },
            ],
        ),
    }
}

/// One leg of a two-sided trade.
pub open spec fn leg(
    m: MarketWithReference,
    side: OutcomeSide,
    ask: Decimal,
    gross: Decimal,
    fee: Decimal,
    net: Decimal,
) -> ArbitrageOpportunity {
    ArbitrageOpportunity {
        mode: ArbitrageMode::TwoSided,
        market_id: m.market.id,
        outcome_to_buy: side,
        token_id: side_token(m.market.token_ids, side),
        buy_price: ask,
        confidence: one(),
        profit_margin: gross,
        estimated_fee: fee,
        net_margin: net,
    }
}

/// The two legs of a two-sided trade whose asks sum to `combined`: both outcomes, unless the
/// fees eat the profit. Margins and fees are those of the pair. `None` is an overflow.
pub open spec fn two_sided_found(
    config: ArbitrageConfig,
    m: MarketWithReference,
    up: Decimal,
    down: Decimal,
    combined: Decimal,
) -> Option<Seq<ArbitrageOpportunity>> {
    let rate = config.fee.taker_fee_rate;
    let gross = minus(Some(one()), Some(combined));
    let fee_up = taker_fee_of(up, rate);
    let fee_down = taker_fee_of(down, rate);
    let fees = plus(fee_up, fee_down);
    match minus(gross, fees) {
        None => None,
        Some(net) => if at_most(net, zero()) {
            Some(Seq::empty())
        } else {
            Some(
                seq![
                    leg(m, OutcomeSide::Up, up, gross->0, fees->0, net),
                    leg(m, OutcomeSide::Down, down, gross->0, fees->0, net),
                ],
            )
        },
    }
}

/// Least net margin of a confirmed trade, given the seconds left.
pub open spec fn margin_floor(config: ArbitrageConfig, left: int) -> Decimal {
    if left < 300 {
        config.late_window_margin
    } else {
        config.min_profit_margin
    }
}

/// The confirmed opportunity: the predicted outcome, at a confidence of 0.50 or more and a
/// sufficient net margin. `None` is an overflow.
pub open spec fn confirmed_found(
    config: ArbitrageConfig,
    m: MarketWithReference,
    price: Decimal,
    up: Option<Decimal>,
    down: Option<Decimal>,
    left: int,
) -> Option<Seq<ArbitrageOpportunity>> {
    match winner_of(m.reference_price, price) {
        None => Some(Seq::empty()),
        Some(side) => match side_ask(side, up, down) {
            None => Some(Seq::empty()),
            Some(ask) => match (
                confidence_of(
                    m.reference_price,
                    m.reference_quality.factor(),
                    price,
                    ask,
                    left as i64,
                ),
                margins_of(false, config.fee.taker_fee_rate, ask),
            ) {
                (Some(confidence), Some((gross, fee, net))) => if at_most(dec(50, 2), confidence)
                    && at_most(margin_floor(config, left), net) {
                    Some(
                        seq![
                            ArbitrageOpportunity {
                                mode: ArbitrageMode::Confirmed,
                                market_id: m.market.id,
                                outcome_to_buy: side,
                                token_id: side_token(m.market.token_ids, side),
                                buy_price: ask,
                                confidence,
                                profit_margin: gross,
                                estimated_fee: fee,
                                net_margin: net,
                            },
                        ],
                    )
                } else {
                    Some(Seq::empty())
                },
                _ => None,
            },
        },
    }
}

/// The opportunities that two asks and the seconds left give: tail-end first, else
/// two-sided, else confirmed. `None` is an overflow.
pub open spec fn opportunities_at(
    config: ArbitrageConfig,
    m: MarketWithReference,
    price: Decimal,
    up: Option<Decimal>,
    down: Option<Decimal>,
    left: int,
) -> Option<Seq<ArbitrageOpportunity>> {
    if tail_end_applies(m, price, up, down, left) {
        tail_end_found(config, m, price, up, down)
    } else if up is Some && down is Some {
        match plus(up, down) {
            None => None,
            Some(combined) => if less(combined, dec(98, 2)) {
                two_sided_found(config, m, up->0, down->0, combined)
            } else {
                confirmed_found(config, m, price, up, down, left)
            },
        }
    } else {
        confirmed_found(config, m, price, up, down, left)
    }
}

/// The opportunities of a market: none once it has ended, nor while it is exposed. `None` is
/// an overflow.
pub open spec fn opportunities_of(
    config: ArbitrageConfig,
    positions: Seq<ArbitragePosition>,
    pending: Seq<(Seq<char>, PendingOrder)>,
    m: MarketWithReference,
    price: Decimal,
    books: Seq<(Seq<char>, OrderbookSnapshot)>,
    now: DateTime,
) -> Option<Seq<ArbitrageOpportunity>> {
    let left = secs_between(m.market.end_date, now);
    if left <= 0 || exposed(positions, pending, m.market.id@) {
        Some(Seq::empty())
    } else {
        opportunities_at(
            config,
            m,
            price,
            ask_in(books, m.market.token_ids.outcome_a@),
            ask_in(books, m.market.token_ids.outcome_b@),
            left,
        )
    }
}

/// A two-sided trade buys both outcomes of the market for less than 0.98 together, and keeps
/// a profit after the fees of both legs.
pub proof fn two_sided_trades_are_hedged(
    config: ArbitrageConfig,
    m: MarketWithReference,
    price: Decimal,
    up: Option<Decimal>,
    down: Option<Decimal>,
    left: int,
)
    requires
        opportunities_at(config, m, price, up, down, left) is Some,
        opportunities_at(config, m, price, up, down, left)->0.len() == 2,
    ensures
        ({
            let o = opportunities_at(config, m, price, up, down, left)->0;
            &&& o[0].mode == ArbitrageMode::TwoSided && o[1].mode == ArbitrageMode::TwoSided
            &&& o[0].token_id == m.market.token_ids.outcome_a
            &&& o[1].token_id == m.market.token_ids.outcome_b
            &&& less(plus(Some(o[0].buy_price), Some(o[1].buy_price))->0, dec(98, 2))
            &&& less(zero(), o[0].net_margin) && o[0].net_margin == o[1].net_margin
        }),
{
}

/// The net margin of every opportunity is its profit margin less its estimated fee.
pub proof fn net_margin_is_margin_less_fee(
    config: ArbitrageConfig,
    m: MarketWithReference,
    price: Decimal,
    up: Option<Decimal>,
    down: Option<Decimal>,
    left: int,
    i: int,
)
    requires
        opportunities_at(config, m, price, up, down, left) is Some,
        0 <= i < opportunities_at(config, m, price, up, down, left)->0.len(),
    ensures
        ({
            let o = opportunities_at(config, m, price, up, down, left)->0[i];
            Some(o.net_margin) == minus(Some(o.profit_margin), Some(o.estimated_fee))
        }),
{
}

/// An exposed market offers nothing, whatever its prices.
pub proof fn exposed_markets_are_left_alone(
    config: ArbitrageConfig,
    positions: Seq<ArbitragePosition>,
    pending: Seq<(Seq<char>, PendingOrder)>,
    m: MarketWithReference,
    price: Decimal,
    books: Seq<(Seq<char>, OrderbookSnapshot)>,
    now: DateTime,
)
    requires
        exposed(positions, pending, m.market.id@),
    ensures
        opportunities_of(config, positions, pending, m, price, books, now) == Some(
            Seq::<ArbitrageOpportunity>::empty(),
        ),
{
}

/// The shares of each leg of a two-sided trade: the base size over the sum of the asks. `None`
/// is an overflow.
pub open spec fn leg_size_of(config: ArbitrageConfig, opps: Seq<ArbitrageOpportunity>) -> Option<
    Option<Decimal>,
> {
    if opps.len() == 2 && opps[0].mode == ArbitrageMode::TwoSided {
        match plus(Some(opps[0].buy_price), Some(opps[1].buy_price)) {
            None => None,
            Some(combined) => if less(zero(), combined) {
                match over(Some(config.sizing.base_size), Some(combined)) {
                    None => None,
                    Some(size) => Some(Some(size)),
                }
            } else {
                Some(None)
            },
        }
    } else {
        Some(None)
    }
}

/// The order that buys an opportunity.
pub open spec fn purchase(o: ArbitrageOpportunity, size: Decimal) -> OrderRequest {
    OrderRequest {
        token_id: o.token_id,
        price: o.buy_price,
        size,
        side: OrderSide::Buy,
        order_type: OrderType::Fok,
        neg_risk: false,
        tick_size: None,
        fee_rate_bps: None,
        post_only: false,
    }
}

/// The record of an order until it is confirmed.
pub open spec fn pending_purchase(m: MarketWithReference, o: ArbitrageOpportunity, size: Decimal) -> PendingOrder {
    PendingOrder {
        market_id: m.market.id,
        token_id: o.token_id,
        side: o.outcome_to_buy,
        price: o.buy_price,
        size,
        reference_price: m.reference_price,
        coin: m.coin,
    }
}

/// What trading changes: the unconfirmed orders, and the actions so far.
pub ghost struct TradeBook {
    pub pending: Seq<(Seq<char>, PendingOrder)>,
    pub actions: Seq<ActionView>,
}

/// One opportunity is bought; none at a price of zero. `None` is an overflow.
pub open spec fn purchase_step(
    config: ArbitrageConfig,
    m: MarketWithReference,
    o: ArbitrageOpportunity,
    leg_size: Option<Decimal>,
    b: TradeBook,
) -> Option<TradeBook> {
    if o.buy_price.mantissa_of() == 0 {
        Some(b)
    } else {
        let size = if leg_size is Some {
            leg_size
        } else {
            over(Some(config.sizing.base_size), Some(o.buy_price))
        };
        match size {
            None => None,
            Some(n) => Some(
                TradeBook {
                    pending: stored(b.pending, o.token_id@, pending_purchase(m, o, n)),
                    actions: b.actions.push(ActionView::PlaceOrder(purchase(o, n)@)),
                },
            ),
        }
    }
}

/// The opportunities of a market are bought, one after the other. `None` is an overflow.
pub open spec fn purchase_path(
    config: ArbitrageConfig,
    m: MarketWithReference,
    opps: Seq<ArbitrageOpportunity>,
    leg_size: Option<Decimal>,
    b: TradeBook,
) -> Option<TradeBook>
    decreases opps.len(),
{
    if opps.len() == 0 {
        Some(b)
    } else {
        match purchase_path(config, m, opps.drop_last(), leg_size, b) {
            None => None,
            Some(c) => purchase_step(config, m, opps.last(), leg_size, c),
        }
    }
}

/// Once some purchases overflow, so do all of them.
pub proof fn lemma_purchase_overflows(
    config: ArbitrageConfig,
    m: MarketWithReference,
    opps: Seq<ArbitrageOpportunity>,
    leg_size: Option<Decimal>,
    b: TradeBook,
    n: int,
)
    requires
        0 <= n <= opps.len(),
        purchase_path(config, m, opps.take(n), leg_size, b) is None,
    ensures
        purchase_path(config, m, opps, leg_size, b) is None,
    decreases opps.len(),
{
    if n < opps.len() {
        assert(opps.drop_last().take(n) =~= opps.take(n));
        lemma_purchase_overflows(config, m, opps.drop_last(), leg_size, b, n);
    } else {
        assert(opps.take(n) =~= opps);
    }
}

/// The opportunities of a market are bought where the position limit allows all of them.
/// `None` is an overflow.
pub open spec fn market_step(
    config: ArbitrageConfig,
    positions: Seq<ArbitragePosition>,
    m: MarketWithReference,
    price: Decimal,
    books: Seq<(Seq<char>, OrderbookSnapshot)>,
    now: DateTime,
    b: TradeBook,
) -> Option<TradeBook> {
    match opportunities_of(config, positions, b.pending, m, price, books, now) {
        None => None,
        Some(opps) => if opps.len() == 0 || positions.len() + b.pending.len() + opps.len()
            > config.max_positions {
            Some(b)
        } else {
            match leg_size_of(config, opps) {
                None => None,
                Some(leg_size) => purchase_path(config, m, opps, leg_size, b),
            }
        },
    }
}

/// The markets of a coin are traded, one after the other. `None` is an overflow.
pub open spec fn market_path(
    config: ArbitrageConfig,
    positions: Seq<ArbitragePosition>,
    markets: Seq<(Seq<char>, MarketWithReference)>,
    coin: Seq<char>,
    price: Decimal,
    books: Seq<(Seq<char>, OrderbookSnapshot)>,
    now: DateTime,
    b: TradeBook,
) -> Option<TradeBook>
    decreases markets.len(),
{
    if markets.len() == 0 {
        Some(b)
    } else {
        let m = markets.last().1;
        match market_path(config, positions, markets.drop_last(), coin, price, books, now, b) {
            None => None,
            Some(c) => if m.coin@ == coin {
                market_step(config, positions, m, price, books, now, c)
            } else {
                Some(c)
            },
        }
    }
}

/// Once trading some markets overflows, so does trading all of them.
pub proof fn lemma_market_path_overflows(
    config: ArbitrageConfig,
    positions: Seq<ArbitragePosition>,
    markets: Seq<(Seq<char>, MarketWithReference)>,
    coin: Seq<char>,
    price: Decimal,
    books: Seq<(Seq<char>, OrderbookSnapshot)>,
    now: DateTime,
    b: TradeBook,
    n: int,
)
    requires
        0 <= n <= markets.len(),
        market_path(config, positions, markets.take(n), coin, price, books, now, b) is None,
    ensures
        market_path(config, positions, markets, coin, price, books, now, b) is None,
    decreases markets.len(),
{
    if n < markets.len() {
        assert(markets.drop_last().take(n) =~= markets.take(n));
        lemma_market_path_overflows(
            config,
            positions,
            markets.drop_last(),
            coin,
            price,
            books,
            now,
            b,
            n,
        );
    } else {
        assert(markets.take(n) =~= markets);
    }
}

/// Each purchase adds at most one unconfirmed order.
pub proof fn lemma_purchases_grow(
    config: ArbitrageConfig,
    m: MarketWithReference,
    opps: Seq<ArbitrageOpportunity>,
    leg_size: Option<Decimal>,
    b: TradeBook,
)
    requires
        purchase_path(config, m, opps, leg_size, b) is Some,
    ensures
        purchase_path(config, m, opps, leg_size, b)->0.pending.len() <= b.pending.len()
            + opps.len(),
    decreases opps.len(),
{
    if opps.len() > 0 {
        lemma_purchases_grow(config, m, opps.drop_last(), leg_size, b);
        let c = purchase_path(config, m, opps.drop_last(), leg_size, b)->0;
        if has_key(c.pending, opps.last().token_id@) {
            lemma_has_row(c.pending, opps.last().token_id@);
        }
    }
}

/// Trading a coin never takes positions and unconfirmed orders past the position limit.
pub proof fn trading_respects_the_limit(
    config: ArbitrageConfig,
    positions: Seq<ArbitragePosition>,
    markets: Seq<(Seq<char>, MarketWithReference)>,
    coin: Seq<char>,
    price: Decimal,
    books: Seq<(Seq<char>, OrderbookSnapshot)>,
    now: DateTime,
    b: TradeBook,
)
    requires
        positions.len() + b.pending.len() <= config.max_positions,
        market_path(config, positions, markets, coin, price, books, now, b) is Some,
    ensures
        positions.len() + market_path(
            config,
            positions,
            markets,
            coin,
            price,
            books,
            now,
            b,
        )->0.pending.len() <= config.max_positions,
    decreases markets.len(),
{
    if markets.len() > 0 {
        let h = markets.drop_last();
        let m = markets.last().1;
        trading_respects_the_limit(config, positions, h, coin, price, books, now, b);
        let c = market_path(config, positions, h, coin, price, books, now, b)->0;
        if m.coin@ == coin {
            let opps = opportunities_of(config, positions, c.pending, m, price, books, now)->0;
            if !(opps.len() == 0 || positions.len() + c.pending.len() + opps.len()
                > config.max_positions) {
                lemma_purchases_grow(config, m, opps, leg_size_of(config, opps)->0, c);
            }
        }
    }
}

/// A history with one more price; only the latest ones are kept.
pub open spec fn with_entry(entries: Seq<PriceEntry>, e: PriceEntry) -> Seq<PriceEntry> {
    if entries.len() + 1 > PRICE_HISTORY_SIZE {
        entries.push(e).skip(1)
    } else {
        entries.push(e)
    }
}

/// A history never outgrows its size, and its last price is the one just added.
pub proof fn entries_stay_bounded(entries: Seq<PriceEntry>, e: PriceEntry)
    requires
        entries.len() <= PRICE_HISTORY_SIZE,
    ensures
        0 < with_entry(entries, e).len() <= PRICE_HISTORY_SIZE,
        with_entry(entries, e).last() == e,
{
}

/// Adds a price to a history.
pub fn add_entry(entries: &mut Vec<PriceEntry>, e: PriceEntry)
    ensures
        final(entries)@ == with_entry(old(entries)@, e),
{
    entries.push(e);
    if entries.len() > PRICE_HISTORY_SIZE {
        let ghost all = entries@;
        let _ = entries.remove(0);
        assert(entries@ =~= all.skip(1));
    }
}

/// The most accurate reference price of a window: from the oracle's chain, else the boundary
/// price, else the best recorded price within 30 s, else the current price.
pub open spec fn best_reference(
    boundary: Option<BoundarySnapshot>,
    chain: Option<ChainlinkPrice>,
    entries: Option<Seq<PriceEntry>>,
    window_ts: i64,
    current: Decimal,
) -> (Decimal, ReferenceQuality) {
    if chain is Some {
        (chain->0.price, ReferenceQuality::OnChain)
    } else if boundary is Some {
        (boundary->0.price, ReferenceQuality::Exact)
    } else {
        match historical_reference(entries, window_ts, false) {
            Some(c) => (c.price, ReferenceQuality::Historical(c.staleness)),
            None => (current, ReferenceQuality::Current),
        }
    }
}

/// What the oracle's chain answers for a window, where it is asked.
pub open spec fn chain_answer(config: ArbitrageConfig, quotes: Seq<ChainQuote>, window_ts: i64) -> Option<
    ChainlinkPrice,
> {
    if config.use_chainlink {
        quote_for(quotes, window_ts)
    } else {
        None
    }
}

/// A market of a coin with the best reference that is known.
pub open spec fn referenced(
    config: ArbitrageConfig,
    boundaries: Seq<(Seq<char>, BoundarySnapshot)>,
    history: Seq<(Seq<char>, Seq<PriceEntry>)>,
    quotes: Seq<ChainQuote>,
    market: MarketInfo,
    coin: String,
    price: Decimal,
    now: DateTime,
) -> MarketWithReference {
    let window_ts = window_of(market, now);
    let (reference_price, reference_quality) = best_reference(
        lookup(boundaries, boundary_key(coin@, window_ts as int)),
        chain_answer(config, quotes, window_ts),
        lookup(history, coin@),
        window_ts,
        price,
    );
    MarketWithReference { market, reference_price, reference_quality, discovery_time: now, coin }
}

/// A price was taken in: recorded, kept at a boundary, and the market that waited for it was
/// activated with the actions `opened`.
pub open spec fn price_taken_in(
    pre: CryptoArbitrageStrategy,
    post: CryptoArbitrageStrategy,
    symbol: String,
    price: Decimal,
    source: String,
    now: DateTime,
    quotes: Seq<ChainQuote>,
    opened: Seq<ActionView>,
) -> bool {
    let entry = PriceEntry { received_at: now, price, source, source_ts: now };
    &&& post.price_history.rows() == stored(
        pre.price_history.rows(),
        symbol@,
        with_entry(history_of(pre.price_history.rows(), symbol@), entry),
    )
    &&& post.boundary_prices.rows() == (if near_boundary(now) {
        boundaries_with(pre.boundary_prices.rows(), symbol@, price, source, now)
    } else {
        pre.boundary_prices.rows()
    })
    &&& post.pending_discovery.rows() == dropped(pre.pending_discovery.rows(), symbol@)
    &&& match lookup(pre.pending_discovery.rows(), symbol@) {
        Some(market) => {
            &&& post.active_markets.rows() == stored(
                pre.active_markets.rows(),
                market.id@,
                referenced(
                    pre.config,
                    post.boundary_prices.rows(),
                    post.price_history.rows(),
                    quotes,
                    market,
                    symbol,
                    price,
                    now,
                ),
            )
            &&& opened == seq![Action::SubscribeMarket(market)@]
        },
        None => post.active_markets == pre.active_markets && opened.len() == 0,
    }
    &&& post == (CryptoArbitrageStrategy {
        price_history: post.price_history,
        boundary_prices: post.boundary_prices,
        pending_discovery: post.pending_discovery,
        active_markets: post.active_markets,
        ..pre
    })
}

/// A price was handled: it was taken in, then the markets of its coin were traded.
pub open spec fn crypto_price_handled(
    pre: CryptoArbitrageStrategy,
    post: CryptoArbitrageStrategy,
    symbol: String,
    price: Decimal,
    source: String,
    books: Seq<(Seq<char>, OrderbookSnapshot)>,
    now: DateTime,
    quotes: Seq<ChainQuote>,
    r: Result<Vec<Action>, Overflow>,
) -> bool {
    let mid = CryptoArbitrageStrategy { pending_orders: pre.pending_orders, ..post };
    let opened = match lookup(pre.pending_discovery.rows(), symbol@) {
        Some(market) => seq![Action::SubscribeMarket(market)@],
        None => Seq::empty(),
    };
    &&& price_taken_in(pre, mid, symbol, price, source, now, quotes, opened)
    &&& match market_path(
        pre.config,
        pre.positions@,
        post.active_markets.rows(),
        symbol@,
        price,
        books,
        now,
        (TradeBook { pending: pre.pending_orders.rows(), actions: opened }),
    ) {
        None => r is Err,
        Some(b) => {
            &&& r is Ok
            &&& b == (TradeBook {
                pending: post.pending_orders.rows(),
                actions: acts(r->Ok_0@),
            })
        },
    }
}

/// The latest price of a coin.
pub open spec fn latest_in(history: Seq<(Seq<char>, Seq<PriceEntry>)>, coin: Seq<char>) -> Option<
    Decimal,
> {
    let s = history_of(history, coin);
    if s.len() > 0 {
        Some(s.last().price)
    } else {
        None
    }
}

/// The price has moved against a position by enough; not without a price. `None` is an
/// overflow.
pub open spec fn reversed_of(
    history: Seq<(Seq<char>, Seq<PriceEntry>)>,
    pct: Decimal,
    pos: ArbitragePosition,
) -> Option<bool> {
    let entries = history_of(history, pos.coin@);
    if entries.len() == 0 {
        Some(false)
    } else {
        let current = entries.last().price;
        let diff = if pos.side.bets_up() {
            minus(Some(pos.reference_price), Some(current))
        } else {
            minus(Some(current), Some(pos.reference_price))
        };
        match over(diff, Some(pos.reference_price)) {
            Some(d) => Some(at_most(pct, d)),
            None => None,
        }
    }
}

/// A reversal is a move against the side held, of at least a share of the reference: a fall for
/// a bet on a rise, a rise for a bet on a fall. A price that has not moved against the side is
/// none, for a positive share. The 28th digit of the quotient is left to its rounding.
pub proof fn a_reversal_is_a_move_against_the_side(
    history: Seq<(Seq<char>, Seq<PriceEntry>)>,
    pct: Decimal,
    pos: ArbitragePosition,
    prices: Seq<PriceEntry>,
)
    requires
        lookup(history, pos.coin@) == Some(prices),
        prices.len() > 0,
        reversed_of(history, pct, pos) is Some,
        value(pos.reference_price) > 0 as real,
        difference_is_exact(pos.reference_price, prices.last().price),
        difference_is_exact(prices.last().price, pos.reference_price),
    ensures
        ({
            let (reference, current) = (value(pos.reference_price), value(prices.last().price));
            let share = value(pct);
            let up = pos.side == OutcomeSide::Up || pos.side == OutcomeSide::Yes;
            let reversed = reversed_of(history, pct, pos)->0;
            &&& up && reversed ==> current <= reference * (1 as real - share + slack(share))
            &&& up && current <= reference * (1 as real - share - slack(share)) ==> reversed
            &&& !up && reversed ==> current >= reference * (1 as real + share - slack(share))
            &&& !up && current >= reference * (1 as real + share + slack(share)) ==> reversed
            &&& share > 0 as real && up && current >= reference ==> !reversed
            &&& share > 0 as real && !up && current <= reference ==> !reversed
        }),
{
    let current = prices.last().price;
    let reference = pos.reference_price;
    let diff = if pos.side.bets_up() {
        difference_of(reference, current)->0
    } else {
        difference_of(current, reference)->0
    };
    differences_add_up(reference, current);
    differences_add_up(current, reference);
    quotients_compare(diff, reference, pct);
    let (r, c, p) = (value(reference), value(current), value(pct));
    let t = slack(p);
    assert(r * (p - t) == r * p - r * t && r * (p + t) == r * p + r * t && r * (1 as real - p + t)
        == r - r * p + r * t && r * (1 as real - p - t) == r - r * p - r * t && r * (1 as real + p
        - t) == r + r * p - r * t && r * (1 as real + p + t) == r + r * p + r * t)
        by (nonlinear_arith);
}

/// The sale that a position calls for: at the best bid, with more than a minute left, once
/// the price has reversed and the bid has dropped by enough. The outer `None` is an overflow.
pub open spec fn stop_sale_of(
    s: CryptoArbitrageStrategy,
    pos: ArbitragePosition,
    snapshot: OrderbookSnapshot,
    now: DateTime,
) -> Option<Option<OrderRequest>> {
    match lookup(s.active_markets.rows(), pos.market_id@) {
        None => Some(None),
        Some(m) => if secs_between(m.market.end_date, now) <= 60 {
            Some(None)
        } else {
            match reversed_of(s.price_history.rows(), s.config.stop_loss.reversal_pct, pos) {
                None => None,
                Some(reversed) => match snapshot.bid() {
                    None => Some(None),
                    Some(bid) => match minus(Some(pos.entry_price), Some(bid)) {
                        None => None,
                        Some(drop) => if reversed && at_most(s.config.stop_loss.min_drop, drop) {
                            Some(
                                Some(
                                    OrderRequest {
                                        token_id: pos.token_id,
                                        price: bid,
                                        size: pos.size,
                                        side: OrderSide::Sell,
                                        order_type: OrderType::Fok,
                                        neg_risk: false,
                                        tick_size: None,
                                        fee_rate_bps: None,
                                        post_only: false,
                                    },
                                ),
                            )
                        } else {
                            Some(None)
                        },
                    },
                },
            }
        },
    }
}

/// A stop-loss sells the whole position at the best bid: with more than a minute left, after a
/// move against the side held and a drop of the bid below the entry price, each of at least the
/// configured size, and not otherwise.
pub proof fn a_stop_sells_after_a_reversal_and_a_drop(
    s: CryptoArbitrageStrategy,
    pos: ArbitragePosition,
    snapshot: OrderbookSnapshot,
    now: DateTime,
    m: MarketWithReference,
    prices: Seq<PriceEntry>,
)
    requires
        lookup(s.active_markets.rows(), pos.market_id@) == Some(m),
        lookup(s.price_history.rows(), pos.coin@) == Some(prices),
        prices.len() > 0,
        snapshot.bids@.len() > 0,
        stop_sale_of(s, pos, snapshot, now) is Some,
        value(pos.reference_price) > 0 as real,
        difference_is_exact(pos.reference_price, prices.last().price),
        difference_is_exact(prices.last().price, pos.reference_price),
        difference_is_exact(pos.entry_price, snapshot.bids@[0].price),
    ensures
        ({
            let sale = stop_sale_of(s, pos, snapshot, now)->0;
            let bid = snapshot.bids@[0].price;
            let left = m.market.end_date.nanos_of() - now.nanos_of();
            let up = pos.side == OutcomeSide::Up || pos.side == OutcomeSide::Yes;
            let (reference, current) = (value(pos.reference_price), value(prices.last().price));
            let adverse = if up {
                reference - current
            } else {
                current - reference
            };
            let share = value(s.config.stop_loss.reversal_pct);
            let dropped_by = value(pos.entry_price) - value(bid);
            let enough = dropped_by >= value(s.config.stop_loss.min_drop);
            &&& sale is Some ==> left >= 61_000_000_000 && enough && adverse >= reference * (share
                - slack(share))
            &&& left >= 61_000_000_000 && enough && adverse >= reference * (share + slack(share))
                ==> sale is Some
            &&& sale is Some ==> sale->0.token_id == pos.token_id && sale->0.price == bid
                && sale->0.size == pos.size && sale->0.side == OrderSide::Sell
                && sale->0.order_type == OrderType::Fok
        }),
{
    let bid = snapshot.bids@[0].price;
    let pct = s.config.stop_loss.reversal_pct;
    if secs_between(m.market.end_date, now) > 60 {
        a_reversal_is_a_move_against_the_side(s.price_history.rows(), pct, pos, prices);
        differences_add_up(pos.entry_price, bid);
        comparing_compares_values(
            s.config.stop_loss.min_drop,
            difference_of(pos.entry_price, bid)->0,
        );
        let (r, p) = (value(pos.reference_price), value(pct));
        let t = slack(p);
        assert(r * (p - t) == r * p - r * t && r * (p + t) == r * p + r * t && r * (1 as real - p
            + t) == r - r * p + r * t && r * (1 as real - p - t) == r - r * p - r * t && r * (
        1 as real + p - t) == r + r * p - r * t && r * (1 as real + p + t) == r + r * p + r * t)
            by (nonlinear_arith);
    }
}

/// What checking stop-losses changes: the tokens with a sale in flight, and the actions so
/// far.
pub ghost struct StopBook {
    pub awaited: Seq<(Seq<char>, bool)>,
    pub actions: Seq<ActionView>,
}

/// The stop-loss of one position is checked, unless its sale is in flight. `None` is an
/// overflow.
pub open spec fn stop_step(
    s: CryptoArbitrageStrategy,
    pos: ArbitragePosition,
    snapshot: OrderbookSnapshot,
    now: DateTime,
    b: StopBook,
) -> Option<StopBook> {
    if pos.token_id@ != snapshot.token_id@ || has_key(b.awaited, pos.token_id@) {
        Some(b)
    } else {
        match stop_sale_of(s, pos, snapshot, now) {
            None => None,
            Some(None) => Some(b),
            Some(Some(order)) => Some(
                StopBook {
                    awaited: stored(b.awaited, pos.token_id@, true),
                    actions: b.actions.push(ActionView::PlaceOrder(order@)),
                },
            ),
        }
    }
}

/// The stop-losses of positions are checked, one after the other. `None` is an overflow.
pub open spec fn stop_path(
    s: CryptoArbitrageStrategy,
    positions: Seq<ArbitragePosition>,
    snapshot: OrderbookSnapshot,
    now: DateTime,
    b: StopBook,
) -> Option<StopBook>
    decreases positions.len(),
{
    if positions.len() == 0 {
        Some(b)
    } else {
        match stop_path(s, positions.drop_last(), snapshot, now, b) {
            None => None,
            Some(c) => stop_step(s, positions.last(), snapshot, now, c),
        }
    }
}

/// Once checking some positions overflows, so does checking all of them.
pub proof fn lemma_stop_path_overflows(
    s: CryptoArbitrageStrategy,
    positions: Seq<ArbitragePosition>,
    snapshot: OrderbookSnapshot,
    now: DateTime,
    b: StopBook,
    n: int,
)
    requires
        0 <= n <= positions.len(),
        stop_path(s, positions.take(n), snapshot, now, b) is None,
    ensures
        stop_path(s, positions, snapshot, now, b) is None,
    decreases positions.len(),
{
    if n < positions.len() {
        assert(positions.drop_last().take(n) =~= positions.take(n));
        lemma_stop_path_overflows(s, positions.drop_last(), snapshot, now, b, n);
    } else {
        assert(positions.take(n) =~= positions);
    }
}

/// A stop-loss sale in flight is not asked for again.
pub proof fn a_stop_is_asked_once(
    s: CryptoArbitrageStrategy,
    pos: ArbitragePosition,
    snapshot: OrderbookSnapshot,
    now: DateTime,
    b: StopBook,
    later: OrderbookSnapshot,
    later_time: DateTime,
)
    requires
        stop_step(s, pos, snapshot, now, b) is Some,
        stop_step(s, pos, snapshot, now, b)->0.actions != b.actions,
    ensures
        ({
            let c = stop_step(s, pos, snapshot, now, b)->0;
            stop_step(s, pos, later, later_time, c) == Some(c)
        }),
{
    lemma_lookup_stored(b.awaited, pos.token_id@, true, pos.token_id@);
}

/// The final minute is left alone: no stop-loss sells then.
pub proof fn no_stop_in_the_final_minute(
    s: CryptoArbitrageStrategy,
    pos: ArbitragePosition,
    snapshot: OrderbookSnapshot,
    now: DateTime,
)
    requires
        lookup(s.active_markets.rows(), pos.market_id@) is Some,
        secs_between(lookup(s.active_markets.rows(), pos.market_id@)->0.market.end_date, now) <= 60,
    ensures
        stop_sale_of(s, pos, snapshot, now) == Some(None::<OrderRequest>),
{
}

/// An order book was handled: its best ask was kept, and the stop-losses of its token were
/// checked.
pub open spec fn book_handled(
    pre: CryptoArbitrageStrategy,
    post: CryptoArbitrageStrategy,
    snapshot: OrderbookSnapshot,
    now: DateTime,
    r: Result<Vec<Action>, Overflow>,
) -> bool {
    &&& match snapshot.ask() {
        Some(ask) => post.cached_asks.rows() == stored(
            pre.cached_asks.rows(),
            snapshot.token_id@,
            ask,
        ),
        None => post.cached_asks == pre.cached_asks,
    }
    &&& match stop_path(
        pre,
        pre.positions@,
        snapshot,
        now,
        (StopBook { awaited: pre.pending_stop_loss.rows(), actions: Seq::empty() }),
    ) {
        None => r is Err,
        Some(b) => r is Ok && b == (StopBook {
            awaited: post.pending_stop_loss.rows(),
            actions: acts(r->Ok_0@),
        }),
    }
    &&& post == (CryptoArbitrageStrategy {
        cached_asks: post.cached_asks,
        pending_stop_loss: post.pending_stop_loss,
        ..pre
    })
}

/// The coin that an upper-case question is about: by name, else by a configured symbol.
pub open spec fn coin_asked(upper: Seq<char>, coins: Seq<String>) -> Option<Seq<char>> {
    if occurs(upper, "BITCOIN"@) {
        Some("BTC"@)
    } else if occurs(upper, "ETHEREUM"@) {
        Some("ETH"@)
    } else if occurs(upper, "SOLANA"@) {
        Some("SOL"@)
    } else {
        first_ticker(upper, coins)
    }
}

/// The coin that an upper-case question is about.
pub fn coin_in(upper: &str, coins: &Vec<String>) -> (r: Option<String>)
    ensures
        opt_text(r) == coin_asked(upper@, coins@),
{
    if contains_text(upper, "BITCOIN") {
        Some(owned("BTC"))
    } else if contains_text(upper, "ETHEREUM") {
        Some(owned("ETH"))
    } else if contains_text(upper, "SOLANA") {
        Some(owned("SOL"))
    } else {
        find_ticker(upper, coins)
    }
}

/// A market was discovered: a market of a configured coin is activated with its reference,
/// or waits while its coin has no price.
pub open spec fn market_discovered(
    pre: CryptoArbitrageStrategy,
    post: CryptoArbitrageStrategy,
    market: MarketInfo,
    coin: Option<Seq<char>>,
    prices: Seq<(Seq<char>, Decimal)>,
    now: DateTime,
    quotes: Seq<ChainQuote>,
    actions: Seq<ActionView>,
) -> bool {
    if coin is None || !lists(pre.config.coins@, coin->0) {
        post == pre && actions.len() == 0
    } else {
        match lookup(prices, coin->0) {
            None => {
                &&& actions.len() == 0
                &&& post.pending_discovery.rows() == stored(
                    pre.pending_discovery.rows(),
                    coin->0,
                    market,
                )
                &&& post == (CryptoArbitrageStrategy {
                    pending_discovery: post.pending_discovery,
                    ..pre
                })
            },
            Some(price) => {
                let added = lookup(post.active_markets.rows(), market.id@);
                &&& actions == seq![Action::SubscribeMarket(market)@]
                &&& added is Some && added->0.coin@ == coin->0
                &&& added->0 == referenced(
                    pre.config,
                    pre.boundary_prices.rows(),
                    pre.price_history.rows(),
                    quotes,
                    market,
                    added->0.coin,
                    price,
                    now,
                )
                &&& post.active_markets.rows() == stored(
                    pre.active_markets.rows(),
                    market.id@,
                    added->0,
                )
                &&& post == (CryptoArbitrageStrategy {
                    active_markets: post.active_markets,
                    ..pre
                })
            },
        }
    }
}

/// The positions for which `keep` holds, in order.
pub open spec fn positions_where(
    s: Seq<ArbitragePosition>,
    keep: spec_fn(ArbitragePosition) -> bool,
) -> Seq<ArbitragePosition>
    decreases s.len(),
{
    if s.len() == 0 {
        s
    } else if keep(s.last()) {
        positions_where(s.drop_last(), keep).push(s.last())
    } else {
        positions_where(s.drop_last(), keep)
    }
}

/// Exactly the positions that are to be kept are kept.
pub proof fn kept_positions_are_those_asked_for(
    s: Seq<ArbitragePosition>,
    keep: spec_fn(ArbitragePosition) -> bool,
    p: ArbitragePosition,
)
    ensures
        positions_where(s, keep).contains(p) <==> s.contains(p) && keep(p),
    decreases s.len(),
{
    if s.len() > 0 {
        let h = s.drop_last();
        let t = positions_where(h, keep);
        kept_positions_are_those_asked_for(h, keep, p);
        assert(s =~= h.push(s.last()));
        assert(h.push(s.last()).contains(p) <==> h.contains(p) || p == s.last()) by {
            if h.contains(p) {
                let i = choose|i: int| 0 <= i < h.len() && h[i] == p;
                assert(h.push(s.last())[i] == p);
            }
            assert(h.push(s.last())[h.len() as int] == s.last());
        }
        assert(t.push(s.last()).contains(p) <==> t.contains(p) || p == s.last()) by {
            if t.contains(p) {
                let i = choose|i: int| 0 <= i < t.len() && t[i] == p;
                assert(t.push(s.last())[i] == p);
            }
            assert(t.push(s.last())[t.len() as int] == s.last());
        }
    }
}

/// A position is of another token.
pub open spec fn no_token(token: Seq<char>) -> spec_fn(ArbitragePosition) -> bool {
    |p: ArbitragePosition| p.token_id@ != token
}

/// A position is in another market.
pub open spec fn no_market(market: Seq<char>) -> spec_fn(ArbitragePosition) -> bool {
    |p: ArbitragePosition| p.market_id@ != market
}

/// The notice that a market ended with positions open.
pub open spec fn expiry_notice(market: Seq<char>, count: int) -> Seq<char> {
    "Market "@ + market + " expired with "@ + int_text(count) + " open position(s)"@
}

/// A market expired: it is dropped with its positions, and unsubscribed.
pub open spec fn market_expired(
    pre: CryptoArbitrageStrategy,
    post: CryptoArbitrageStrategy,
    market: Seq<char>,
    actions: Seq<ActionView>,
) -> bool {
    let gone = positions_where(pre.positions@, |p: ArbitragePosition| p.market_id@ == market);
    &&& post.active_markets.rows() == dropped(pre.active_markets.rows(), market)
    &&& post.positions@ == positions_where(pre.positions@, no_market(market))
    &&& actions == (if gone.len() > 0 {
        seq![
            ActionView::UnsubscribeMarket(market),
            ActionView::Log {
                level: LogLevel::Info,
                message: expiry_notice(market, gone.len() as int),
            },
        ]
    } else {
        seq![ActionView::UnsubscribeMarket(market)]
    })
    &&& post == (CryptoArbitrageStrategy {
        active_markets: post.active_markets,
        positions: post.positions,
        ..pre
    })
}

/// The exchange answered an order. A sale in flight is settled: on success the positions of
/// its token are gone. Otherwise an unconfirmed order is settled: on success it becomes a
/// position.
pub open spec fn order_answered(
    pre: CryptoArbitrageStrategy,
    post: CryptoArbitrageStrategy,
    result: OrderResult,
    now: DateTime,
) -> bool {
    let token = result.token_id@;
    if has_key(pre.pending_stop_loss.rows(), token) {
        &&& post.pending_stop_loss.rows() == dropped(pre.pending_stop_loss.rows(), token)
        &&& post.positions@ == (if result.success {
            positions_where(pre.positions@, no_token(token))
        } else {
            pre.positions@
        })
        &&& post == (CryptoArbitrageStrategy {
            pending_stop_loss: post.pending_stop_loss,
            positions: post.positions,
            ..pre
        })
    } else {
        match lookup(pre.pending_orders.rows(), token) {
            None => post == pre,
            Some(order) => {
                &&& post.pending_orders.rows() == dropped(pre.pending_orders.rows(), token)
                &&& post.positions@ == (if result.success {
                    pre.positions@.push(
                        ArbitragePosition {
                            market_id: order.market_id,
                            token_id: order.token_id,
                            side: order.side,
                            entry_price: order.price,
                            size: order.size,
                            reference_price: order.reference_price,
                            coin: order.coin,
                            order_id: result.order_id,
                            entry_time: now,
                        },
                    )
                } else {
                    pre.positions@
                })
                &&& post == (CryptoArbitrageStrategy {
                    pending_orders: post.pending_orders,
                    positions: post.positions,
                    ..pre
                })
            },
        }
    }
}

/// An order was rejected: neither an order nor a sale of its token is awaited any more.
pub open spec fn order_refused(
    pre: CryptoArbitrageStrategy,
    post: CryptoArbitrageStrategy,
    token: Option<Seq<char>>,
) -> bool {
    match token {
        None => post == pre,
        Some(t) => {
            &&& post.pending_orders.rows() == dropped(pre.pending_orders.rows(), t)
            &&& post.pending_stop_loss.rows() == dropped(pre.pending_stop_loss.rows(), t)
            &&& post == (CryptoArbitrageStrategy {
                pending_orders: post.pending_orders,
                pending_stop_loss: post.pending_stop_loss,
                ..pre
            })
        },
    }
}

/// In the last two minutes the outcome that the price points to is bought where it asks for 0.90 or
/// more: that outcome alone, at its ask, with full confidence.
pub proof fn the_near_certain_outcome_is_bought(
    config: ArbitrageConfig,
    m: MarketWithReference,
    price: Decimal,
    up: Option<Decimal>,
    down: Option<Decimal>,
    left: int,
)
    requires
        opportunities_at(config, m, price, up, down, left) is Some,
        left < 120,
        value(price) > value(m.reference_price) && up is Some && value(up->0) * (10 as real)
            >= 9 as real || value(price) < value(m.reference_price) && down is Some && value(
            down->0,
        ) * (10 as real) >= 9 as real,
    ensures
        ({
            let found = opportunities_at(config, m, price, up, down, left)->0;
            let rises = value(price) > value(m.reference_price);
            &&& found.len() == 1
            &&& found[0].mode == ArbitrageMode::TailEnd && value(found[0].confidence) == 1 as real
            &&& rises ==> found[0].outcome_to_buy == OutcomeSide::Up && found[0].token_id
                == m.market.token_ids.outcome_a && found[0].buy_price == up->0
            &&& !rises ==> found[0].outcome_to_buy == OutcomeSide::Down && found[0].token_id
                == m.market.token_ids.outcome_b && found[0].buy_price == down->0
        }),
{
    comparing_compares_values(m.reference_price, price);
    comparing_compares_values(price, m.reference_price);
    signs_agree(one());
    value_of_hundredths(90);
    if up is Some {
        comparing_compares_values(dec(90, 2), up->0);
    }
    if down is Some {
        comparing_compares_values(dec(90, 2), down->0);
    }
}

/// A tail-end trade is made only in the last two minutes, on the outcome that the price points to,
/// at an ask of 0.90 or more.
pub proof fn a_tail_end_trade_is_near_certain(
    config: ArbitrageConfig,
    m: MarketWithReference,
    price: Decimal,
    up: Option<Decimal>,
    down: Option<Decimal>,
    left: int,
    i: int,
)
    requires
        opportunities_at(config, m, price, up, down, left) is Some,
        0 <= i < opportunities_at(config, m, price, up, down, left)->0.len(),
        opportunities_at(config, m, price, up, down, left)->0[i].mode == ArbitrageMode::TailEnd,
    ensures
        ({
            let o = opportunities_at(config, m, price, up, down, left)->0[i];
            &&& left < 120
            &&& value(o.buy_price) * (10 as real) >= 9 as real
            &&& value(price) > value(m.reference_price) && up == Some(o.buy_price)
                && o.outcome_to_buy == OutcomeSide::Up || value(price) < value(m.reference_price)
                && down == Some(o.buy_price) && o.outcome_to_buy == OutcomeSide::Down
        }),
{
    comparing_compares_values(m.reference_price, price);
    comparing_compares_values(price, m.reference_price);
    value_of_hundredths(90);
    if up is Some {
        comparing_compares_values(dec(90, 2), up->0);
    }
    if down is Some {
        comparing_compares_values(dec(90, 2), down->0);
    }
}

/// Both outcomes are bought where, outside a tail-end trade, they together ask for less than 0.98
/// and the fees of both leave a profit; and not otherwise.
pub proof fn both_outcomes_are_bought_below_par(
    config: ArbitrageConfig,
    m: MarketWithReference,
    price: Decimal,
    up: Decimal,
    down: Decimal,
    left: int,
    fee_up: Decimal,
    fee_down: Decimal,
)
    requires
        left >= 120,
        taker_fee_of(up, config.fee.taker_fee_rate) == Some(fee_up),
        taker_fee_of(down, config.fee.taker_fee_rate) == Some(fee_down),
        sum_is_exact(up, down),
        difference_is_exact(one(), sum_of(up, down)->0),
        sum_is_exact(fee_up, fee_down),
        difference_is_exact(
            difference_of(one(), sum_of(up, down)->0)->0,
            sum_of(fee_up, fee_down)->0,
        ),
        opportunities_at(config, m, price, Some(up), Some(down), left) is Some,
    ensures
        ({
            let found = opportunities_at(config, m, price, Some(up), Some(down), left)->0;
            let profit = 1 as real - value(up) - value(down) - value(fee_up) - value(fee_down);
            let cheap = (value(up) + value(down)) * (100 as real) < 98 as real;
            &&& found.len() == 2 <==> cheap && profit > 0 as real
            &&& cheap && profit <= 0 as real ==> found.len() == 0
            &&& found.len() == 2 ==> value(found[0].net_margin) == profit && found[0].buy_price
                == up && found[1].buy_price == down && found[0].outcome_to_buy == OutcomeSide::Up
                && found[1].outcome_to_buy == OutcomeSide::Down
        }),
{
    sums_add_up(up, down);
    let both = sum_of(up, down)->0;
    differences_add_up(one(), both);
    sums_add_up(fee_up, fee_down);
    let gross = difference_of(one(), both)->0;
    let fees = sum_of(fee_up, fee_down)->0;
    differences_add_up(gross, fees);
    signs_agree(one());
    value_of_hundredths(98);
    comparing_compares_values(both, dec(98, 2));
    comparing_compares_values(difference_of(gross, fees)->0, zero());
}

/// A confirmed trade buys the outcome that the price points to, at its ask, with a confidence of at
/// least 0.50 and a net margin of at least the floor; and is made wherever these hold, outside a
/// tail-end and a two-sided trade.
pub proof fn a_confirmed_trade_is_confident_and_pays(
    config: ArbitrageConfig,
    m: MarketWithReference,
    price: Decimal,
    up: Option<Decimal>,
    down: Option<Decimal>,
    left: int,
    ask: Decimal,
    confidence: Decimal,
)
    requires
        value(price) != value(m.reference_price),
        (if value(price) > value(m.reference_price) {
            up
        } else {
            down
        }) == Some(ask),
        confidence_of(
            m.reference_price,
            m.reference_quality.factor(),
            price,
            ask,
            left as i64,
        ) == Some(confidence),
        confirmed_found(config, m, price, up, down, left) is Some,
        margins_of(false, config.fee.taker_fee_rate, ask) is Some,
    ensures
        ({
            let found = confirmed_found(config, m, price, up, down, left)->0;
            let net = (margins_of(false, config.fee.taker_fee_rate, ask)->0).2;
            let floor = if left < 300 {
                config.late_window_margin
            } else {
                config.min_profit_margin
            };
            let good = value(confidence) * (2 as real) >= 1 as real && value(net) >= value(floor);
            &&& found.len() == 1 <==> good
            &&& found.len() <= 1
            &&& good ==> found[0].buy_price == ask && found[0].confidence == confidence
                && found[0].net_margin == net && found[0].mode == ArbitrageMode::Confirmed
            &&& good && value(price) > value(m.reference_price) ==> found[0].outcome_to_buy
                == OutcomeSide::Up && found[0].token_id == m.market.token_ids.outcome_a
            &&& good && value(price) < value(m.reference_price) ==> found[0].outcome_to_buy
                == OutcomeSide::Down && found[0].token_id == m.market.token_ids.outcome_b
        }),
{
    comparing_compares_values(m.reference_price, price);
    comparing_compares_values(price, m.reference_price);
    value_of_hundredths(50);
    comparing_compares_values(dec(50, 2), confidence);
    let net = (margins_of(false, config.fee.taker_fee_rate, ask)->0).2;
    comparing_compares_values(margin_floor(config, left), net);
}

/// A purchase spends the base size: its shares at its price, or, of a pair, its shares at the price
/// of both outcomes together. The 28th digit of the shares is left to rounding.
pub proof fn a_purchase_spends_the_base_size(
    config: ArbitrageConfig,
    m: MarketWithReference,
    o: ArbitrageOpportunity,
    b: TradeBook,
)
    requires
        value(o.buy_price) > 0 as real,
        purchase_step(config, m, o, None, b) is Some,
    ensures
        ({
            let c = purchase_step(config, m, o, None, b)->0;
            let placed = c.actions.last();
            &&& c.actions.len() == b.actions.len() + 1
            &&& placed is PlaceOrder
            &&& placed->PlaceOrder_0.token == o.token_id@ && placed->PlaceOrder_0.side
                == OrderSide::Buy && placed->PlaceOrder_0.price == o.buy_price
                && placed->PlaceOrder_0.order_type == OrderType::Fok
            &&& is_ratio(
                value(config.sizing.base_size),
                value(o.buy_price),
                value(placed->PlaceOrder_0.size),
            )
            &&& lookup(c.pending, o.token_id@) is Some && lookup(c.pending, o.token_id@)->0.size
                == placed->PlaceOrder_0.size
        }),
{
    signs_agree(o.buy_price);
    quotients_divide(config.sizing.base_size, o.buy_price);
    let n = quotient_of(config.sizing.base_size, o.buy_price)->0;
    lemma_lookup_stored(b.pending, o.token_id@, pending_purchase(m, o, n), o.token_id@);
}

/// The legs of a pair have the same shares, which cost the base size at the price of both outcomes
/// together. The 28th digit is left to rounding.
pub proof fn a_pair_spends_the_base_size(config: ArbitrageConfig, opps: Seq<ArbitrageOpportunity>)
    requires
        opps.len() == 2,
        opps[0].mode == ArbitrageMode::TwoSided,
        sum_is_exact(opps[0].buy_price, opps[1].buy_price),
        value(opps[0].buy_price) + value(opps[1].buy_price) > 0 as real,
        leg_size_of(config, opps) is Some,
    ensures
        leg_size_of(config, opps)->0 is Some,
        is_ratio(
            value(config.sizing.base_size),
            value(opps[0].buy_price) + value(opps[1].buy_price),
            value((leg_size_of(config, opps)->0)->0),
        ),
{
    sums_add_up(opps[0].buy_price, opps[1].buy_price);
    let both = sum_of(opps[0].buy_price, opps[1].buy_price)->0;
    signs_agree(both);
    quotients_divide(config.sizing.base_size, both);
}

/// The reference of a window is the oracle's price, else the boundary price, else the best of the
/// history, else the current price.
pub proof fn the_oracle_gives_the_best_reference(
    boundary: Option<BoundarySnapshot>,
    chain: Option<ChainlinkPrice>,
    entries: Option<Seq<PriceEntry>>,
    window_ts: i64,
    current: Decimal,
)
    ensures
        ({
            let (price, quality) = best_reference(boundary, chain, entries, window_ts, current);
            let recorded = historical_reference(entries, window_ts, false);
            &&& chain is Some ==> price == chain->0.price && quality == ReferenceQuality::OnChain
            &&& chain is None && boundary is Some ==> price == boundary->0.price && quality
                == ReferenceQuality::Exact
            &&& chain is None && boundary is None && recorded is Some ==> price
                == recorded->0.price && quality == ReferenceQuality::Historical(
                recorded->0.staleness,
            )
            &&& chain is None && boundary is None && recorded is None ==> price == current
                && quality == ReferenceQuality::Current
        }),
{
}

/// A market is traded where the limit leaves room for all of its opportunities, and not otherwise.
pub proof fn a_market_is_traded_within_the_limit(
    config: ArbitrageConfig,
    positions: Seq<ArbitragePosition>,
    m: MarketWithReference,
    price: Decimal,
    books: Seq<(Seq<char>, OrderbookSnapshot)>,
    now: DateTime,
    b: TradeBook,
    o: ArbitrageOpportunity,
)
    requires
        opportunities_of(config, positions, b.pending, m, price, books, now) == Some(seq![o]),
        o.mode != ArbitrageMode::TwoSided,
        value(o.buy_price) > 0 as real,
        market_step(config, positions, m, price, books, now, b) is Some,
    ensures
        ({
            let c = market_step(config, positions, m, price, books, now, b)->0;
            let room = positions.len() + b.pending.len() < config.max_positions;
            &&& !room ==> c == b
            &&& room ==> c.actions.len() == b.actions.len() + 1 && c.actions.last() is PlaceOrder
                && c.actions.last()->PlaceOrder_0.token == o.token_id@
                && c.actions.last()->PlaceOrder_0.price == o.buy_price && is_ratio(
                value(config.sizing.base_size),
                value(o.buy_price),
                value(c.actions.last()->PlaceOrder_0.size),
            )
        }),
{
    let opps = seq![o];
    assert(opps.drop_last() =~= Seq::<ArbitrageOpportunity>::empty());
    reveal_with_fuel(purchase_path, 3);
    if purchase_step(config, m, o, None, b) is Some {
        a_purchase_spends_the_base_size(config, m, o, b);
    }
}

/// An expired market is dropped with its positions and unsubscribed; other positions stay.
pub proof fn an_expired_market_is_dropped(
    pre: CryptoArbitrageStrategy,
    post: CryptoArbitrageStrategy,
    market: Seq<char>,
    actions: Seq<ActionView>,
    x: ArbitragePosition,
)
    requires
        market_expired(pre, post, market, actions),
        distinct_keys(pre.active_markets.rows()),
    ensures
        lookup(post.active_markets.rows(), market) is None,
        post.positions@.contains(x) <==> pre.positions@.contains(x) && x.market_id@ != market,
        actions.len() > 0 && actions[0] == ActionView::UnsubscribeMarket(market),
{
    lemma_lookup_dropped(pre.active_markets.rows(), market, market);
    kept_positions_are_those_asked_for(pre.positions@, no_market(market), x);
}

/// A confirmed sale takes away the positions of its token, and no others; a refused one takes away
/// none. A confirmed purchase is held at its price and size, a refused one is not.
pub proof fn an_answer_settles_the_order(
    pre: CryptoArbitrageStrategy,
    post: CryptoArbitrageStrategy,
    result: OrderResult,
    now: DateTime,
    x: ArbitragePosition,
)
    requires
        order_answered(pre, post, result, now),
        distinct_keys(pre.pending_orders.rows()),
        distinct_keys(pre.pending_stop_loss.rows()),
    ensures
        ({
            let token = result.token_id@;
            let order = lookup(pre.pending_orders.rows(), token);
            let sold = has_key(pre.pending_stop_loss.rows(), token);
            let last = post.positions@.last();
            &&& !has_key(post.pending_stop_loss.rows(), token)
            &&& sold && result.success ==> (post.positions@.contains(x)
                <==> pre.positions@.contains(x) && x.token_id@ != token)
            &&& !result.success ==> post.positions@ == pre.positions@
            &&& !sold && order is Some ==> lookup(post.pending_orders.rows(), token) is None
            &&& !sold && order is Some && result.success ==> post.positions@.len()
                == pre.positions@.len() + 1 && last.entry_price == order->0.price && last.size
                == order->0.size && last.token_id == order->0.token_id && last.side
                == order->0.side && last.reference_price == order->0.reference_price
                && last.entry_time == now
        }),
{
    let token = result.token_id@;
    lemma_lookup_dropped(pre.pending_orders.rows(), token, token);
    lemma_lookup_dropped(pre.pending_stop_loss.rows(), token, token);
    kept_positions_are_those_asked_for(pre.positions@, no_token(token), x);
}

/// The latest price of a coin is the last that was recorded.
pub proof fn the_latest_price_is_the_last(
    history: Seq<(Seq<char>, Seq<PriceEntry>)>,
    coin: Seq<char>,
    s: Seq<PriceEntry>,
)
    requires
        lookup(history, coin) == Some(s),
    ensures
        s.len() > 0 ==> latest_in(history, coin) == Some(s[s.len() - 1].price),
        s.len() == 0 ==> latest_in(history, coin) is None,
{
}

/// A history keeps every price until there are more than 200; then the oldest leaves.
pub proof fn a_history_keeps_its_last_prices(entries: Seq<PriceEntry>, e: PriceEntry)
    ensures
        ({
            let next = with_entry(entries, e);
            &&& next.len() > 0 && next.last() == e
            &&& entries.len() < 200 ==> next.drop_last() == entries
            &&& entries.len() >= 200 ==> next.drop_last() == entries.skip(1)
        }),
{
    let next = with_entry(entries, e);
    if entries.len() < 200 {
        assert(next.drop_last() =~= entries);
    } else {
        assert(next.drop_last() =~= entries.skip(1));
    }
}

/// A pair that asks for nothing, or for less, has no size of its own; nor has what is no pair.
pub proof fn only_a_pair_has_a_common_size(
    config: ArbitrageConfig,
    opps: Seq<ArbitrageOpportunity>,
)
    ensures
        opps.len() == 2 && opps[0].mode == ArbitrageMode::TwoSided && sum_is_exact(
            opps[0].buy_price,
            opps[1].buy_price,
        ) && value(opps[0].buy_price) + value(opps[1].buy_price) <= 0 as real ==> leg_size_of(
            config,
            opps,
        ) == Some(None::<Decimal>),
        opps.len() != 2 || opps[0].mode != ArbitrageMode::TwoSided ==> leg_size_of(config, opps)
            == Some(None::<Decimal>),
{
    if opps.len() == 2 && sum_is_exact(opps[0].buy_price, opps[1].buy_price) {
        sums_add_up(opps[0].buy_price, opps[1].buy_price);
        signs_agree(sum_of(opps[0].buy_price, opps[1].buy_price)->0);
    }
}

/// A market is exposed by each position and each unconfirmed order in it, and by nothing else.
pub proof fn positions_and_orders_expose_their_market(
    positions: Seq<ArbitragePosition>,
    pending: Seq<(Seq<char>, PendingOrder)>,
    market: Seq<char>,
)
    ensures
        forall|p: ArbitragePosition|
            positions.contains(p) && p.market_id@ == market ==> exposed(positions, pending, market),
        forall|row: (Seq<char>, PendingOrder)|
            pending.contains(row) && row.1.market_id@ == market ==> exposed(
                positions,
                pending,
                market,
            ),
        exposed(positions, pending, market) ==> (exists|p: ArbitragePosition|
            positions.contains(p) && p.market_id@ == market) || (exists|
            row: (Seq<char>, PendingOrder),
        | pending.contains(row) && row.1.market_id@ == market),
{
    if exposed(positions, pending, market) {
        if exists|i: int| 0 <= i < positions.len() && (#[trigger] positions[i]).market_id@ == market {
            let i = choose|i: int|
                0 <= i < positions.len() && (#[trigger] positions[i]).market_id@ == market;
            assert(positions.contains(positions[i]));
        } else {
            let i = choose|i: int|
                0 <= i < pending.len() && (#[trigger] pending[i]).1.market_id@ == market;
            assert(pending.contains(pending[i]));
        }
    }
}

} // verus!
