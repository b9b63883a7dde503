//! What the exchange hands in and takes back: markets, order books, orders and actions.
use crate::decimal::{Decimal, Overflow, at_most, ok_of, plus, zero};
use crate::runtime::counted;
use crate::table::{Table, lemma_lookup_stored, lookup, stored};
use crate::time::{DateTime, secs_between};
use crate::value::{comparing_compares_values, signs_agree, sum_is_exact, sums_add_up, value};
use vstd::prelude::*;

verus! {

/// Market identifier.
pub type MarketId = String;

/// Outcome token identifier.
pub type TokenId = String;

/// Order identifier.
pub type OrderId = String;

/// Outcome of a market.
#[derive(Clone, Copy, Debug, PartialEq, Eq, Structural)]
pub enum OutcomeSide {
    Up,
    Down,
    Yes,
    No,
}

impl OutcomeSide {
    /// Whether the outcome wins when the price ends above the reference.
    pub open spec fn bets_up(self) -> bool {
        self == OutcomeSide::Up || self == OutcomeSide::Yes
    }

    /// Whether the outcome wins when the price ends above the reference.
    pub fn is_up(self) -> (r: bool)
        ensures
            r == self.bets_up(),
    {
        matches!(self, OutcomeSide::Up | OutcomeSide::Yes)
    }

    /// The outcome's name.
    pub open spec fn name_of(self) -> Seq<char> {
        match self {
            OutcomeSide::Up => "Up"@,
            OutcomeSide::Down => "Down"@,
            OutcomeSide::Yes => "Yes"@,
            OutcomeSide::No => "No"@,
        }
    }

    /// The outcome's name.
    pub fn name(self) -> (r: &'static str)
        ensures
            r@ == self.name_of(),
    {
        match self {
            OutcomeSide::Up => "Up",
            OutcomeSide::Down => "Down",
            OutcomeSide::Yes => "Yes",
            OutcomeSide::No => "No",
        }
    }
}

/// Direction of an order.
#[derive(Clone, Copy, Debug, PartialEq, Eq, Structural)]
pub enum OrderSide {
    Buy,
    Sell,
}

/// How long an order stands: good till cancelled, fill or kill, fill and kill.
#[derive(Clone, Copy, Debug, PartialEq, Eq, Structural)]
pub enum OrderType {
    Gtc,
    Fok,
    Fak,
}

impl OrderType {
    /// The order type's name.
    pub open spec fn name_of(self) -> Seq<char> {
        match self {
            OrderType::Gtc => "Gtc"@,
            OrderType::Fok => "Fok"@,
            OrderType::Fak => "Fak"@,
        }
    }

    /// The order type's name.
    pub fn name(self) -> (r: &'static str)
        ensures
            r@ == self.name_of(),
    {
        match self {
            OrderType::Gtc => "Gtc",
            OrderType::Fok => "Fok",
            OrderType::Fak => "Fak",
        }
    }
}

/// The two outcome tokens of a market.
#[derive(Debug)]
pub struct TokenIds {
    pub outcome_a: TokenId,
    pub outcome_b: TokenId,
}

impl Clone for TokenIds {
    fn clone(&self) -> (r: Self)
        ensures
            r == *self,
    {
        TokenIds { outcome_a: self.outcome_a.clone(), outcome_b: self.outcome_b.clone() }
    }
}

/// A market.
#[derive(Debug)]
pub struct MarketInfo {
    pub id: MarketId,
    pub slug: String,
    pub question: String,
    pub start_date: Option<DateTime>,
    pub end_date: DateTime,
    pub token_ids: TokenIds,
    pub accepting_orders: bool,
    pub neg_risk: bool,
    pub min_order_size: Decimal,
    pub tick_size: Decimal,
    pub fee_rate_bps: u32,
}

impl Clone for MarketInfo {
    fn clone(&self) -> (r: Self)
        ensures
            r == *self,
    {
        MarketInfo {
            id: self.id.clone(),
            slug: self.slug.clone(),
            question: self.question.clone(),
            start_date: self.start_date,
            end_date: self.end_date,
            token_ids: self.token_ids.clone(),
            accepting_orders: self.accepting_orders,
            neg_risk: self.neg_risk,
            min_order_size: self.min_order_size,
            tick_size: self.tick_size,
            fee_rate_bps: self.fee_rate_bps,
        }
    }
}

impl View for MarketInfo {
    type V = MarketInfo;

    open spec fn view(&self) -> MarketInfo {
        *self
    }
}

impl MarketInfo {
    /// Whole seconds until the market ends; negative once it has.
    pub fn seconds_remaining_at(&self, now: DateTime) -> (r: i64)
        ensures
            r == secs_between(self.end_date, now),
            -20_000_000_000_000 <= r <= 20_000_000_000_000,
    {
        self.end_date.secs_since(now)
    }
}

/// A price level of an order book.
#[derive(Clone, Copy, Debug)]
pub struct OrderbookLevel {
    pub price: Decimal,
    pub size: Decimal,
}

/// An order book at an instant, best levels first.
#[derive(Debug)]
pub struct OrderbookSnapshot {
    pub token_id: TokenId,
    pub bids: Vec<OrderbookLevel>,
    pub asks: Vec<OrderbookLevel>,
    pub timestamp: DateTime,
}

/// The price of the first level.
pub open spec fn top_price(levels: Seq<OrderbookLevel>) -> Option<Decimal> {
    if levels.len() > 0 {
        Some(levels[0].price)
    } else {
        None
    }
}

/// The sizes, summed in order, of the levels that satisfy `counted`.
pub open spec fn depth_where(
    levels: Seq<OrderbookLevel>,
    counted: spec_fn(Decimal) -> bool,
) -> Option<Decimal>
    decreases levels.len(),
{
    if levels.len() == 0 {
        Some(zero())
    } else if counted(levels.last().price) {
        plus(depth_where(levels.drop_last(), counted), Some(levels.last().size))
    } else {
        depth_where(levels.drop_last(), counted)
    }
}

/// Once a prefix of the levels overflows, so do all of them.
proof fn lemma_depth_overflows(
    levels: Seq<OrderbookLevel>,
    counted: spec_fn(Decimal) -> bool,
    n: int,
)
    requires
        0 <= n <= levels.len(),
        depth_where(levels.take(n), counted) is None,
    ensures
        depth_where(levels, counted) is None,
    decreases levels.len(),
{
    if n < levels.len() {
        assert(levels.drop_last().take(n) =~= levels.take(n));
        lemma_depth_overflows(levels.drop_last(), counted, n);
    } else {
        assert(levels.take(n) =~= levels);
    }
}

impl OrderbookSnapshot {
    /// The best bid.
    pub open spec fn bid(&self) -> Option<Decimal> {
        top_price(self.bids@)
    }

    /// The best ask.
    pub open spec fn ask(&self) -> Option<Decimal> {
        top_price(self.asks@)
    }

    /// The best bid.
    pub fn best_bid(&self) -> (r: Option<Decimal>)
        ensures
            r == self.bid(),
    {
        if self.bids.len() > 0 {
            Some(self.bids[0].price)
        } else {
            None
        }
    }

    /// The best ask.
    pub fn best_ask(&self) -> (r: Option<Decimal>)
        ensures
            r == self.ask(),
    {
        if self.asks.len() > 0 {
            Some(self.asks[0].price)
        } else {
            None
        }
    }

    /// Shares bid for at `floor` or better.
    pub open spec fn bid_depth(&self, floor: Decimal) -> Option<Decimal> {
        depth_where(self.bids@, |p: Decimal| at_most(floor, p))
    }

    /// Shares offered at `ceiling` or better.
    pub open spec fn ask_depth(&self, ceiling: Decimal) -> Option<Decimal> {
        depth_where(self.asks@, |p: Decimal| at_most(p, ceiling))
    }

    /// Shares bid for at `floor` or better.
    pub fn bid_depth_down_to(&self, floor: Decimal) -> (r: Result<Decimal, Overflow>)
        ensures
            ok_of(r) == self.bid_depth(floor),
    {
        let ghost counted = |p: Decimal| at_most(floor, p);
        let mut sum: Decimal = Decimal::zero();
        let mut i: usize = 0;
        while i < self.bids.len()
            invariant
                i <= self.bids@.len(),
                counted == (|p: Decimal| at_most(floor, p)),
                depth_where(self.bids@.take(i as int), counted) == Some(sum),
            decreases self.bids@.len() - i,
        {
            assert(self.bids@.take(i as int + 1).drop_last() =~= self.bids@.take(i as int));
            if self.bids[i].price.ge(floor) {
                match sum.plus(self.bids[i].size) {
                    Ok(d) => {
                        sum = d;
                    },
                    Err(_) => {
                        proof {
                            lemma_depth_overflows(self.bids@, counted, i as int + 1);
                        }
                        return Err(Overflow);
                    },
                }
            }
            i += 1;
        }
        assert(self.bids@.take(i as int) =~= self.bids@);
        Ok(sum)
    }

    /// Shares offered at `ceiling` or better.
    pub fn ask_depth_up_to(&self, ceiling: Decimal) -> (r: Result<Decimal, Overflow>)
        ensures
            ok_of(r) == self.ask_depth(ceiling),
    {
        let ghost counted = |p: Decimal| at_most(p, ceiling);
        let mut sum: Decimal = Decimal::zero();
        let mut i: usize = 0;
        while i < self.asks.len()
            invariant
                i <= self.asks@.len(),
                counted == (|p: Decimal| at_most(p, ceiling)),
                depth_where(self.asks@.take(i as int), counted) == Some(sum),
            decreases self.asks@.len() - i,
        {
            assert(self.asks@.take(i as int + 1).drop_last() =~= self.asks@.take(i as int));
            if self.asks[i].price.le(ceiling) {
                match sum.plus(self.asks[i].size) {
                    Ok(d) => {
                        sum = d;
                    },
                    Err(_) => {
                        proof {
                            lemma_depth_overflows(self.asks@, counted, i as int + 1);
                        }
                        return Err(Overflow);
                    },
                }
            }
            i += 1;
        }
        assert(self.asks@.take(i as int) =~= self.asks@);
        Ok(sum)
    }
}

/// An order to be placed.
#[derive(Debug)]
pub struct OrderRequest {
    pub token_id: TokenId,
    pub price: Decimal,
    pub size: Decimal,
    pub side: OrderSide,
    pub order_type: OrderType,
    pub neg_risk: bool,
    pub tick_size: Option<Decimal>,
    pub fee_rate_bps: Option<u32>,
    pub post_only: bool,
}

impl OrderRequest {
    /// An order with the exchange's own tick size and fee rate.
    pub fn new(
        token_id: TokenId,
        price: Decimal,
        size: Decimal,
        side: OrderSide,
        order_type: OrderType,
        neg_risk: bool,
    ) -> (r: OrderRequest)
        ensures
            r == (OrderRequest {
                token_id,
                price,
                size,
                side,
                order_type,
                neg_risk,
                tick_size: None,
                fee_rate_bps: None,
                post_only: false,
            }),
    {
        OrderRequest {
            token_id,
            price,
            size,
            side,
            order_type,
            neg_risk,
            tick_size: None,
            fee_rate_bps: None,
            post_only: false,
        }
    }

    /// The order with a tick size.
    pub fn with_tick_size(self, tick_size: Decimal) -> (r: OrderRequest)
        ensures
            r == (OrderRequest { tick_size: Some(tick_size), ..self }),
    {
        OrderRequest { tick_size: Some(tick_size), ..self }
    }

    /// The order with a fee rate.
    pub fn with_fee_rate_bps(self, fee_rate_bps: u32) -> (r: OrderRequest)
        ensures
            r == (OrderRequest { fee_rate_bps: Some(fee_rate_bps), ..self }),
    {
        OrderRequest { fee_rate_bps: Some(fee_rate_bps), ..self }
    }

    /// The order with its post-only flag.
    pub fn with_post_only(self, post_only: bool) -> (r: OrderRequest)
        ensures
            r == (OrderRequest { post_only, ..self }),
    {
        OrderRequest { post_only, ..self }
    }
}

/// What the exchange answers to an order.
#[derive(Debug)]
pub struct OrderResult {
    pub success: bool,
    pub order_id: Option<OrderId>,
    pub token_id: TokenId,
    pub status: Option<String>,
    pub message: String,
}

/// A price on the settlement oracle's chain.
#[derive(Clone, Copy, Debug)]
pub struct ChainlinkPrice {
    pub price: Decimal,
    pub timestamp: u64,
}

/// The price of one feed, and when it was quoted.
#[derive(Clone, Copy, Debug)]
pub struct SourcedPrice {
    pub price: Decimal,
    pub timestamp: DateTime,
}

impl View for SourcedPrice {
    type V = SourcedPrice;

    open spec fn view(&self) -> SourcedPrice {
        *self
    }
}

/// A notice for dashboards and logs.
#[derive(Debug)]
pub enum Signal {
    /// A cancel failed because the order had been matched.
    MatchedFill { order_id: OrderId, market_id: MarketId, token_id: TokenId },
    /// An order vanished from the exchange's open orders and is taken as filled.
    ReconciledFill {
        order_id: OrderId,
        market_id: MarketId,
        token_id: TokenId,
        price: Decimal,
        size: Decimal,
        side: OutcomeSide,
    },
    /// A dashboard view has new contents.
    DashboardUpdate { view_name: String, rendered_html: String },
}

/// Weight of a log line.
#[derive(Clone, Copy, Debug, PartialEq, Eq, Structural)]
pub enum LogLevel {
    Info,
    Warn,
    Error,
}

/// What a strategy asks for.
#[derive(Debug)]
pub enum Action {
    PlaceOrder(OrderRequest),
    PlaceBatchOrder(Vec<OrderRequest>),
    CancelOrder(OrderId),
    CancelAllOrders,
    SubscribeMarket(MarketInfo),
    UnsubscribeMarket(MarketId),
    EmitSignal(Signal),
    Log { level: LogLevel, message: String },
    RecordFill {
        order_id: OrderId,
        market_id: MarketId,
        token_id: TokenId,
        side: OrderSide,
        price: Decimal,
        size: Decimal,
        realized_pnl: Option<Decimal>,
        fee: Option<Decimal>,
        order_type: Option<OrderType>,
    },
}

/// An order, as plain values.
pub ghost struct OrderView {
    pub token: Seq<char>,
    pub price: Decimal,
    pub size: Decimal,
    pub side: OrderSide,
    pub order_type: OrderType,
    pub neg_risk: bool,
    pub tick_size: Option<Decimal>,
    pub fee_rate_bps: Option<u32>,
    pub post_only: bool,
}

impl View for OrderRequest {
    type V = OrderView;

    open spec fn view(&self) -> OrderView {
        OrderView {
            token: self.token_id@,
            price: self.price,
            size: self.size,
            side: self.side,
            order_type: self.order_type,
            neg_risk: self.neg_risk,
            tick_size: self.tick_size,
            fee_rate_bps: self.fee_rate_bps,
            post_only: self.post_only,
        }
    }
}

/// A notice, as plain values.
pub ghost enum SignalView {
    MatchedFill { order: Seq<char>, market: Seq<char>, token: Seq<char> },
    ReconciledFill {
        order: Seq<char>,
        market: Seq<char>,
        token: Seq<char>,
        price: Decimal,
        size: Decimal,
        side: OutcomeSide,
    },
    DashboardUpdate { view_name: Seq<char>, rendered_html: Seq<char> },
}

impl View for Signal {
    type V = SignalView;

    open spec fn view(&self) -> SignalView {
        match *self {
            Signal::MatchedFill { order_id, market_id, token_id } => SignalView::MatchedFill {
                order: order_id@,
                market: market_id@,
                token: token_id@,
            },
            Signal::ReconciledFill { order_id, market_id, token_id, price, size, side } =>
            SignalView::ReconciledFill {
                order: order_id@,
                market: market_id@,
                token: token_id@,
                price,
                size,
                side,
            },
            Signal::DashboardUpdate { view_name, rendered_html } => SignalView::DashboardUpdate {
                view_name: view_name@,
                rendered_html: rendered_html@,
            },
        }
    }
}

/// An action, as plain values.
pub ghost enum ActionView {
    PlaceOrder(OrderView),
    PlaceBatchOrder(Seq<OrderView>),
    CancelOrder(Seq<char>),
    CancelAllOrders,
    SubscribeMarket(MarketInfo),
    UnsubscribeMarket(Seq<char>),
    EmitSignal(SignalView),
    Log { level: LogLevel, message: Seq<char> },
    RecordFill {
        order: Seq<char>,
        market: Seq<char>,
        token: Seq<char>,
        side: OrderSide,
        price: Decimal,
        size: Decimal,
        realized_pnl: Option<Decimal>,
        fee: Option<Decimal>,
        order_type: Option<OrderType>,
    },
}

impl View for Action {
    type V = ActionView;

    open spec fn view(&self) -> ActionView {
        match *self {
            Action::PlaceOrder(o) => ActionView::PlaceOrder(o@),
            Action::PlaceBatchOrder(v) => ActionView::PlaceBatchOrder(
                Seq::new(v@.len(), |i: int| v@[i]@),
            ),
            Action::CancelOrder(id) => ActionView::CancelOrder(id@),
            Action::CancelAllOrders => ActionView::CancelAllOrders,
            Action::SubscribeMarket(m) => ActionView::SubscribeMarket(m),
            Action::UnsubscribeMarket(id) => ActionView::UnsubscribeMarket(id@),
            Action::EmitSignal(s) => ActionView::EmitSignal(s@),
            Action::Log { level, message } => ActionView::Log { level, message: message@ },
            Action::RecordFill {
                order_id,
                market_id,
                token_id,
                side,
                price,
                size,
                realized_pnl,
                fee,
                order_type,
            } => ActionView::RecordFill {
                order: order_id@,
                market: market_id@,
                token: token_id@,
                side,
                price,
                size,
                realized_pnl,
                fee,
                order_type,
            },
        }
    }
}

/// Actions, as plain values.
pub open spec fn acts(s: Seq<Action>) -> Seq<ActionView> {
    Seq::new(s.len(), |i: int| s[i]@)
}

/// The actions of two lists, one after the other.
pub proof fn lemma_acts_add(a: Seq<Action>, b: Seq<Action>)
    ensures
        acts(a + b) == acts(a) + acts(b),
{
    assert(acts(a + b) =~= acts(a) + acts(b));
}

/// The actions of a list with one more.
pub proof fn lemma_acts_push(a: Seq<Action>, x: Action)
    ensures
        acts(a.push(x)) == acts(a).push(x@),
{
    assert(acts(a.push(x)) =~= acts(a).push(x@));
}

impl View for OrderbookSnapshot {
    type V = OrderbookSnapshot;

    open spec fn view(&self) -> OrderbookSnapshot {
        *self
    }
}

/// What is known of the markets at the moment.
#[derive(Debug)]
pub struct MarketData {
    /// Order books, by token.
    pub orderbooks: Table<OrderbookSnapshot>,
    /// Latest external price, by coin.
    pub external_prices: Table<Decimal>,
    /// Latest price of each feed, by coin.
    pub sourced_prices: Table<Table<SourcedPrice>>,
}

/// Two order books that hold the same.
pub open spec fn same_book(a: OrderbookSnapshot, b: OrderbookSnapshot) -> bool {
    a.token_id == b.token_id && a.bids@ == b.bids@ && a.asks@ == b.asks@ && a.timestamp
        == b.timestamp
}

/// The order books with a new one under its token.
pub open spec fn book_stored(
    pre: Seq<(Seq<char>, OrderbookSnapshot)>,
    post: Seq<(Seq<char>, OrderbookSnapshot)>,
    snapshot: OrderbookSnapshot,
) -> bool {
    let kept = lookup(post, snapshot.token_id@);
    kept is Some && same_book(kept->0, snapshot) && post == stored(
        pre,
        snapshot.token_id@,
        kept->0,
    )
}

fn copy_levels(levels: &Vec<OrderbookLevel>) -> (r: Vec<OrderbookLevel>)
    ensures
        r@ == levels@,
{
    let mut r: Vec<OrderbookLevel> = Vec::new();
    let mut i: usize = 0;
    while i < levels.len()
        invariant
            i <= levels@.len(),
            r@ =~= levels@.take(i as int),
        decreases levels@.len() - i,
    {
        r.push(levels[i]);
        i += 1;
    }
    r
}

impl MarketData {
    /// Stores an order book under its token.
    pub fn store_book(&mut self, snapshot: &OrderbookSnapshot)
        ensures
            book_stored(old(self).orderbooks.rows(), final(self).orderbooks.rows(), *snapshot),
            *final(self) == (MarketData { orderbooks: final(self).orderbooks, ..*old(self) }),
    {
        let book = OrderbookSnapshot {
            token_id: snapshot.token_id.clone(),
            bids: copy_levels(&snapshot.bids),
            asks: copy_levels(&snapshot.asks),
            timestamp: snapshot.timestamp,
        };
        proof {
            lemma_lookup_stored(
                self.orderbooks.rows(),
                snapshot.token_id@,
                book,
                snapshot.token_id@,
            );
        }
        self.orderbooks.insert(snapshot.token_id.clone(), book);
    }
}

/// What the oracle's chain answered for a window start.
#[derive(Clone, Copy, Debug)]
pub struct ChainQuote {
    pub window_ts: i64,
    pub price: ChainlinkPrice,
}

/// What a strategy is told.
#[allow(inconsistent_fields)]
#[derive(Debug)]
pub enum Event {
    MarketDiscovered(MarketInfo),
    MarketExpired(MarketId),
    ExternalPrice { symbol: String, price: Decimal, source: String, timestamp: DateTime },
    OrderbookUpdate(OrderbookSnapshot),
    OrderPlaced(OrderResult),
    OrderFilled { order_id: OrderId, token_id: TokenId, price: Decimal, size: Decimal },
    OrderPartiallyFilled { order_id: OrderId, filled_size: Decimal, remaining_size: Decimal },
    OrderRejected { token_id: Option<TokenId>, reason: String },
    OrderCancelled(OrderId),
    OrderCancelFailed { order_id: OrderId, reason: String },
    OpenOrderSnapshot(Vec<OrderId>),
    /// Anything that strategies do not react to.
    Other,
}

/// What is known when an event comes in: the markets, the time, and what the oracle's chain
/// answered for window starts and for a market's end.
#[derive(Debug)]
pub struct EventContext {
    pub data: MarketData,
    pub now: DateTime,
    pub quotes: Vec<ChainQuote>,
    pub settlement: Option<ChainlinkPrice>,
}

/// The depth of the bids counts the sizes of the levels at the floor or above it: a level more adds
/// its size where it is, and nothing where it is not.
pub proof fn bid_depth_counts_levels_at_the_floor_or_above(
    a: OrderbookSnapshot,
    b: OrderbookSnapshot,
    level: OrderbookLevel,
    floor: Decimal,
    depth: Decimal,
)
    requires
        b.bids@ == a.bids@.push(level),
        a.bid_depth(floor) == Some(depth),
        sum_is_exact(depth, level.size),
    ensures
        b.bid_depth(floor) is Some,
        value(level.price) >= value(floor) ==> value(b.bid_depth(floor)->0) == value(depth) + value(
            level.size,
        ),
        value(level.price) < value(floor) ==> value(b.bid_depth(floor)->0) == value(depth),
        a.bids@.len() == 0 ==> value(depth) == 0 as real,
{
    assert(b.bids@.drop_last() =~= a.bids@);
    comparing_compares_values(floor, level.price);
    sums_add_up(depth, level.size);
    signs_agree(zero());
}

/// The depth of the asks counts the sizes of the levels at the ceiling or below it.
pub proof fn ask_depth_counts_levels_at_the_ceiling_or_below(
    a: OrderbookSnapshot,
    b: OrderbookSnapshot,
    level: OrderbookLevel,
    ceiling: Decimal,
    depth: Decimal,
)
    requires
        b.asks@ == a.asks@.push(level),
        a.ask_depth(ceiling) == Some(depth),
        sum_is_exact(depth, level.size),
    ensures
        b.ask_depth(ceiling) is Some,
        value(level.price) <= value(ceiling) ==> value(b.ask_depth(ceiling)->0) == value(depth)
            + value(level.size),
        value(level.price) > value(ceiling) ==> value(b.ask_depth(ceiling)->0) == value(depth),
        a.asks@.len() == 0 ==> value(depth) == 0 as real,
{
    assert(b.asks@.drop_last() =~= a.asks@);
    comparing_compares_values(level.price, ceiling);
    sums_add_up(depth, level.size);
    signs_agree(zero());
}

} // verus!
