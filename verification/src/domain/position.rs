//! Opportunities, orders and positions.
use crate::decimal::{Decimal, Overflow, at_most, less, ok_of, product_of, smaller, times, zero};
use crate::exchange::{MarketId, OrderId, OrderType, OutcomeSide, TokenId};
use crate::time::DateTime;
use crate::value::{
    comparing_compares_values, min_of, picking_picks_values, product_is_exact, products_multiply,
    signs_agree, value,
};
use vstd::prelude::*;

verus! {

/// Trading mode.
#[derive(Debug, PartialEq, Eq)]
pub enum ArbitrageMode {
    /// Shortly before the end.
    TailEnd,
    /// Both outcomes at once.
    TwoSided,
    /// On model confidence.
    Confirmed,
    /// On a spike of a leading coin.
    CrossCorrelated { leader: String },
}

impl Clone for ArbitrageMode {
    fn clone(&self) -> (r: Self)
        ensures
            r == *self,
    {
        match self {
            ArbitrageMode::TailEnd => ArbitrageMode::TailEnd,
            ArbitrageMode::TwoSided => ArbitrageMode::TwoSided,
            ArbitrageMode::Confirmed => ArbitrageMode::Confirmed,
            ArbitrageMode::CrossCorrelated { leader } => ArbitrageMode::CrossCorrelated {
                leader: leader.clone(),
            },
        }
    }
}

/// A copy of an optional order id.
pub fn copy_id(id: &Option<OrderId>) -> (r: Option<OrderId>)
    ensures
        r == *id,
{
    match id {
        Some(s) => Some(s.clone()),
        None => None,
    }
}

/// An opportunity that is ready to be traded.
#[derive(Debug)]
pub struct ArbitrageOpportunity {
    /// Mode that found it.
    pub mode: ArbitrageMode,
    /// Market to trade.
    pub market_id: MarketId,
    /// Outcome to buy.
    pub outcome_to_buy: OutcomeSide,
    /// Token of the outcome.
    pub token_id: TokenId,
    /// Price to buy at.
    pub buy_price: Decimal,
    /// Confidence, used for sizing.
    pub confidence: Decimal,
    /// `1 - buy_price`.
    pub profit_margin: Decimal,
    /// Fee per share at entry.
    pub estimated_fee: Decimal,
    /// Margin per share after the fee.
    pub net_margin: Decimal,
}

impl Clone for ArbitrageOpportunity {
    fn clone(&self) -> (r: Self)
        ensures
            r == *self,
    {
        ArbitrageOpportunity {
            mode: self.mode.clone(),
            market_id: self.market_id.clone(),
            outcome_to_buy: self.outcome_to_buy,
            token_id: self.token_id.clone(),
            buy_price: self.buy_price,
            confidence: self.confidence,
            profit_margin: self.profit_margin,
            estimated_fee: self.estimated_fee,
            net_margin: self.net_margin,
        }
    }
}

impl View for ArbitrageOpportunity {
    type V = ArbitrageOpportunity;

    open spec fn view(&self) -> ArbitrageOpportunity {
        *self
    }
}

/// An open position.
#[derive(Debug)]
pub struct ArbitragePosition {
    pub market_id: MarketId,
    pub token_id: TokenId,
    pub side: OutcomeSide,
    /// Price paid per share.
    pub entry_price: Decimal,
    /// Shares held.
    pub size: Decimal,
    /// Reference price of the window.
    pub reference_price: Decimal,
    pub coin: String,
    /// Order that opened it.
    pub order_id: Option<OrderId>,
    pub entry_time: DateTime,
    /// Kelly size, when it was used.
    pub kelly_fraction: Option<Decimal>,
    /// Highest bid since entry.
    pub peak_bid: Decimal,
    /// Highest blended stop-loss price since entry; the tail-end strategy raises it.
    pub peak_price: Decimal,
    /// Estimated fee per share.
    pub estimated_fee: Decimal,
    /// Market price at entry.
    pub entry_market_price: Decimal,
    pub tick_size: Decimal,
    pub fee_rate_bps: u32,
    pub entry_order_type: OrderType,
    /// Fee paid per share.
    pub entry_fee_per_share: Decimal,
    /// Cost of hedges, as a negative number.
    pub recovery_cost: Decimal,
    pub mode: ArbitrageMode,
}

impl Clone for ArbitragePosition {
    fn clone(&self) -> (r: Self)
        ensures
            r == *self,
    {
        ArbitragePosition {
            market_id: self.market_id.clone(),
            token_id: self.token_id.clone(),
            side: self.side,
            entry_price: self.entry_price,
            size: self.size,
            reference_price: self.reference_price,
            coin: self.coin.clone(),
            order_id: copy_id(&self.order_id),
            entry_time: self.entry_time,
            kelly_fraction: self.kelly_fraction,
            peak_bid: self.peak_bid,
            peak_price: self.peak_price,
            estimated_fee: self.estimated_fee,
            entry_market_price: self.entry_market_price,
            tick_size: self.tick_size,
            fee_rate_bps: self.fee_rate_bps,
            entry_order_type: self.entry_order_type,
            entry_fee_per_share: self.entry_fee_per_share,
            recovery_cost: self.recovery_cost,
            mode: self.mode.clone(),
        }
    }
}

impl View for ArbitragePosition {
    type V = ArbitragePosition;

    open spec fn view(&self) -> ArbitragePosition {
        *self
    }
}

/// An order that is not confirmed yet.
#[derive(Debug)]
pub struct PendingOrder {
    pub market_id: MarketId,
    pub token_id: TokenId,
    pub side: OutcomeSide,
    pub price: Decimal,
    pub size: Decimal,
    pub reference_price: Decimal,
    pub coin: String,
    pub order_type: OrderType,
    pub kelly_fraction: Option<Decimal>,
    /// Estimated fee per share.
    pub estimated_fee: Decimal,
    pub tick_size: Decimal,
    pub fee_rate_bps: u32,
    pub mode: ArbitrageMode,
}

impl Clone for PendingOrder {
    fn clone(&self) -> (r: Self)
        ensures
            r == *self,
    {
        PendingOrder {
            market_id: self.market_id.clone(),
            token_id: self.token_id.clone(),
            side: self.side,
            price: self.price,
            size: self.size,
            reference_price: self.reference_price,
            coin: self.coin.clone(),
            order_type: self.order_type,
            kelly_fraction: self.kelly_fraction,
            estimated_fee: self.estimated_fee,
            tick_size: self.tick_size,
            fee_rate_bps: self.fee_rate_bps,
            mode: self.mode.clone(),
        }
    }
}

impl View for PendingOrder {
    type V = PendingOrder;

    open spec fn view(&self) -> PendingOrder {
        *self
    }
}

/// A limit order on the book.
#[derive(Debug)]
pub struct OpenLimitOrder {
    pub order_id: OrderId,
    pub market_id: MarketId,
    pub token_id: TokenId,
    pub side: OutcomeSide,
    pub price: Decimal,
    /// Shares not filled yet.
    pub size: Decimal,
    pub reference_price: Decimal,
    pub coin: String,
    pub placed_at: DateTime,
    pub kelly_fraction: Option<Decimal>,
    /// Estimated fee per share.
    pub estimated_fee: Decimal,
    pub tick_size: Decimal,
    pub fee_rate_bps: u32,
    /// A cancel is in flight.
    pub cancel_pending: bool,
    /// Consecutive snapshots without the order.
    pub reconcile_miss_count: u8,
    pub mode: ArbitrageMode,
}

impl Clone for OpenLimitOrder {
    fn clone(&self) -> (r: Self)
        ensures
            r == *self,
    {
        OpenLimitOrder {
            order_id: self.order_id.clone(),
            market_id: self.market_id.clone(),
            token_id: self.token_id.clone(),
            side: self.side,
            price: self.price,
            size: self.size,
            reference_price: self.reference_price,
            coin: self.coin.clone(),
            placed_at: self.placed_at,
            kelly_fraction: self.kelly_fraction,
            estimated_fee: self.estimated_fee,
            tick_size: self.tick_size,
            fee_rate_bps: self.fee_rate_bps,
            cancel_pending: self.cancel_pending,
            reconcile_miss_count: self.reconcile_miss_count,
            mode: self.mode.clone(),
        }
    }
}

impl View for OpenLimitOrder {
    type V = OpenLimitOrder;

    open spec fn view(&self) -> OpenLimitOrder {
        *self
    }
}

/// An exit or hedge order in flight.
#[derive(Debug)]
pub struct ExitOrderMeta {
    /// Token of the position.
    pub token_id: TokenId,
    /// Token of the order.
    pub order_token_id: TokenId,
    pub order_type: OrderType,
    /// Lifecycle state that placed it.
    pub source_state: String,
    /// Limit price.
    pub exit_price: Decimal,
    /// Shares of the order.
    pub clip_size: Decimal,
}

impl Clone for ExitOrderMeta {
    fn clone(&self) -> (r: Self)
        ensures
            r == *self,
    {
        ExitOrderMeta {
            token_id: self.token_id.clone(),
            order_token_id: self.order_token_id.clone(),
            order_type: self.order_type,
            source_state: self.source_state.clone(),
            exit_price: self.exit_price,
            clip_size: self.clip_size,
        }
    }
}

/// An exit or hedge order in flight, as plain values.
pub ghost struct ExitView {
    pub token: Seq<char>,
    pub order_token: Seq<char>,
    pub order_type: OrderType,
    pub source: Seq<char>,
    pub exit_price: Decimal,
    pub clip_size: Decimal,
}

impl View for ExitOrderMeta {
    type V = ExitView;

    open spec fn view(&self) -> ExitView {
        ExitView {
            token: self.token_id@,
            order_token: self.order_token_id@,
            order_type: self.order_type,
            source: self.source_state@,
            exit_price: self.exit_price,
            clip_size: self.clip_size,
        }
    }
}

/// The position that a filled limit order opens.
pub open spec fn position_from(
    lo: OpenLimitOrder,
    fill_price: Decimal,
    fill_size: Decimal,
    order_id: Option<OrderId>,
    entry_time: DateTime,
) -> ArbitragePosition {
    ArbitragePosition {
        market_id: lo.market_id,
        token_id: lo.token_id,
        side: lo.side,
        entry_price: fill_price,
        size: fill_size,
        reference_price: lo.reference_price,
        coin: lo.coin,
        order_id,
        entry_time,
        kelly_fraction: lo.kelly_fraction,
        peak_bid: fill_price,
        peak_price: fill_price,
        estimated_fee: lo.estimated_fee,
        entry_market_price: fill_price,
        tick_size: lo.tick_size,
        fee_rate_bps: lo.fee_rate_bps,
        entry_order_type: OrderType::Gtc,
        entry_fee_per_share: zero(),
        recovery_cost: zero(),
        mode: lo.mode,
    }
}

impl ArbitragePosition {
    /// The position that a filled limit order opens: a maker fill, so without a fee.
    pub fn from_limit_order(
        lo: &OpenLimitOrder,
        fill_price: Decimal,
        fill_size: Decimal,
        order_id: Option<OrderId>,
        entry_time: DateTime,
    ) -> (r: Self)
        ensures
            r == position_from(*lo, fill_price, fill_size, order_id, entry_time),
    {
        ArbitragePosition {
            market_id: lo.market_id.clone(),
            token_id: lo.token_id.clone(),
            side: lo.side,
            entry_price: fill_price,
            size: fill_size,
            reference_price: lo.reference_price,
            coin: lo.coin.clone(),
            order_id,
            entry_time,
            kelly_fraction: lo.kelly_fraction,
            peak_bid: fill_price,
            peak_price: fill_price,
            estimated_fee: lo.estimated_fee,
            entry_market_price: fill_price,
            tick_size: lo.tick_size,
            fee_rate_bps: lo.fee_rate_bps,
            entry_order_type: OrderType::Gtc,
            entry_fee_per_share: Decimal::zero(),
            recovery_cost: Decimal::zero(),
            mode: lo.mode.clone(),
        }
    }
}

/// `min(remaining, bid_depth * cap_factor)`, or zero when that is below `min_size`.
pub open spec fn exit_clip_of(
    remaining: Decimal,
    bid_depth: Decimal,
    cap_factor: Decimal,
    min_size: Decimal,
) -> Option<Decimal> {
    match times(Some(bid_depth), Some(cap_factor)) {
        None => None,
        Some(cap) => Some(
            if less(smaller(remaining, cap), min_size) {
                zero()
            } else {
                smaller(remaining, cap)
            },
        ),
    }
}

/// The shares to sell in one exit order, capped by the bid depth; zero for dust; an error
/// where the arithmetic leaves the decimal range.
pub fn compute_exit_clip(
    remaining: Decimal,
    bid_depth: Decimal,
    cap_factor: Decimal,
    min_size: Decimal,
) -> (r: Result<Decimal, Overflow>)
    ensures
        ok_of(r) == exit_clip_of(remaining, bid_depth, cap_factor, min_size),
{
    let capped: Decimal = remaining.min(bid_depth.times(cap_factor)?);
    if capped.lt(min_size) {
        Ok(Decimal::zero())
    } else {
        Ok(capped)
    }
}

/// An exit clip is zero, or at least the least size and no more than what remains.
pub proof fn exit_clip_bounds(
    remaining: Decimal,
    bid_depth: Decimal,
    cap_factor: Decimal,
    min_size: Decimal,
)
    requires
        exit_clip_of(remaining, bid_depth, cap_factor, min_size) is Some,
    ensures
        ({
            let clip = exit_clip_of(remaining, bid_depth, cap_factor, min_size)->0;
            clip == zero() || (at_most(min_size, clip) && at_most(clip, remaining))
        }),
{
}

/// What is sold at once is what is left, at most the share of the depth that may be taken; nothing
/// where that is below the least size.
pub proof fn an_exit_takes_a_share_of_the_depth(
    remaining: Decimal,
    bid_depth: Decimal,
    cap_factor: Decimal,
    min_size: Decimal,
)
    requires
        product_is_exact(bid_depth, cap_factor),
    ensures
        ({
            let clip = exit_clip_of(remaining, bid_depth, cap_factor, min_size);
            let room = min_of(value(remaining), value(bid_depth) * value(cap_factor));
            &&& clip is Some
            &&& room >= value(min_size) ==> value(clip->0) == room
            &&& room < value(min_size) ==> value(clip->0) == 0 as real
        }),
{
    products_multiply(bid_depth, cap_factor);
    let cap = product_of(bid_depth, cap_factor)->0;
    picking_picks_values(remaining, cap);
    comparing_compares_values(smaller(remaining, cap), min_size);
    signs_agree(zero());
}

} // verus!
