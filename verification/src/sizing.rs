//! How many shares an opportunity is worth, and at what price they are ordered.
use crate::config::{OrderConfig, SizingConfig};
use crate::decimal::{
    Decimal, Overflow, dec, difference_of, larger, lemma_dec_parts, less, minus, ok_of, one, over,
    zero,
};
use crate::domain::market::MarketWithReference;
use crate::domain::position::{ArbitrageOpportunity, PendingOrder};
use crate::exchange::{OrderRequest, OrderSide, OrderType};
use crate::fee_math::{
    checked_kelly_position_size, checked_taker_fee, kelly_fraction_of, kelly_size_of, payout_of,
    taker_fee_of,
};
use crate::value::{
    comparing_compares_values, difference_is_exact, differences_add_up, max_of,
    picking_picks_values, quotients_compare, signs_agree, slack, value, value_of_parts,
};
use vstd::prelude::*;

verus! {

/// Shares, and the Kelly fraction if it was used.
#[derive(Clone, Copy, Debug)]
pub struct Sizing {
    pub shares: Decimal,
    pub kelly_fraction: Option<Decimal>,
}

/// The Kelly fraction for the record: zero where the payout is not positive. `None` is an
/// overflow.
pub open spec fn tracked_fraction_of(confidence: Decimal, price: Decimal) -> Option<Decimal> {
    match payout_of(price) {
        None => None,
        Some(payout) => if less(zero(), payout) {
            kelly_fraction_of(confidence, payout)
        } else {
            Some(zero())
        },
    }
}

/// The shares to buy at a price: the Kelly size, or the base size, over the price; nothing
/// for a Kelly size of zero. The outer `None` is an overflow.
pub open spec fn sizing_of(config: SizingConfig, confidence: Decimal, price: Decimal) -> Option<
    Option<Sizing>,
> {
    if config.use_kelly {
        match kelly_size_of(confidence, price, config) {
            None => None,
            Some(size) => if size.mantissa_of() == 0 {
                Some(None)
            } else {
                match (over(Some(size), Some(price)), tracked_fraction_of(confidence, price)) {
                    (Some(shares), Some(k)) => Some(
                        Some(Sizing { shares, kelly_fraction: Some(k) }),
                    ),
                    _ => None,
                }
            },
        }
    } else {
        match over(Some(config.base_size), Some(price)) {
            Some(shares) => Some(Some(Sizing { shares, kelly_fraction: None })),
            None => None,
        }
    }
}

/// The shares of an order cost the amount that was set for them: the Kelly size, or the base
/// size; with Kelly sizing no less than the least and no more than the largest size. The 28th
/// digit of the shares is left to its rounding.
pub proof fn an_order_costs_its_size(config: SizingConfig, confidence: Decimal, price: Decimal)
    requires
        value(price) > 0 as real,
        sizing_of(config, confidence, price) is Some,
        sizing_of(config, confidence, price)->0 is Some,
    ensures
        ({
            let shares = value((sizing_of(config, confidence, price)->0)->0.shares);
            let cost = shares * value(price);
            let kelly = kelly_size_of(confidence, price, config);
            let off = value(price) * slack(shares);
            &&& !config.use_kelly ==> value(config.base_size) - off <= cost <= value(
                config.base_size,
            ) + off
            &&& config.use_kelly ==> kelly is Some && value(kelly->0) - off <= cost <= value(
                kelly->0,
            ) + off
            &&& config.use_kelly && value(config.min_size) <= value(config.max_size) ==> value(
                config.min_size,
            ) - off <= cost <= value(config.max_size) + off
        }),
{
    let shares = (sizing_of(config, confidence, price)->0)->0.shares;
    let amount = if config.use_kelly {
        kelly_size_of(confidence, price, config)->0
    } else {
        config.base_size
    };
    quotients_compare(amount, price, shares);
    let (x, y, z) = (value(amount), value(price), value(shares));
    let t = slack(z);
    assert(y * (z - t) == z * y - y * t && y * (z + t) == z * y + y * t) by (nonlinear_arith);
    if config.use_kelly {
        comparing_compares_values(config.min_size, config.max_size);
        comparing_compares_values(config.min_size, amount);
        comparing_compares_values(amount, config.max_size);
        lemma_dec_parts(0, 0);
    }
}

/// The shares to buy at a price.
pub fn size_order(config: &SizingConfig, confidence: Decimal, price: Decimal) -> (r: Result<
    Option<Sizing>,
    Overflow,
>)
    ensures
        ok_of(r) == sizing_of(*config, confidence, price),
{
    if config.use_kelly {
        let size: Decimal = checked_kelly_position_size(confidence, price, config)?;
        if size.is_zero() {
            return Ok(None);
        }
        let shares: Decimal = size.over(price)?;
        let payout: Decimal = Decimal::one().over(price)?.minus(Decimal::one())?;
        let fraction: Decimal = if payout.gt(Decimal::zero()) {
            let gain: Decimal = confidence.times(payout)?;
            let doubt: Decimal = Decimal::one().minus(confidence)?;
            gain.minus(doubt)?.over(payout)?
        } else {
            Decimal::zero()
        };
        Ok(Some(Sizing { shares, kelly_fraction: Some(fraction) }))
    } else {
        let shares: Decimal = config.base_size.over(price)?;
        Ok(Some(Sizing { shares, kelly_fraction: None }))
    }
}

/// Type and price of an order: in hybrid mode a resting order below the ask, at least 0.01;
/// else one to be filled at the ask. `None` is an overflow.
pub open spec fn pricing_of(config: OrderConfig, buy_price: Decimal) -> Option<(OrderType, Decimal)> {
    if config.hybrid_mode {
        match minus(Some(buy_price), Some(config.limit_offset)) {
            Some(p) => Some((OrderType::Gtc, larger(p, dec(1, 2)))),
            None => None,
        }
    } else {
        Some((OrderType::Fok, buy_price))
    }
}

/// Type and price of an order.
pub fn price_order(config: &OrderConfig, buy_price: Decimal) -> (r: Result<
    (OrderType, Decimal),
    Overflow,
>)
    ensures
        ok_of(r) == pricing_of(*config, buy_price),
{
    if config.hybrid_mode {
        let p: Decimal = buy_price.minus(config.limit_offset)?;
        Ok((OrderType::Gtc, p.max(Decimal::new(1, 2))))
    } else {
        Ok((OrderType::Fok, buy_price))
    }
}

/// The estimated fee per share and the net margin of buying at an ask; a resting order pays
/// no fee. `None` is an overflow.
pub open spec fn margins_of(hybrid: bool, rate: Decimal, ask: Decimal) -> Option<
    (Decimal, Decimal, Decimal),
> {
    let fee = if hybrid {
        Some(zero())
    } else {
        taker_fee_of(ask, rate)
    };
    let gross = minus(Some(one()), Some(ask));
    match (gross, fee, minus(gross, fee)) {
        (Some(g), Some(f), Some(n)) => Some((g, f, n)),
        _ => None,
    }
}

/// The gross margin, the estimated fee per share and the net margin of buying at an ask.
pub fn order_margins(hybrid: bool, rate: Decimal, ask: Decimal) -> (r: Result<
    (Decimal, Decimal, Decimal),
    Overflow,
>)
    ensures
        ok_of(r) == margins_of(hybrid, rate, ask),
{
    let gross: Decimal = Decimal::one().minus(ask)?;
    let fee: Decimal = if hybrid {
        Decimal::zero()
    } else {
        checked_taker_fee(ask, rate)?
    };
    let net: Decimal = gross.minus(fee)?;
    Ok((gross, fee, net))
}

/// The order and the pending record of an opportunity at a size.
pub open spec fn placed_of(
    config: OrderConfig,
    m: MarketWithReference,
    o: ArbitrageOpportunity,
    sizing: Sizing,
) -> Option<(OrderRequest, PendingOrder)> {
    match pricing_of(config, o.buy_price) {
        None => None,
        Some((order_type, price)) => Some(
            (
                OrderRequest {
                    token_id: o.token_id,
                    price,
                    size: sizing.shares,
                    side: OrderSide::Buy,
                    order_type,
                    neg_risk: false,
                    tick_size: None,
                    fee_rate_bps: None,
                    post_only: false,
                },
                PendingOrder {
                    market_id: o.market_id,
                    token_id: o.token_id,
                    side: o.outcome_to_buy,
                    price,
                    size: sizing.shares,
                    reference_price: m.reference_price,
                    coin: m.coin,
                    order_type,
                    kelly_fraction: sizing.kelly_fraction,
                    estimated_fee: o.estimated_fee,
                    tick_size: m.market.tick_size,
                    fee_rate_bps: m.market.fee_rate_bps,
                    mode: o.mode,
                },
            ),
        ),
    }
}

/// The order and the pending record of an opportunity at a size.
pub fn make_order(
    config: &OrderConfig,
    m: &MarketWithReference,
    o: &ArbitrageOpportunity,
    sizing: Sizing,
) -> (r: Result<(OrderRequest, PendingOrder), Overflow>)
    ensures
        ok_of(r) == placed_of(*config, *m, *o, sizing),
{
    let (order_type, price): (OrderType, Decimal) = price_order(config, o.buy_price)?;
    let order = OrderRequest::new(
        o.token_id.clone(),
        price,
        sizing.shares,
        OrderSide::Buy,
        order_type,
        false,
    );
    let pending = PendingOrder {
        market_id: o.market_id.clone(),
        token_id: o.token_id.clone(),
        side: o.outcome_to_buy,
        price,
        size: sizing.shares,
        reference_price: m.reference_price,
        coin: m.coin.clone(),
        order_type,
        kelly_fraction: sizing.kelly_fraction,
        estimated_fee: o.estimated_fee,
        tick_size: m.market.tick_size,
        fee_rate_bps: m.market.fee_rate_bps,
        mode: o.mode.clone(),
    };
    Ok((order, pending))
}

/// A resting order is priced below the ask by the offset, but not below a hundredth; any other
/// order is to be filled at the ask.
pub proof fn an_order_rests_below_the_ask(config: OrderConfig, buy_price: Decimal)
    requires
        difference_is_exact(buy_price, config.limit_offset),
    ensures
        ({
            let p = pricing_of(config, buy_price);
            &&& p is Some
            &&& config.hybrid_mode ==> (p->0).0 == OrderType::Gtc && value((p->0).1) == max_of(
                value(buy_price) - value(config.limit_offset),
                (1 as real) / (100 as real),
            )
            &&& !config.hybrid_mode ==> (p->0).0 == OrderType::Fok && value((p->0).1) == value(
                buy_price,
            )
        }),
{
    differences_add_up(buy_price, config.limit_offset);
    value_of_parts(1, 2);
    reveal_with_fuel(crate::decimal::pow10, 3);
    picking_picks_values(difference_of(buy_price, config.limit_offset)->0, dec(1, 2));
}

/// The gross margin of an ask is what a win pays above it; a resting order pays no fee, any other
/// order the taker's, and the net margin is what is left.
pub proof fn margins_are_what_a_win_leaves(hybrid: bool, rate: Decimal, ask: Decimal)
    requires
        margins_of(hybrid, rate, ask) is Some,
        difference_is_exact(one(), ask),
        difference_is_exact(
            (margins_of(hybrid, rate, ask)->0).0,
            (margins_of(hybrid, rate, ask)->0).1,
        ),
    ensures
        ({
            let (gross, fee, net) = margins_of(hybrid, rate, ask)->0;
            &&& value(gross) == 1 as real - value(ask)
            &&& value(net) == value(gross) - value(fee)
            &&& hybrid ==> value(fee) == 0 as real
            &&& !hybrid ==> taker_fee_of(ask, rate) == Some(fee)
        }),
{
    let (gross, fee, net) = margins_of(hybrid, rate, ask)->0;
    signs_agree(one());
    differences_add_up(one(), ask);
    differences_add_up(gross, fee);
}

/// An order is for the shares of its sizing, to buy the token of the opportunity, and its record
/// says the same.
pub proof fn an_order_and_its_record_agree(
    config: OrderConfig,
    m: MarketWithReference,
    o: ArbitrageOpportunity,
    sizing: Sizing,
)
    requires
        placed_of(config, m, o, sizing) is Some,
    ensures
        ({
            let (order, record) = placed_of(config, m, o, sizing)->0;
            &&& order.side == OrderSide::Buy && order.token_id == o.token_id
            &&& order.size == sizing.shares && Some((order.order_type, order.price)) == pricing_of(
                config,
                o.buy_price,
            )
            &&& record.token_id == order.token_id && record.price == order.price && record.size
                == order.size && record.order_type == order.order_type
            &&& record.side == o.outcome_to_buy && record.market_id == o.market_id
            &&& record.reference_price == m.reference_price && record.coin == m.coin && record.mode
                == o.mode
        }),
{
}

} // verus!
