//! Markets, positions and orders of the combined strategy.
use crate::decimal::{
    Decimal, Overflow, at_most, dec, is_between_zero_and_one, lemma_dec_parts, ok_of, one, times,
    zero,
};
use crate::domain::market::{confidence_of, confidence_score, predict_side, winner_of};
use crate::domain::position::copy_id;
use crate::exchange::{MarketId, MarketInfo, OrderId, OutcomeSide, TokenId};
use crate::time::DateTime;
use vstd::prelude::*;

verus! {

/// How accurately the reference price matches the price at the start of the window.
#[derive(Clone, Copy, Debug, PartialEq, Eq, Structural)]
pub enum ReferenceQuality {
    /// From the oracle's chain: the price that settles the market.
    OnChain,
    /// A snapshot within 2 s of the window start.
    Exact,
    /// A recorded price, so many seconds from the window start.
    Historical(u64),
    /// The price at discovery.
    Current,
}

impl ReferenceQuality {
    /// Confidence factor of the quality.
    pub open spec fn factor(self) -> Decimal {
        match self {
            ReferenceQuality::OnChain => one(),
            ReferenceQuality::Exact => one(),
            ReferenceQuality::Historical(s) => if s < 5 {
                dec(95, 2)
            } else {
                dec(85, 2)
            },
            ReferenceQuality::Current => dec(70, 2),
        }
    }

    /// Confidence factor of the quality.
    pub fn quality_factor(&self) -> (r: Decimal)
        ensures
            r == self.factor(),
    {
        match self {
            ReferenceQuality::OnChain => Decimal::one(),
            ReferenceQuality::Exact => Decimal::one(),
            ReferenceQuality::Historical(s) => if *s < 5 {
                Decimal::new(95, 2)
            } else {
                Decimal::new(85, 2)
            },
            ReferenceQuality::Current => Decimal::new(70, 2),
        }
    }

    /// The mark of the quality in the view.
    pub open spec fn mark_of(self) -> Seq<char> {
        match self {
            ReferenceQuality::OnChain => "\u{2713}"@,
            ReferenceQuality::Exact => "="@,
            ReferenceQuality::Historical(_) => "\u{2248}"@,
            ReferenceQuality::Current => "~"@,
        }
    }

    /// The mark of the quality in the view.
    pub fn mark(self) -> (r: &'static str)
        ensures
            r@ == self.mark_of(),
    {
        match self {
            ReferenceQuality::OnChain => "\u{2713}",
            ReferenceQuality::Exact => "=",
            ReferenceQuality::Historical(_) => "\u{2248}",
            ReferenceQuality::Current => "~",
        }
    }
}

/// A market with the reference price of its window.
#[derive(Debug)]
pub struct MarketWithReference {
    pub market: MarketInfo,
    pub reference_price: Decimal,
    pub reference_quality: ReferenceQuality,
    pub discovery_time: DateTime,
    /// Coin symbol.
    pub coin: String,
}

impl Clone for MarketWithReference {
    fn clone(&self) -> (r: Self)
        ensures
            r == *self,
    {
        MarketWithReference {
            market: self.market.clone(),
            reference_price: self.reference_price,
            reference_quality: self.reference_quality,
            discovery_time: self.discovery_time,
            coin: self.coin.clone(),
        }
    }
}

impl View for MarketWithReference {
    type V = MarketWithReference;

    open spec fn view(&self) -> MarketWithReference {
        *self
    }
}

impl MarketWithReference {
    /// The outcome that the current price points to; none at the reference itself.
    pub fn predict_winner(&self, current_price: Decimal) -> (r: Option<OutcomeSide>)
        ensures
            r == winner_of(self.reference_price, current_price),
    {
        predict_side(self.reference_price, current_price)
    }

    /// Confidence in the prediction, between 0 and 1 for a price between 0 and 1; an error
    /// where the arithmetic leaves the decimal range. It is at most the factor of the reference
    /// quality, and is the confidence for an exact reference times that factor.
    pub fn get_confidence(
        &self,
        current_price: Decimal,
        market_price: Decimal,
        time_remaining_secs: i64,
    ) -> (r: Result<Decimal, Overflow>)
        ensures
            ok_of(r) == confidence_of(
                self.reference_price,
                self.reference_quality.factor(),
                current_price,
                market_price,
                time_remaining_secs,
            ),
            r is Ok ==> at_most(r->Ok_0, one()),
            r is Ok && is_between_zero_and_one(market_price) ==> at_most(zero(), r->Ok_0),
            r is Ok ==> at_most(r->Ok_0, self.reference_quality.factor()),
            r is Ok ==> ok_of(r) == times(
                confidence_of(
                    self.reference_price,
                    one(),
                    current_price,
                    market_price,
                    time_remaining_secs,
                ),
                Some(self.reference_quality.factor()),
            ),
    {
        proof {
            reveal_with_fuel(crate::decimal::pow10, 3);
            lemma_dec_parts(1, 0);
            lemma_dec_parts(98, 2);
            lemma_dec_parts(95, 2);
            lemma_dec_parts(85, 2);
            lemma_dec_parts(70, 2);
        }
        confidence_score(
            self.reference_price,
            self.reference_quality.quality_factor(),
            current_price,
            market_price,
            time_remaining_secs,
        )
    }
}

/// An open position.
#[derive(Debug)]
pub struct ArbitragePosition {
    pub market_id: MarketId,
    pub token_id: TokenId,
    pub side: OutcomeSide,
    pub entry_price: Decimal,
    pub size: Decimal,
    pub reference_price: Decimal,
    pub coin: String,
    pub order_id: Option<OrderId>,
    pub entry_time: DateTime,
}

impl Clone for ArbitragePosition {
    fn clone(&self) -> (r: Self)
        ensures
            r == *self,
    {
        ArbitragePosition {
            market_id: self.market_id.clone(),
            token_id: self.token_id.clone(),
            side: self.side,
            entry_price: self.entry_price,
            size: self.size,
            reference_price: self.reference_price,
            coin: self.coin.clone(),
            order_id: copy_id(&self.order_id),
            entry_time: self.entry_time,
        }
    }
}

/// An order that is not confirmed yet.
#[derive(Debug)]
pub struct PendingOrder {
    pub market_id: MarketId,
    pub token_id: TokenId,
    pub side: OutcomeSide,
    pub price: Decimal,
    pub size: Decimal,
    pub reference_price: Decimal,
    pub coin: String,
}

impl View for PendingOrder {
    type V = PendingOrder;

    open spec fn view(&self) -> PendingOrder {
        *self
    }
}

} // verus!
