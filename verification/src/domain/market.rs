//! Markets with the reference price that decides their outcome.
use crate::config::ReferenceQualityLevel;
use crate::decimal::{
    Decimal, Overflow, at_most, at_most_is_transitive, dec, difference_of, fits,
    is_between_zero_and_one, lemma_dec_parts, lemma_dec_whole, lemma_is_whole_number,
    lemma_pow10_in_range, lemma_zero_product, less, magnitude, minus, negated, ok_of, one, over,
    plus, pow10, product_of, quotient_of, smaller, sum_of, times, zero,
};
use crate::exchange::{MarketInfo, OutcomeSide};
use crate::time::DateTime;
use crate::value::{
    abs_of, comparing_compares_values, difference_is_exact, differences_add_up, is_ratio,
    is_within, lemma_quotient_is_decimal, lemma_within_basics, lemma_within_more, min_of,
    negating_negates, picking_picks_values, quotients_divide, signs_agree,
    small_products_are_exact, small_sums_are_exact, value, value_of_hundredths, value_of_parts,
};
use vstd::prelude::*;

verus! {

/// How accurately the reference price matches the price at the start of the window.
#[derive(Clone, Copy, Debug, PartialEq, Eq, Structural)]
pub enum ReferenceQuality {
    /// From the oracle's chain, so many seconds from the window start.
    OnChain(u64),
    /// A snapshot within 2 s of the window start.
    Exact,
    /// A recorded price, so many seconds from the window start.
    Historical(u64),
    /// The price at discovery.
    Current,
}

impl ReferenceQuality {
    /// Confidence factor of the quality.
    pub open spec fn factor(self) -> Decimal {
        match self {
            ReferenceQuality::Exact => one(),
            ReferenceQuality::OnChain(s) => if s < 5 {
                one()
            } else if s < 15 {
                dec(98, 2)
            } else {
                dec(95, 2)
            },
            ReferenceQuality::Historical(s) => if s < 5 {
                dec(95, 2)
            } else {
                dec(85, 2)
            },
            ReferenceQuality::Current => dec(70, 2),
        }
    }

    /// Confidence factor of the quality: 1.0 for an exact snapshot, less the staler the
    /// reference is.
    pub fn quality_factor(&self) -> (r: Decimal)
        ensures
            r == self.factor(),
    {
        match self {
            ReferenceQuality::Exact => Decimal::one(),
            ReferenceQuality::OnChain(s) => if *s < 5 {
                Decimal::one()
            } else if *s < 15 {
                Decimal::new(98, 2)
            } else {
                Decimal::new(95, 2)
            },
            ReferenceQuality::Historical(s) => if *s < 5 {
                Decimal::new(95, 2)
            } else {
                Decimal::new(85, 2)
            },
            ReferenceQuality::Current => Decimal::new(70, 2),
        }
    }

    /// The level of the quality.
    pub open spec fn level(self) -> ReferenceQualityLevel {
        match self {
            ReferenceQuality::Exact => ReferenceQualityLevel::Exact,
            ReferenceQuality::OnChain(_) => ReferenceQualityLevel::OnChain,
            ReferenceQuality::Historical(_) => ReferenceQualityLevel::Historical,
            ReferenceQuality::Current => ReferenceQualityLevel::Current,
        }
    }

    /// The level of the quality.
    pub fn as_level(&self) -> (r: ReferenceQualityLevel)
        ensures
            r == self.level(),
    {
        match self {
            ReferenceQuality::Exact => ReferenceQualityLevel::Exact,
            ReferenceQuality::OnChain(_) => ReferenceQualityLevel::OnChain,
            ReferenceQuality::Historical(_) => ReferenceQualityLevel::Historical,
            ReferenceQuality::Current => ReferenceQualityLevel::Current,
        }
    }

    /// Whether the quality is at least `min_level`.
    pub fn meets_threshold(&self, min_level: ReferenceQualityLevel) -> (r: bool)
        ensures
            r == (self.level().rank_of() >= min_level.rank_of()),
    {
        self.as_level().rank() >= min_level.rank()
    }
}

/// A higher level meets whatever a lower one meets.
pub proof fn threshold_is_monotone(
    a: ReferenceQuality,
    b: ReferenceQuality,
    min_level: ReferenceQualityLevel,
)
    requires
        a.level().rank_of() <= b.level().rank_of(),
        a.level().rank_of() >= min_level.rank_of(),
    ensures
        b.level().rank_of() >= min_level.rank_of(),
{
}

/// A price at a window boundary.
#[derive(Debug)]
pub struct BoundarySnapshot {
    pub timestamp: DateTime,
    pub price: Decimal,
    /// The feed it came from.
    pub source: String,
}

impl Clone for BoundarySnapshot {
    fn clone(&self) -> (r: Self)
        ensures
            r == *self,
    {
        BoundarySnapshot { timestamp: self.timestamp, price: self.price, source: self.source.clone() }
    }
}

impl View for BoundarySnapshot {
    type V = BoundarySnapshot;

    open spec fn view(&self) -> BoundarySnapshot {
        *self
    }
}

/// A market with the reference price of its window.
#[derive(Debug)]
pub struct MarketWithReference {
    pub market: MarketInfo,
    pub reference_price: Decimal,
    pub reference_quality: ReferenceQuality,
    pub discovery_time: DateTime,
    /// Coin symbol.
    pub coin: String,
    /// Start of the window, in unix seconds.
    pub window_ts: i64,
}

impl Clone for MarketWithReference {
    fn clone(&self) -> (r: Self)
        ensures
            r == *self,
    {
        MarketWithReference {
            market: self.market.clone(),
            reference_price: self.reference_price,
            reference_quality: self.reference_quality,
            discovery_time: self.discovery_time,
            coin: self.coin.clone(),
            window_ts: self.window_ts,
        }
    }
}

impl View for MarketWithReference {
    type V = MarketWithReference;

    open spec fn view(&self) -> MarketWithReference {
        *self
    }
}

/// The outcome that a price away from the reference points to.
pub open spec fn winner_of(reference: Decimal, current: Decimal) -> Option<OutcomeSide> {
    if less(reference, current) {
        Some(OutcomeSide::Up)
    } else if less(current, reference) {
        Some(OutcomeSide::Down)
    } else {
        None
    }
}

/// The outcome that a price away from the reference points to.
pub fn predict_side(reference: Decimal, current: Decimal) -> (r: Option<OutcomeSide>)
    ensures
        r == winner_of(reference, current),
{
    if current.gt(reference) {
        Some(OutcomeSide::Up)
    } else if current.lt(reference) {
        Some(OutcomeSide::Down)
    } else {
        None
    }
}

/// `|current - reference| / |reference|`, or zero for a zero reference.
pub open spec fn distance_of(reference: Decimal, current: Decimal) -> Option<Decimal> {
    if reference.mantissa_of() == 0 {
        Some(zero())
    } else {
        match over(minus(Some(current), Some(reference)), Some(reference)) {
            Some(d) => Some(magnitude(d)),
            None => None,
        }
    }
}

/// The relative distance of a price from the reference.
pub fn distance_pct(reference: Decimal, current: Decimal) -> (r: Result<Decimal, Overflow>)
    ensures
        ok_of(r) == distance_of(reference, current),
        r is Ok ==> r->Ok_0.mantissa_of() >= 0,
{
    proof {
        lemma_dec_parts(0, 0);
    }
    if reference.is_zero() {
        return Ok(Decimal::zero());
    }
    let diff: Decimal = current.minus(reference)?;
    let ratio: Decimal = diff.over(reference)?;
    Ok(ratio.abs())
}

/// Confidence before the quality discount.
pub open spec fn raw_confidence_of(
    distance: Decimal,
    market_price: Decimal,
    time_remaining_secs: i64,
) -> Option<Decimal> {
    if time_remaining_secs < 120 && at_most(dec(90, 2), market_price) {
        Some(one())
    } else if time_remaining_secs <= 300 {
        let base = times(Some(distance), Some(dec(66, 0)));
        let boost = plus(
            Some(one()),
            times(minus(Some(market_price), Some(dec(50, 2))), Some(dec(5, 1))),
        );
        match times(base, boost) {
            Some(d) => Some(smaller(d, one())),
            None => None,
        }
    } else {
        match times(Some(distance), Some(dec(50, 0))) {
            Some(d) => Some(smaller(d, one())),
            None => None,
        }
    }
}

/// Confidence at a distance from the reference, discounted by the quality factor; at most 1.
pub open spec fn distance_confidence_of(
    distance: Decimal,
    factor: Decimal,
    market_price: Decimal,
    time_remaining_secs: i64,
) -> Option<Decimal> {
    match times(
        raw_confidence_of(distance, market_price, time_remaining_secs),
        Some(factor),
    ) {
        Some(d) => Some(smaller(d, one())),
        None => None,
    }
}

/// Confidence in a prediction: certain near the end at a high price, else growing with the
/// distance from the reference; discounted by the quality factor; at most 1.
pub open spec fn confidence_of(
    reference: Decimal,
    factor: Decimal,
    current: Decimal,
    market_price: Decimal,
    time_remaining_secs: i64,
) -> Option<Decimal> {
    match distance_of(reference, current) {
        None => None,
        Some(distance) => distance_confidence_of(
            distance,
            factor,
            market_price,
            time_remaining_secs,
        ),
    }
}

/// The boost `1 + part` for a part between -0.5 and 0.5 is exact and positive.
proof fn lemma_boost_is_positive(part: Decimal)
    requires
        fits(part.mantissa_of(), part.scale_of()),
        part.mantissa_of() > 0 ==> at_most(part, dec(5, 1)),
        part.mantissa_of() < 0 ==> at_most(negated(dec(5, 1)), part),
    ensures
        sum_of(one(), part) is Some,
        sum_of(one(), part)->0.mantissa_of() > 0,
{
    reveal(crate::decimal::sum_of);
    let m = part.mantissa_of();
    let unit = pow10(part.scale_of() as nat);
    lemma_dec_parts(1, 0);
    lemma_dec_parts(5, 1);
    lemma_dec_parts(-5, 1);
    lemma_pow10_in_range(part.scale_of() as nat);
    assert(pow10(0) == 1 && pow10(1) == 10 * pow10(0));
    assert(-5 * unit <= m * 10 <= 5 * unit);
    assert(1 * unit == unit && m * pow10(0) == m) by (nonlinear_arith)
        requires
            pow10(0) == 1,
    ;
    assert(fits(unit + m, part.scale_of()));
    lemma_dec_parts(unit + m, part.scale_of());
}

/// Full confidence times a quality factor is the confidence at that quality.
proof fn lemma_confidence_scales(raw: Decimal, factor: Decimal)
    requires
        fits(raw.mantissa_of(), raw.scale_of()),
        at_most(raw, one()),
    ensures
        ({
            let full = product_of(raw, one());
            full is Some && product_of(smaller(full->0, one()), factor) == product_of(raw, factor)
        }),
{
    lemma_dec_parts(1, 0);
    lemma_dec_parts(0, 0);
    lemma_dec_whole(raw);
    assert(pow10(0) == 1);
    if raw.mantissa_of() == 0 {
        lemma_zero_product(raw, one());
        lemma_zero_product(raw, factor);
        lemma_zero_product(zero(), factor);
        lemma_is_whole_number(zero(), 1);
    } else {
        reveal(crate::decimal::product_of);
        assert(raw.mantissa_of() * 1 == raw.mantissa_of());
    }
}

/// Confidence at a distance from the reference, the quality factor given. For a factor between
/// 0 and 1 it is at most the factor, and is the confidence at full quality times the factor; for
/// a price between 0 and 1 it is not negative.
pub fn confidence_at_distance(
    distance: Decimal,
    factor: Decimal,
    market_price: Decimal,
    time_remaining_secs: i64,
) -> (r: Result<Decimal, Overflow>)
    ensures
        ok_of(r) == distance_confidence_of(distance, factor, market_price, time_remaining_secs),
        r is Ok ==> at_most(r->Ok_0, one()),
        r is Ok && is_between_zero_and_one(market_price) && distance.mantissa_of() >= 0
            && factor.mantissa_of() >= 0 ==> at_most(zero(), r->Ok_0),
        r is Ok && factor.mantissa_of() >= 0 && at_most(factor, one()) ==> at_most(
            r->Ok_0,
            factor,
        ) && ok_of(r) == times(
            distance_confidence_of(distance, one(), market_price, time_remaining_secs),
            Some(factor),
        ),
{
    proof {
        lemma_dec_parts(0, 0);
        lemma_dec_parts(1, 0);
        lemma_dec_parts(66, 0);
        lemma_dec_parts(50, 0);
        reveal_with_fuel(pow10, 3);
        lemma_dec_parts(50, 2);
        assert(is_between_zero_and_one(dec(50, 2)));
    }
    let raw: Decimal = if time_remaining_secs < 120 && market_price.ge(Decimal::new(90, 2)) {
        Decimal::one()
    } else if time_remaining_secs <= 300 {
        let base: Decimal = distance.times(Decimal::new(66, 0))?;
        let above: Decimal = market_price.minus(Decimal::new(50, 2))?;
        let part: Decimal = above.times(Decimal::new(5, 1))?;
        proof {
            if is_between_zero_and_one(market_price) {
                lemma_dec_parts(5, 1);
                assert(at_most(dec(5, 1), one()));
                lemma_boost_is_positive(part);
            }
        }
        let boost: Decimal = Decimal::one().plus(part)?;
        base.times(boost)?.min(Decimal::one())
    } else {
        distance.times(Decimal::new(50, 0))?.min(Decimal::one())
    };
    proof {
        lemma_confidence_scales(raw, factor);
    }
    let discounted: Decimal = raw.times(factor)?;
    proof {
        lemma_is_whole_number(discounted, 0);
        lemma_is_whole_number(factor, 0);
        lemma_is_whole_number(raw, 0);
        if factor.mantissa_of() >= 0 && at_most(factor, one()) {
            if discounted.mantissa_of() <= 0 {
                at_most_is_transitive(discounted, zero(), factor);
            }
            at_most_is_transitive(discounted, factor, one());
        }
    }
    Ok(discounted.min(Decimal::one()))
}

/// Confidence in a prediction, the quality factor given. For a factor between 0 and 1 it is at
/// most the factor, and is the confidence at full quality times the factor; for a price between
/// 0 and 1 it is not negative.
pub fn confidence_score(
    reference: Decimal,
    factor: Decimal,
    current: Decimal,
    market_price: Decimal,
    time_remaining_secs: i64,
) -> (r: Result<Decimal, Overflow>)
    ensures
        ok_of(r) == confidence_of(reference, factor, current, market_price, time_remaining_secs),
        r is Ok ==> at_most(r->Ok_0, one()),
        r is Ok && is_between_zero_and_one(market_price) && factor.mantissa_of() >= 0 ==> at_most(
            zero(),
            r->Ok_0,
        ),
        r is Ok && factor.mantissa_of() >= 0 && at_most(factor, one()) ==> at_most(
            r->Ok_0,
            factor,
        ) && ok_of(r) == times(
            confidence_of(reference, one(), current, market_price, time_remaining_secs),
            Some(factor),
        ),
{
    let distance: Decimal = distance_pct(reference, current)?;
    confidence_at_distance(distance, factor, market_price, time_remaining_secs)
}

/// A confidence is at most 1.
pub proof fn confidence_at_most_one(
    reference: Decimal,
    factor: Decimal,
    current: Decimal,
    market_price: Decimal,
    time_remaining_secs: i64,
)
    requires
        confidence_of(reference, factor, current, market_price, time_remaining_secs) is Some,
    ensures
        at_most(
            confidence_of(reference, factor, current, market_price, time_remaining_secs)->0,
            one(),
        ),
{
}

impl MarketWithReference {
    /// The outcome that the current price points to; none at the reference itself.
    pub fn predict_winner(&self, current_price: Decimal) -> (r: Option<OutcomeSide>)
        ensures
            r == winner_of(self.reference_price, current_price),
    {
        predict_side(self.reference_price, current_price)
    }

    /// Confidence in the prediction, between 0 and 1 for a price between 0 and 1; an error
    /// where the arithmetic leaves the decimal range. It is at most the factor of the reference
    /// quality, and is the confidence for an exact reference times that factor.
    pub fn get_confidence(
        &self,
        current_price: Decimal,
        market_price: Decimal,
        time_remaining_secs: i64,
    ) -> (r: Result<Decimal, Overflow>)
        ensures
            ok_of(r) == confidence_of(
                self.reference_price,
                self.reference_quality.factor(),
                current_price,
                market_price,
                time_remaining_secs,
            ),
            r is Ok ==> at_most(r->Ok_0, one()),
            r is Ok && is_between_zero_and_one(market_price) ==> at_most(zero(), r->Ok_0),
            r is Ok ==> at_most(r->Ok_0, self.reference_quality.factor()),
            r is Ok ==> ok_of(r) == times(
                confidence_of(
                    self.reference_price,
                    one(),
                    current_price,
                    market_price,
                    time_remaining_secs,
                ),
                Some(self.reference_quality.factor()),
            ),
    {
        proof {
            reveal_with_fuel(pow10, 3);
            lemma_dec_parts(1, 0);
            lemma_dec_parts(98, 2);
            lemma_dec_parts(95, 2);
            lemma_dec_parts(85, 2);
            lemma_dec_parts(70, 2);
        }
        confidence_score(
            self.reference_price,
            self.reference_quality.quality_factor(),
            current_price,
            market_price,
            time_remaining_secs,
        )
    }
}

/// A fair price from several feeds.
#[derive(Clone, Copy, Debug)]
pub struct CompositePriceResult {
    /// Weighted average.
    pub price: Decimal,
    /// Number of feeds.
    pub sources_used: usize,
    /// Largest lag, in milliseconds.
    pub max_lag_ms: i64,
    /// Largest deviation from the average, in basis points.
    pub dispersion_bps: Decimal,
}

impl View for CompositePriceResult {
    type V = CompositePriceResult;

    open spec fn view(&self) -> CompositePriceResult {
        *self
    }
}

/// A fair price as a position last saw it.
#[derive(Clone, Copy, Debug)]
pub struct CompositePriceSnapshot {
    pub price: Decimal,
    pub sources_used: usize,
    pub max_lag_ms: i64,
    pub dispersion_bps: Decimal,
}

/// The snapshot of a composite price.
pub open spec fn snapshot_of(r: CompositePriceResult) -> CompositePriceSnapshot {
    CompositePriceSnapshot {
        price: r.price,
        sources_used: r.sources_used,
        max_lag_ms: r.max_lag_ms,
        dispersion_bps: r.dispersion_bps,
    }
}

impl CompositePriceSnapshot {
    /// The snapshot of a composite price.
    pub fn from_result(r: &CompositePriceResult) -> (s: Self)
        ensures
            s == snapshot_of(*r),
    {
        CompositePriceSnapshot {
            price: r.price,
            sources_used: r.sources_used,
            max_lag_ms: r.max_lag_ms,
            dispersion_bps: r.dispersion_bps,
        }
    }
}

/// The price points up where it is above the reference, down where it is below, and nowhere where
/// the two are equal.
pub proof fn the_winner_is_the_side_the_price_is_on(reference: Decimal, current: Decimal)
    ensures
        winner_of(reference, current) == Some(OutcomeSide::Up) <==> value(current) > value(
            reference,
        ),
        winner_of(reference, current) == Some(OutcomeSide::Down) <==> value(current) < value(
            reference,
        ),
        winner_of(reference, current) is None <==> value(current) == value(reference),
{
    comparing_compares_values(reference, current);
    comparing_compares_values(current, reference);
}

/// The distance is the share of the reference by which the price is off, whichever way. The 28th
/// digit is left to rounding.
pub proof fn the_distance_is_a_share_of_the_reference(reference: Decimal, current: Decimal)
    requires
        value(reference) > 0 as real,
        difference_is_exact(current, reference),
        distance_of(reference, current) is Some,
    ensures
        ({
            let d = value(distance_of(reference, current)->0);
            d >= 0 as real && is_ratio(
                abs_of(value(current) - value(reference)),
                value(reference),
                d,
            )
        }),
{
    signs_agree(reference);
    differences_add_up(current, reference);
    let off = difference_of(current, reference)->0;
    quotients_divide(off, reference);
    let q = quotient_of(off, reference)->0;
    lemma_quotient_is_decimal(off, reference);
    negating_negates(q);
    let (x, y, z) = (value(off), value(reference), value(q));
    if x < 0 as real {
        assert((-z) * y - (-x) == -(z * y - x)) by (nonlinear_arith);
    }
}

/// A market without a reference is at no distance from it.
pub proof fn without_a_reference_there_is_no_distance(reference: Decimal, current: Decimal)
    requires
        value(reference) == 0 as real,
    ensures
        distance_of(reference, current) == Some(zero()),
{
    signs_agree(reference);
}

/// How far the quality of a reference lowers the confidence: not at all for one taken at the
/// boundary or on chain within 5 seconds of it, and to no less than 0.70.
pub proof fn worse_references_lower_the_confidence(q: ReferenceQuality)
    ensures
        ({
            let f = value(q.factor()) * (100 as real);
            &&& 70 as real <= f <= 100 as real
            &&& q is Exact ==> f == 100 as real
            &&& q is OnChain && q->OnChain_0 < 5 ==> f == 100 as real
            &&& q is OnChain && 5 <= q->OnChain_0 < 15 ==> f == 98 as real
            &&& q is OnChain && 15 <= q->OnChain_0 ==> f == 95 as real
            &&& q is Historical && q->Historical_0 < 5 ==> f == 95 as real
            &&& q is Historical && 5 <= q->Historical_0 ==> f == 85 as real
            &&& q is Current ==> f == 70 as real
        }),
{
    value_of_hundredths(98);
    value_of_hundredths(95);
    value_of_hundredths(85);
    value_of_hundredths(70);
    signs_agree(one());
}

/// A confidence, at most 1 before and after an exact factor lowers it.
proof fn lemma_capped_confidence(raw: Decimal, factor: Decimal)
    requires
        is_within(raw, 7, 17),
        is_within(factor, 0, 2),
    ensures
        ({
            let capped = smaller(raw, one());
            let full = product_of(capped, factor);
            &&& full is Some
            &&& value(smaller(full->0, one())) == min_of(
                min_of(value(raw), 1 as real) * value(factor),
                1 as real,
            )
        }),
{
    signs_agree(one());
    lemma_within_basics(raw, 7, 17);
    lemma_within_more(one(), 0, 0, 7, 17);
    picking_picks_values(raw, one());
    small_products_are_exact(smaller(raw, one()), factor, 7, 17, 0, 2);
    picking_picks_values(product_of(smaller(raw, one()), factor)->0, one());
}

/// 50 times a distance.
proof fn lemma_far_confidence(distance: Decimal)
    requires
        is_within(distance, 2, 10),
    ensures
        product_of(distance, dec(50, 0)) is Some,
        is_within(product_of(distance, dec(50, 0))->0, 7, 17),
        value(product_of(distance, dec(50, 0))->0) == value(distance) * (50 as real),
{
    lemma_dec_parts(50, 0);
    value_of_parts(50, 0);
    reveal_with_fuel(crate::decimal::pow10, 3);
    small_products_are_exact(distance, dec(50, 0), 2, 10, 2, 0);
    lemma_within_more(product_of(distance, dec(50, 0))->0, 4, 10, 7, 17);
}

/// 1 and half of what a price is above 0.50.
proof fn lemma_boost(market_price: Decimal)
    requires
        is_within(market_price, 1, 6),
    ensures
        ({
            let boost = plus(
                Some(one()),
                times(minus(Some(market_price), Some(dec(50, 2))), Some(dec(5, 1))),
            );
            &&& boost is Some
            &&& is_within(boost->0, 3, 7)
            &&& value(boost->0) == 1 as real + (value(market_price) - (1 as real) / (2 as real)) / (
            2 as real)
        }),
{
    lemma_dec_parts(50, 2);
    lemma_dec_parts(5, 1);
    value_of_parts(5, 1);
    value_of_hundredths(50);
    signs_agree(one());
    assert(is_within(dec(50, 2), 0, 2) && is_within(dec(5, 1), 0, 1) && pow10(1) == 10) by {
        reveal_with_fuel(crate::decimal::pow10, 3);
    }
    lemma_within_more(dec(50, 2), 0, 2, 1, 6);
    small_sums_are_exact(market_price, dec(50, 2), 1, 6);
    let above = difference_of(market_price, dec(50, 2))->0;
    small_products_are_exact(above, dec(5, 1), 2, 6, 0, 1);
    let half = product_of(above, dec(5, 1))->0;
    lemma_within_basics(half, 2, 7);
    lemma_within_more(one(), 0, 0, 2, 7);
    small_sums_are_exact(one(), half, 2, 7);
    let a = value(above);
    assert(value(half) == a / (2 as real)) by (nonlinear_arith)
        requires
            value(half) == a * ((5 as real) / (10 as real)),
    ;
}

/// 66 times a distance, times a boost.
proof fn lemma_near_confidence(distance: Decimal, boost: Decimal)
    requires
        is_within(distance, 2, 10),
        is_within(boost, 3, 7),
    ensures
        ({
            let near = times(times(Some(distance), Some(dec(66, 0))), Some(boost));
            &&& near is Some
            &&& is_within(near->0, 7, 17)
            &&& value(near->0) == (value(distance) * (66 as real)) * value(boost)
        }),
{
    lemma_dec_parts(66, 0);
    value_of_parts(66, 0);
    assert(is_within(dec(66, 0), 2, 0)) by {
        reveal_with_fuel(crate::decimal::pow10, 3);
    }
    small_products_are_exact(distance, dec(66, 0), 2, 10, 2, 0);
    small_products_are_exact(product_of(distance, dec(66, 0))->0, boost, 4, 10, 3, 7);
}

/// The confidence that a distance gives. In the last two minutes, at a market price of 0.90 or
/// more, it is full. In the last five minutes it is 66 times the distance, raised or lowered by half
/// of what the market price is above or below 0.50; before that, 50 times the distance. It is at
/// most 1 before and after the factor of the reference lowers it.
pub proof fn confidence_grows_with_the_distance(
    distance: Decimal,
    factor: Decimal,
    market_price: Decimal,
    left: i64,
)
    requires
        is_within(distance, 2, 10),
        is_within(factor, 0, 2),
        is_within(market_price, 1, 6),
    ensures
        ({
            let c = distance_confidence_of(distance, factor, market_price, left);
            let (d, f, p) = (value(distance), value(factor), value(market_price));
            let boost = 1 as real + (p - (1 as real) / (2 as real)) / (2 as real);
            let sure = left < 120 && p * (10 as real) >= 9 as real;
            &&& c is Some
            &&& sure ==> value(c->0) == min_of(f, 1 as real)
            &&& !sure && left <= 300 ==> value(c->0) == min_of(
                min_of((d * (66 as real)) * boost, 1 as real) * f,
                1 as real,
            )
            &&& !sure && left > 300 ==> value(c->0) == min_of(
                min_of(d * (50 as real), 1 as real) * f,
                1 as real,
            )
        }),
{
    value_of_hundredths(90);
    comparing_compares_values(dec(90, 2), market_price);
    if left < 120 && value(market_price) * (10 as real) >= 9 as real {
        signs_agree(one());
        lemma_within_basics(distance, 2, 10);
        lemma_within_more(one(), 0, 0, 7, 17);
        lemma_capped_confidence(one(), factor);
        assert((1 as real) * value(factor) == value(factor)) by (nonlinear_arith);
    } else if left <= 300 {
        lemma_boost(market_price);
        let boost = plus(
            Some(one()),
            times(minus(Some(market_price), Some(dec(50, 2))), Some(dec(5, 1))),
        )->0;
        lemma_near_confidence(distance, boost);
        lemma_capped_confidence(
            times(times(Some(distance), Some(dec(66, 0))), Some(boost))->0,
            factor,
        );
    } else {
        lemma_far_confidence(distance);
        lemma_capped_confidence(product_of(distance, dec(50, 0))->0, factor);
    }
}

} // verus!
