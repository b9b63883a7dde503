//! Entries: whether a market is worth entering near its end, at what size and price.
use crate::config::TailEndConfig;
use crate::decimal::{
    Decimal, Overflow, at_most, at_most_is_transitive, dec, difference_of, lemma_dec_parts,
    lemma_pow10_grows, less, magnitude, minus, ok_of, one, over, plus, pow10, product_of,
    quotient_of, smaller, sum_of, times, truncated, zero,
};
use crate::domain::market::{CompositePriceResult, MarketWithReference, winner_of};
use crate::domain::position::{ArbitrageMode, ArbitrageOpportunity, PendingOrder};
use crate::domain::telemetry::OrderTelemetry;
use crate::exchange::{
    Action, ActionView, ChainQuote, MarketData, MarketId, MarketInfo, OrderRequest, OrderSide,
    OrderType, OrderbookSnapshot, OutcomeSide, SourcedPrice, TokenId, acts, lemma_acts_push,
};
use crate::fee_math::{checked_taker_fee, taker_fee_of};
use crate::runtime::{CryptoArbRuntime, PriceEntry, bumped, counted, signed, to_signed};
use crate::services::feed::price_recorded;
use crate::services::market::waits;
use crate::services::order::cooling;
use crate::services::position::{exposed_in, slots_used};
use crate::services::pricing::{
    a_sustained_move_stays_on_its_side, a_window_holds_what_came_in_since, composite_cached,
    composite_of, opt_rows, recent_volatility, steady_prices_have_little_volatility, sustained,
    volatility_is_the_largest_deviation, wick_of,
};
use crate::table::{
    Table, dropped, has_key, lemma_dropped_undoes_stored, lemma_has_row, lemma_lookup_stored,
    lookup, row_of, stored,
};
use crate::tailend::exit::{TailEndStrategy, fast_path_run};
use crate::text::same_text;
use crate::time::{
    DateTime, secs_between, shifted, shifting_moves_by_seconds, whole_seconds_have_passed,
};
use crate::value::{
    abs_of, comparing_compares_values, cutting_takes_less_than_a_unit, difference_is_exact,
    differences_add_up, is_amount, is_ratio, is_within, lemma_quotient_is_decimal,
    lemma_slack_grows, lemma_slack_is_positive, lemma_within_more, max_of, min_of,
    negating_negates, picking_picks_values, product_is_exact, products_multiply, quotients_compare,
    quotients_divide, signs_agree, slack, small_products_are_exact, small_sums_are_exact,
    sum_is_exact, sums_add_up, value, value_of_hundredths, value_of_parts,
};
use vstd::prelude::*;

verus! {

/// Why a market was not entered.
#[derive(Clone, Copy, Debug, PartialEq, Eq, Structural)]
pub enum SkipReason {
    TimeWindow,
    AutoDisabled,
    RefQuality,
    NoPrediction,
    StrikeProximity,
    NoAsk,
    Threshold,
    Spread,
    Sustained,
    Volatility,
    CoinNotNearExpiry,
    CompositeStale,
    StaleCooldown,
    RejectionCooldown,
    RecoveryCooldown,
    Reservation,
    StaleOb,
}

impl SkipReason {
    /// The name under which the reason is counted.
    pub open spec fn name_of(self) -> Seq<char> {
        match self {
            SkipReason::TimeWindow => "time_window"@,
            SkipReason::AutoDisabled => "auto_disabled"@,
            SkipReason::RefQuality => "ref_quality"@,
            SkipReason::NoPrediction => "no_prediction"@,
            SkipReason::StrikeProximity => "strike_proximity"@,
            SkipReason::NoAsk => "no_ask"@,
            SkipReason::Threshold => "threshold"@,
            SkipReason::Spread => "spread"@,
            SkipReason::Sustained => "sustained"@,
            SkipReason::Volatility => "volatility"@,
            SkipReason::CoinNotNearExpiry => "coin_not_near_expiry"@,
            SkipReason::CompositeStale => "composite_stale"@,
            SkipReason::StaleCooldown => "stale_cooldown"@,
            SkipReason::RejectionCooldown => "rejection_cooldown"@,
            SkipReason::RecoveryCooldown => "recovery_cooldown"@,
            SkipReason::Reservation => "reservation"@,
            SkipReason::StaleOb => "stale_ob"@,
        }
    }

    /// The name under which the reason is counted.
    pub fn name(self) -> (r: &'static str)
        ensures
            r@ == self.name_of(),
    {
        match self {
            SkipReason::TimeWindow => "time_window",
            SkipReason::AutoDisabled => "auto_disabled",
            SkipReason::RefQuality => "ref_quality",
            SkipReason::NoPrediction => "no_prediction",
            SkipReason::StrikeProximity => "strike_proximity",
            SkipReason::NoAsk => "no_ask",
            SkipReason::Threshold => "threshold",
            SkipReason::Spread => "spread",
            SkipReason::Sustained => "sustained",
            SkipReason::Volatility => "volatility",
            SkipReason::CoinNotNearExpiry => "coin_not_near_expiry",
            SkipReason::CompositeStale => "composite_stale",
            SkipReason::StaleCooldown => "stale_cooldown",
            SkipReason::RejectionCooldown => "rejection_cooldown",
            SkipReason::RecoveryCooldown => "recovery_cooldown",
            SkipReason::Reservation => "reservation",
            SkipReason::StaleOb => "stale_ob",
        }
    }
}

/// What a market's evaluation comes to.
#[derive(Debug)]
pub enum EntryVerdict {
    /// Not now.
    Skip(SkipReason),
    /// Worth entering.
    Enter(ArbitrageOpportunity),
}

/// A threshold's bucket covers a time remaining.
pub open spec fn bucket_covers(bucket: u64, time_remaining: int) -> bool {
    time_remaining <= bucket
}

/// The highest threshold whose bucket covers a time remaining; the first one of equals.
pub open spec fn tightest(thresholds: Seq<(u64, Decimal)>, time_remaining: int) -> Option<Decimal>
    decreases thresholds.len(),
{
    if thresholds.len() == 0 {
        None
    } else {
        let best = tightest(thresholds.drop_last(), time_remaining);
        let t = thresholds.last();
        if bucket_covers(t.0, time_remaining) && (best is None || less(best->0, t.1)) {
            Some(t.1)
        } else {
            best
        }
    }
}

/// The least ask at a time remaining.
pub open spec fn ask_threshold_of(te: TailEndConfig, time_remaining: int) -> Decimal {
    match tightest(te.dynamic_thresholds@, time_remaining) {
        Some(threshold) => threshold,
        None => te.ask_threshold,
    }
}

/// The threshold that counts is one whose bucket covers the time remaining, and no other such
/// threshold is higher; there is none exactly where no bucket covers it.
pub proof fn tightest_threshold_counts(
    thresholds: Seq<(u64, Decimal)>,
    time_remaining: int,
)
    ensures
        tightest(thresholds, time_remaining) is Some <==> exists|i: int|
            0 <= i < thresholds.len() && bucket_covers(
                (#[trigger] thresholds[i]).0,
                time_remaining,
            ),
        tightest(thresholds, time_remaining) is Some ==> exists|i: int|
            0 <= i < thresholds.len() && bucket_covers(
                (#[trigger] thresholds[i]).0,
                time_remaining,
            ) && thresholds[i].1 == tightest(thresholds, time_remaining)->0,
        forall|i: int|
            0 <= i < thresholds.len() && bucket_covers(
                (#[trigger] thresholds[i]).0,
                time_remaining,
            ) ==> at_most(thresholds[i].1, tightest(thresholds, time_remaining)->0),
    decreases thresholds.len(),
{
    if thresholds.len() > 0 {
        let h = thresholds.drop_last();
        tightest_threshold_counts(h, time_remaining);
        let best = tightest(h, time_remaining);
        let t = thresholds.last();
        assert(thresholds[thresholds.len() - 1] == t);
        if exists|i: int|
            0 <= i < thresholds.len() && bucket_covers((#[trigger] thresholds[i]).0, time_remaining) {
            let i = choose|i: int|
                0 <= i < thresholds.len() && bucket_covers(
                    (#[trigger] thresholds[i]).0,
                    time_remaining,
                );
            if i < h.len() {
                assert(h[i] == thresholds[i]);
            }
        }
        if best is Some {
            let k = choose|k: int|
                0 <= k < h.len() && bucket_covers((#[trigger] h[k]).0, time_remaining) && h[k].1
                    == best->0;
            assert(thresholds[k] == h[k]);
        }
        assert forall|i: int|
            0 <= i < thresholds.len() && bucket_covers(
                (#[trigger] thresholds[i]).0,
                time_remaining,
            ) implies at_most(thresholds[i].1, tightest(thresholds, time_remaining)->0) by {
            if i < h.len() {
                assert(h[i] == thresholds[i]);
                if less(best->0, t.1) {
                    at_most_is_transitive(thresholds[i].1, best->0, t.1);
                }
            }
        }
    }
}

/// The price is far enough from the reference. `None` is an overflow.
pub open spec fn strike_ok(reference: Decimal, price: Decimal, min_distance: Decimal) -> Option<bool> {
    if reference.mantissa_of() == 0 || min_distance.mantissa_of() == 0 {
        Some(true)
    } else {
        match wick_of(price, reference) {
            Some(d) => Some(!less(d, min_distance)),
            None => None,
        }
    }
}

/// The spread is too wide: `(ask - bid) / ((ask + bid) / 2) > max_bps / 10000`, for positive
/// prices. `None` is an overflow.
pub open spec fn spread_wide(bid: Option<Decimal>, ask: Decimal, max_bps: Decimal) -> Option<bool> {
    match bid {
        None => Some(false),
        Some(b) => if less(zero(), b) && less(zero(), ask) {
            let ratio = over(
                minus(Some(ask), Some(b)),
                over(plus(Some(ask), Some(b)), Some(dec(2, 0))),
            );
            match (ratio, over(Some(max_bps), Some(dec(10000, 0)))) {
                (Some(x), Some(limit)) => Some(less(limit, x)),
                _ => None,
            }
        } else {
            Some(false)
        },
    }
}

/// A spread is too wide where `20000 * (ask - bid)` is more than the limit in basis points times
/// `ask + bid`, and not where it is less; the 28th digit of each quotient is left to rounding.
pub proof fn a_wide_spread_exceeds_the_limit(bid: Decimal, ask: Decimal, max_bps: Decimal)
    requires
        value(bid) > 0 as real,
        value(ask) > 0 as real,
        value(max_bps) >= 0 as real,
        difference_is_exact(ask, bid),
        sum_is_exact(ask, bid),
        spread_wide(Some(bid), ask, max_bps) is Some,
    ensures
        ({
            let (b, a, m) = (value(bid), value(ask), value(max_bps));
            let wide = spread_wide(Some(bid), ask, max_bps)->0;
            let (t, u) = ((2 as real) * slack(a + b), (20000 as real) * slack(m));
            &&& !wide ==> (20000 as real) * (a - b) <= (a + b + t) * (m + u)
            &&& a >= b && a + b >= t && m >= u && (20000 as real) * (a - b) <= (a + b - t) * (m - u)
                ==> !wide
        }),
{
    signs_agree(bid);
    signs_agree(ask);
    differences_add_up(ask, bid);
    sums_add_up(ask, bid);
    value_of_parts(2, 0);
    value_of_parts(10000, 0);
    let spread = difference_of(ask, bid)->0;
    let total = sum_of(ask, bid)->0;
    let mid = quotient_of(total, dec(2, 0))->0;
    let limit = quotient_of(max_bps, dec(10000, 0))->0;
    let ratio = quotient_of(spread, mid)->0;
    quotients_divide(total, dec(2, 0));
    quotients_divide(max_bps, dec(10000, 0));
    quotients_divide(spread, mid);
    quotients_compare(spread, mid, limit);
    let (s, y, l, m, z) = (value(spread), value(mid), value(limit), value(max_bps), value(total));
    let e = pow10(28) as real;
    reveal_with_fuel(pow10, 2);
    lemma_pow10_grows(0, 27);
    // Halving: `2 * mid` is within `2 * slack` of the total.
    let (t, u, w) = (slack(z), slack(m), slack(l));
    lemma_share_is_close(z, 2 as real, y);
    lemma_share_is_close(m, 10000 as real, l);
    assert((2 as real) * y <= z + (2 as real) * t && (2 as real) * y >= z - (2 as real) * t);
    assert((10000 as real) * l <= m + (10000 as real) * u && (10000 as real) * l >= m - (
    10000 as real) * u);
    assert(y > 0 as real) by {
        if y <= 0 as real {
            assert(y == 0 as real);
        }
    }
    if l >= value(ratio) {
        assert((20000 as real) * s <= (z + (2 as real) * t) * (m + (20000 as real) * u))
            by (nonlinear_arith)
            requires
                s <= y * (l + w),
                w <= u,
                y > 0 as real,
                l >= 0 as real,
                w >= 0 as real,
                u >= 0 as real,
                m >= 0 as real,
                (2 as real) * y <= z + (2 as real) * t,
                (10000 as real) * l <= m + (10000 as real) * u,
        {
            let f = (10000 as real) * (l + w);
            let g = m + (20000 as real) * u;
            let h = z + (2 as real) * t;
            assert(f <= g);
            assert((20000 as real) * s <= ((2 as real) * y) * f);
            assert(((2 as real) * y) * f <= h * f);
            assert(h * f <= h * g);
        }
    }
    if s >= 0 as real && z >= (2 as real) * t && m >= (20000 as real) * u && (20000 as real) * s <= (
    z - (2 as real) * t) * (m - (20000 as real) * u) {
        assert(s <= y * (l - w)) by (nonlinear_arith)
            requires
                (20000 as real) * s <= (z - (2 as real) * t) * (m - (20000 as real) * u),
                w <= u,
                y > 0 as real,
                z >= (2 as real) * t,
                m >= (20000 as real) * u,
                (2 as real) * y >= z - (2 as real) * t,
                (10000 as real) * l >= m - (10000 as real) * u,
        {
            let f = (10000 as real) * (l - w);
            let g = m - (20000 as real) * u;
            let h = z - (2 as real) * t;
            assert(g <= f);
            assert(h * g <= ((2 as real) * y) * g);
            assert(((2 as real) * y) * g <= ((2 as real) * y) * f);
            assert(((2 as real) * y) * f == (20000 as real) * (y * (l - w)));
        }
    }
}

/// A number divided by one of at least 2 is the number, but for a unit of the 28th digit, once it
/// is multiplied again; and needs no more slack than the number.
proof fn lemma_share_is_close(x: real, y: real, z: real)
    requires
        x >= 0 as real,
        y >= 2 as real,
        z >= 0 as real,
        is_ratio(x, y, z),
    ensures
        x - y * slack(x) <= y * z && y * z <= x + y * slack(x),
        slack(z) <= slack(x),
        slack(x) >= 0 as real,
        slack(z) >= 0 as real,
        z == 0 as real ==> x <= y * slack(x),
{
    let e = pow10(28) as real;
    reveal_with_fuel(pow10, 2);
    lemma_pow10_grows(0, 27);
    let w = max_of(1 as real, z);
    let v = max_of(1 as real, x);
    let gap = z * y - x;
    assert(abs_of(gap) * e <= y * w);
    let far = abs_of(gap);
    assert(gap * e <= y * w) by (nonlinear_arith)
        requires
            far * e <= y * w,
            gap <= far,
            e > 0 as real,
    ;
    assert(w <= v) by (nonlinear_arith)
        requires
            w == 1 as real || w == z && z > 1 as real,
            v >= 1 as real,
            v >= x,
            gap == z * y - x,
            gap * e <= y * w,
            y >= 2 as real,
            e >= 10 as real,
    {
        if w == z && z > x {
            assert(z * y - x <= (y * z) / (10 as real)) by {
                assert((z * y - x) * e <= y * z);
                if z * y - x > 0 as real {
                    assert((z * y - x) * (10 as real) <= (z * y - x) * e);
                }
            }
            assert(z * y >= (2 as real) * z);
            assert(false);
        }
    }
    assert(slack(x) * e == v && slack(z) * e == w) by (nonlinear_arith)
        requires
            slack(x) == v / e,
            slack(z) == w / e,
            e > 0 as real,
    ;
    let (sx, sz) = (slack(x), slack(z));
    assert(sz <= sx && sz >= 0 as real && sx >= 0 as real) by (nonlinear_arith)
        requires
            sx * e == v,
            sz * e == w,
            w <= v,
            w >= 1 as real,
            e > 0 as real,
    ;
    let size = abs_of(gap);
    assert(size <= y * sx) by (nonlinear_arith)
        requires
            size * e <= y * w,
            sx * e == v,
            w <= v,
            y > 0 as real,
            e > 0 as real,
    {
        assert(y * w <= y * v);
        assert(size * e <= (y * sx) * e);
    }
    assert(z * y == y * z) by (nonlinear_arith);
    if z == 0 as real {
        assert(z * y == 0 as real) by (nonlinear_arith)
            requires
                z == 0 as real,
        ;
    }
}

/// The token of an outcome.
pub open spec fn token_for(m: MarketInfo, side: OutcomeSide) -> TokenId {
    if side.bets_up() {
        m.token_ids.outcome_a
    } else {
        m.token_ids.outcome_b
    }
}

/// The side that a market may be entered on, by its time, the results so far, its reference
/// and the price. The outer `None` is an overflow.
pub open spec fn side_of(rt: CryptoArbRuntime, m: MarketWithReference, price: Decimal, now: DateTime) -> Option<
    Result<OutcomeSide, SkipReason>,
> {
    let te = rt.config.tailend;
    let left = secs_between(m.market.end_date, now);
    if left >= signed(te.time_threshold_secs) || left <= 0 {
        Some(Err(SkipReason::TimeWindow))
    } else {
        match rt.auto_disabled() {
            None => None,
            Some(true) => Some(Err(SkipReason::AutoDisabled)),
            Some(false) => if m.reference_quality.level().rank_of()
                < te.min_reference_quality.rank_of() {
                Some(Err(SkipReason::RefQuality))
            } else {
                match winner_of(m.reference_price, price) {
                    None => Some(Err(SkipReason::NoPrediction)),
                    Some(side) => match strike_ok(
                        m.reference_price,
                        price,
                        te.min_strike_distance_pct,
                    ) {
                        None => None,
                        Some(false) => Some(Err(SkipReason::StrikeProximity)),
                        Some(true) => Some(Ok(side)),
                    },
                }
            },
        }
    }
}

/// The ask at which a side may be bought, by its book. The outer `None` is an overflow.
pub open spec fn ask_of(
    rt: CryptoArbRuntime,
    book: Option<OrderbookSnapshot>,
    time_remaining: int,
) -> Option<Result<Decimal, SkipReason>> {
    let ask = match book {
        Some(ob) => ob.ask(),
        None => None,
    };
    let bid = match book {
        Some(ob) => ob.bid(),
        None => None,
    };
    match ask {
        None => Some(Err(SkipReason::NoAsk)),
        Some(a) => if less(a, ask_threshold_of(rt.config.tailend, time_remaining)) {
            Some(Err(SkipReason::Threshold))
        } else {
            match spread_wide(bid, a, rt.config.tailend.max_spread_bps) {
                None => None,
                Some(true) => Some(Err(SkipReason::Spread)),
                Some(false) => Some(Ok(a)),
            }
        },
    }
}

/// Seconds over which volatility is measured.
pub const VOLATILITY_WINDOW_SECS: u64 = 10;

/// What the recent prices have against a side, if anything. The outer `None` is an overflow.
pub open spec fn momentum_of(
    rt: CryptoArbRuntime,
    m: MarketWithReference,
    side: OutcomeSide,
    now: DateTime,
) -> Option<Option<SkipReason>> {
    let te = rt.config.tailend;
    let entries = lookup(rt.price_history.rows(), m.coin@);
    match sustained(
        entries,
        m.reference_price,
        side,
        te.min_sustained_secs,
        te.min_sustained_ticks as int,
        now,
    ) {
        None => None,
        Some(false) => Some(Some(SkipReason::Sustained)),
        Some(true) => match recent_volatility(
            entries,
            m.reference_price,
            VOLATILITY_WINDOW_SECS,
            now,
        ) {
            None => None,
            Some(None) => Some(None),
            Some(Some(v)) => Some(
                if less(te.max_recent_volatility, v) {
                    Some(SkipReason::Volatility)
                } else {
                    None
                },
            ),
        },
    }
}

/// The opportunity of buying a side at an ask. `None` is an overflow.
pub open spec fn opportunity_of(
    rt: CryptoArbRuntime,
    m: MarketWithReference,
    market_id: MarketId,
    side: OutcomeSide,
    ask: Decimal,
) -> Option<ArbitrageOpportunity> {
    let margin = minus(Some(one()), Some(ask));
    let fee = taker_fee_of(ask, rt.config.fee.taker_fee_rate);
    match (margin, fee, minus(margin, fee)) {
        (Some(profit_margin), Some(estimated_fee), Some(net_margin)) => Some(
            ArbitrageOpportunity {
                mode: ArbitrageMode::TailEnd,
                market_id,
                outcome_to_buy: side,
                token_id: token_for(m.market, side),
                buy_price: ask,
                confidence: one(),
                profit_margin,
                estimated_fee,
                net_margin,
            },
        ),
        _ => None,
    }
}

/// What the evaluation of a market comes to. `None` is an overflow.
pub open spec fn verdict_of(
    rt: CryptoArbRuntime,
    m: MarketWithReference,
    market_id: MarketId,
    price: Decimal,
    books: Seq<(Seq<char>, OrderbookSnapshot)>,
    now: DateTime,
) -> Option<EntryVerdict> {
    match side_of(rt, m, price, now) {
        None => None,
        Some(Err(reason)) => Some(EntryVerdict::Skip(reason)),
        Some(Ok(side)) => match ask_of(
            rt,
            lookup(books, token_for(m.market, side)@),
            secs_between(m.market.end_date, now),
        ) {
            None => None,
            Some(Err(reason)) => Some(EntryVerdict::Skip(reason)),
            Some(Ok(ask)) => match momentum_of(rt, m, side, now) {
                None => None,
                Some(Some(reason)) => Some(EntryVerdict::Skip(reason)),
                Some(None) => match opportunity_of(rt, m, market_id, side, ask) {
                    None => None,
                    Some(o) => Some(EntryVerdict::Enter(o)),
                },
            },
        },
    }
}

/// An entry is made only within the time window, on the side that the price points to, at
/// an ask no lower than the threshold, and its confidence is 1. It is made on a book with an ask,
/// with a spread no wider than the limit, at a price far enough from the reference, after a
/// sustained move on its side of the reference. The 28th digit of each quotient is left to
/// rounding.
pub proof fn entries_meet_the_conditions(
    rt: CryptoArbRuntime,
    m: MarketWithReference,
    market_id: MarketId,
    price: Decimal,
    books: Seq<(Seq<char>, OrderbookSnapshot)>,
    now: DateTime,
)
    requires
        verdict_of(rt, m, market_id, price, books, now) is Some,
        verdict_of(rt, m, market_id, price, books, now)->0 is Enter,
    ensures
        ({
            let o = verdict_of(rt, m, market_id, price, books, now)->0->Enter_0;
            let left = secs_between(m.market.end_date, now);
            &&& 0 < left < signed(rt.config.tailend.time_threshold_secs)
            &&& winner_of(m.reference_price, price) == Some(o.outcome_to_buy)
            &&& at_most(ask_threshold_of(rt.config.tailend, left), o.buy_price)
            &&& m.reference_quality.level().rank_of()
                >= rt.config.tailend.min_reference_quality.rank_of()
            &&& rt.auto_disabled() == Some(false)
            &&& o.confidence == one()
            &&& o.token_id == token_for(m.market, o.outcome_to_buy)
            &&& m.market.end_date.nanos_of() > now.nanos_of()
            &&& rt.config.tailend.time_threshold_secs <= i64::MAX ==> m.market.end_date.nanos_of()
                - now.nanos_of() < rt.config.tailend.time_threshold_secs * 1_000_000_000
            &&& o.outcome_to_buy == OutcomeSide::Up && value(price) > value(m.reference_price)
                && o.token_id == m.market.token_ids.outcome_a || o.outcome_to_buy
                == OutcomeSide::Down && value(price) < value(m.reference_price) && o.token_id
                == m.market.token_ids.outcome_b
            &&& o.market_id == market_id
            &&& lookup(books, o.token_id@) is Some && ({
                let ob = lookup(books, o.token_id@)->0;
                &&& ob.asks@.len() > 0 && o.buy_price == ob.asks@[0].price
                &&& ob.bids@.len() > 0 ==> spread_within(
                    ob.bids@[0].price,
                    o.buy_price,
                    rt.config.tailend.max_spread_bps,
                )
            })
            &&& forall|i: int|
                0 <= i < rt.config.tailend.dynamic_thresholds@.len() && left <= (
                #[trigger] rt.config.tailend.dynamic_thresholds@[i]).0 ==> value(o.buy_price)
                    >= value(rt.config.tailend.dynamic_thresholds@[i].1)
            &&& is_far_enough(price, m.reference_price, rt.config.tailend.min_strike_distance_pct)
            &&& lookup(rt.price_history.rows(), m.coin@) is Some
            &&& rt.config.tailend.min_sustained_secs <= i64::MAX ==> ({
                let start = now.nanos_of() - rt.config.tailend.min_sustained_secs * 1_000_000_000;
                let recent = lookup(rt.price_history.rows(), m.coin@)->0.filter(
                    |e: PriceEntry| e.received_at.nanos_of() >= start,
                );
                &&& recent.len() >= rt.config.tailend.min_sustained_ticks
                &&& forall|i: int|
                    0 <= i < recent.len() ==> if o.outcome_to_buy == OutcomeSide::Up {
                        value((#[trigger] recent[i]).price) > value(m.reference_price)
                    } else {
                        value(recent[i].price) < value(m.reference_price)
                    }
            })
            &&& steady_since(
                lookup(rt.price_history.rows(), m.coin@)->0,
                now.nanos_of() - 10_000_000_000,
                m.reference_price,
                rt.config.tailend.max_recent_volatility,
            )
        }),
{
    let te = rt.config.tailend;
    let o = verdict_of(rt, m, market_id, price, books, now)->0->Enter_0;
    let left = secs_between(m.market.end_date, now);
    comparing_compares_values(m.reference_price, price);
    comparing_compares_values(price, m.reference_price);
    tightest_threshold_counts(te.dynamic_thresholds@, left);
    let ask = o.buy_price;
    let ob = lookup(books, o.token_id@)->0;
    if ob.bids@.len() > 0 {
        let bid = ob.bids@[0].price;
        if value(bid) > 0 as real && value(ask) > 0 as real && value(te.max_spread_bps) >= 0 as real
            && difference_is_exact(ask, bid) && sum_is_exact(ask, bid) {
            a_wide_spread_exceeds_the_limit(bid, ask, te.max_spread_bps);
        }
    }
    assert forall|i: int|
        0 <= i < te.dynamic_thresholds@.len() && left <= (
        #[trigger] te.dynamic_thresholds@[i]).0 implies value(ask) >= value(
        te.dynamic_thresholds@[i].1,
    ) by {
        assert(bucket_covers(te.dynamic_thresholds@[i].0, left));
        comparing_compares_values(te.dynamic_thresholds@[i].1, ask_threshold_of(te, left));
        comparing_compares_values(ask_threshold_of(te, left), ask);
    }
    lemma_far_enough(price, m.reference_price, te.min_strike_distance_pct);
    let entries = lookup(rt.price_history.rows(), m.coin@)->0;
    if te.min_sustained_secs <= i64::MAX {
        a_sustained_move_stays_on_its_side(
            entries,
            m.reference_price,
            o.outcome_to_buy,
            te.min_sustained_secs,
            te.min_sustained_ticks as int,
            now,
        );
    }
    lemma_steady(rt, m, now, entries);
}

/// A market is entered where everything speaks for it: with time left but less than the window,
/// the strategy not disabled, a reference of sufficient quality, a price far enough above or below
/// it, and, on the side that the price points to, an ask no lower than any threshold, a spread
/// within the limit, enough recent prices, all on that side of the reference, and none of the
/// last ten seconds' too far from it; the 28th digit of each quotient aside.
pub proof fn a_market_that_meets_the_conditions_is_entered(
    rt: CryptoArbRuntime,
    m: MarketWithReference,
    market_id: MarketId,
    price: Decimal,
    books: Seq<(Seq<char>, OrderbookSnapshot)>,
    now: DateTime,
    ob: OrderbookSnapshot,
    entries: Seq<PriceEntry>,
)
    requires
        verdict_of(rt, m, market_id, price, books, now) is Some,
        rt.auto_disabled() == Some(false),
        m.reference_quality.level().rank_of()
            >= rt.config.tailend.min_reference_quality.rank_of(),
        rt.config.tailend.time_threshold_secs <= i64::MAX,
        rt.config.tailend.min_sustained_secs <= i64::MAX,
        1_000_000_000 <= m.market.end_date.nanos_of() - now.nanos_of()
            < rt.config.tailend.time_threshold_secs * 1_000_000_000,
        value(m.reference_price) > 0 as real,
        value(price) != value(m.reference_price),
        difference_is_exact(price, m.reference_price),
        ({
            let s = value(rt.config.tailend.min_strike_distance_pct);
            abs_of(value(price) - value(m.reference_price)) >= value(m.reference_price) * (s
                + slack(s))
        }),
        lookup(
            books,
            if value(price) > value(m.reference_price) {
                m.market.token_ids.outcome_a@
            } else {
                m.market.token_ids.outcome_b@
            },
        ) == Some(ob),
        ob.asks@.len() > 0,
        value(ob.asks@[0].price) >= value(rt.config.tailend.ask_threshold),
        forall|i: int|
            0 <= i < rt.config.tailend.dynamic_thresholds@.len() ==> value(ob.asks@[0].price)
                >= value((#[trigger] rt.config.tailend.dynamic_thresholds@[i]).1),
        ob.bids@.len() > 0 && value(ob.bids@[0].price) > 0 as real && value(ob.asks@[0].price)
            > 0 as real ==> ({
            let (bid, ask) = (ob.bids@[0].price, ob.asks@[0].price);
            let (b, a) = (value(bid), value(ask));
            let limit = value(rt.config.tailend.max_spread_bps);
            let (t, u) = ((2 as real) * slack(a + b), (20000 as real) * slack(limit));
            &&& difference_is_exact(ask, bid) && sum_is_exact(ask, bid)
            &&& a >= b && a + b >= t && limit >= u
            &&& (20000 as real) * (a - b) <= (a + b - t) * (limit - u)
        }),
        lookup(rt.price_history.rows(), m.coin@) == Some(entries),
        ({
            let start = now.nanos_of() - rt.config.tailend.min_sustained_secs * 1_000_000_000;
            let recent = entries.filter(|e: PriceEntry| e.received_at.nanos_of() >= start);
            &&& recent.len() >= rt.config.tailend.min_sustained_ticks
            &&& forall|i: int|
                0 <= i < recent.len() ==> if value(price) > value(m.reference_price) {
                    value((#[trigger] recent[i]).price) > value(m.reference_price)
                } else {
                    value(recent[i].price) < value(m.reference_price)
                }
        }),
        ({
            let start = now.nanos_of() - 10_000_000_000;
            let recent = entries.filter(|e: PriceEntry| e.received_at.nanos_of() >= start);
            let v = value(rt.config.tailend.max_recent_volatility);
            forall|j: int|
                0 <= j < recent.len() ==> difference_is_exact(
                    (#[trigger] recent[j]).price,
                    m.reference_price,
                ) && abs_of(value(recent[j].price) - value(m.reference_price)) <= value(
                    m.reference_price,
                ) * (v - slack(v))
        }),
    ensures
        verdict_of(rt, m, market_id, price, books, now)->0 is Enter,
{
    let te = rt.config.tailend;
    let left = secs_between(m.market.end_date, now);
    let ask = ob.asks@[0].price;
    comparing_compares_values(m.reference_price, price);
    comparing_compares_values(price, m.reference_price);
    signs_agree(m.reference_price);
    let side = winner_of(m.reference_price, price)->0;
    differences_add_up(price, m.reference_price);
    let d = difference_of(price, m.reference_price)->0;
    negating_negates(d);
    if te.min_strike_distance_pct.mantissa_of() != 0 {
        if wick_of(price, m.reference_price) is Some {
            quotients_compare(magnitude(d), m.reference_price, te.min_strike_distance_pct);
        }
    }
    tightest_threshold_counts(te.dynamic_thresholds@, left);
    comparing_compares_values(ask, ask_threshold_of(te, left));
    if tightest(te.dynamic_thresholds@, left) is Some {
        let i = choose|i: int|
            0 <= i < te.dynamic_thresholds@.len() && bucket_covers(
                (#[trigger] te.dynamic_thresholds@[i]).0,
                left,
            ) && te.dynamic_thresholds@[i].1 == tightest(te.dynamic_thresholds@, left)->0;
        assert(value(ask) >= value(te.dynamic_thresholds@[i].1));
    }
    if ob.bids@.len() > 0 {
        let bid = ob.bids@[0].price;
        signs_agree(bid);
        signs_agree(ask);
        if value(bid) > 0 as real && value(ask) > 0 as real && spread_wide(
            Some(bid),
            ask,
            te.max_spread_bps,
        ) is Some {
            lemma_slack_is_positive(value(te.max_spread_bps));
            a_wide_spread_exceeds_the_limit(bid, ask, te.max_spread_bps);
        }
    }
    if sustained(
        Some(entries),
        m.reference_price,
        side,
        te.min_sustained_secs,
        te.min_sustained_ticks as int,
        now,
    ) is Some {
        a_sustained_move_stays_on_its_side(
            entries,
            m.reference_price,
            side,
            te.min_sustained_secs,
            te.min_sustained_ticks as int,
            now,
        );
    }
    let v = recent_volatility(Some(entries), m.reference_price, VOLATILITY_WINDOW_SECS, now);
    if v is Some && v->0 is Some {
        steady_prices_have_little_volatility(
            entries,
            m.reference_price,
            VOLATILITY_WINDOW_SECS,
            now,
            te.max_recent_volatility,
        );
        comparing_compares_values(te.max_recent_volatility, (v->0)->0);
    }
}

/// A bid and an ask, both positive, are no further apart than a limit in basis points of their
/// mean: `20000 * (ask - bid) <= max_bps * (ask + bid)`, but for the 28th digit; said where their
/// sum and difference are exact.
pub open spec fn spread_within(bid: Decimal, ask: Decimal, max_bps: Decimal) -> bool {
    let (b, a, m) = (value(bid), value(ask), value(max_bps));
    b > 0 as real && a > 0 as real && m >= 0 as real && difference_is_exact(ask, bid)
        && sum_is_exact(ask, bid) ==> (20000 as real) * (a - b) <= (a + b + (2 as real) * slack(
        a + b,
    )) * (m + (20000 as real) * slack(m))
}

/// A price is at least a share of the reference away from it, but for the 28th digit; said where
/// the reference and the share are positive and the difference is exact.
pub open spec fn is_far_enough(price: Decimal, reference: Decimal, share: Decimal) -> bool {
    let (p, r, s) = (value(price), value(reference), value(share));
    r > 0 as real && s > 0 as real && difference_is_exact(price, reference) ==> abs_of(p - r) >= r
        * (s - slack(s))
}

/// Every price that came in since an instant is within a share of the reference of it, but for
/// the 28th digit; said where the reference is positive and the differences are exact.
pub open spec fn steady_since(
    entries: Seq<PriceEntry>,
    start: int,
    reference: Decimal,
    share: Decimal,
) -> bool {
    let recent = entries.filter(|e: PriceEntry| e.received_at.nanos_of() >= start);
    let (r, s) = (value(reference), value(share));
    r > 0 as real && s >= 0 as real && (forall|j: int|
        0 <= j < recent.len() ==> difference_is_exact((#[trigger] recent[j]).price, reference))
        ==> forall|i: int|
        0 <= i < recent.len() ==> abs_of(value((#[trigger] recent[i]).price) - r) <= r * (s
            + (2 as real) * slack(s))
}

proof fn lemma_far_enough(price: Decimal, reference: Decimal, share: Decimal)
    requires
        strike_ok(reference, price, share) == Some(true),
    ensures
        is_far_enough(price, reference, share),
{
    let (r, s) = (value(reference), value(share));
    signs_agree(reference);
    signs_agree(share);
    if r > 0 as real && s > 0 as real && difference_is_exact(price, reference) {
        differences_add_up(price, reference);
        let d = difference_of(price, reference)->0;
        negating_negates(d);
        quotients_compare(magnitude(d), reference, share);
    }
}

proof fn lemma_steady(
    rt: CryptoArbRuntime,
    m: MarketWithReference,
    now: DateTime,
    entries: Seq<PriceEntry>,
)
    requires
        lookup(rt.price_history.rows(), m.coin@) == Some(entries),
        ({
            let v = recent_volatility(
                Some(entries),
                m.reference_price,
                VOLATILITY_WINDOW_SECS,
                now,
            );
            v is Some && (v->0 is Some ==> !less(rt.config.tailend.max_recent_volatility, (v->0)->0))
        }),
    ensures
        steady_since(
            entries,
            now.nanos_of() - 10_000_000_000,
            m.reference_price,
            rt.config.tailend.max_recent_volatility,
        ),
{
    let start = now.nanos_of() - 10_000_000_000;
    let recent = entries.filter(|e: PriceEntry| e.received_at.nanos_of() >= start);
    let limit = rt.config.tailend.max_recent_volatility;
    let (r, s) = (value(m.reference_price), value(limit));
    if r > 0 as real && s >= 0 as real && (forall|j: int|
        0 <= j < recent.len() ==> difference_is_exact(
            (#[trigger] recent[j]).price,
            m.reference_price,
        )) {
        signs_agree(m.reference_price);
        assert forall|i: int| 0 <= i < recent.len() implies abs_of(
            value((#[trigger] recent[i]).price) - r,
        ) <= r * (s + (2 as real) * slack(s)) by {
            let cutoff = shifted(now, -signed(VOLATILITY_WINDOW_SECS))->0;
            shifting_moves_by_seconds(now, -signed(VOLATILITY_WINDOW_SECS));
            a_window_holds_what_came_in_since(entries, cutoff);
            assert((|e: PriceEntry| e.received_at.nanos_of() >= cutoff.nanos_of()) =~= (
            |e: PriceEntry| e.received_at.nanos_of() >= start));
            let v = (recent_volatility(
                Some(entries),
                m.reference_price,
                VOLATILITY_WINDOW_SECS,
                now,
            )->0)->0;
            volatility_is_the_largest_deviation(
                entries,
                m.reference_price,
                VOLATILITY_WINDOW_SECS,
                now,
                i,
            );
            comparing_compares_values(limit, v);
            lemma_slack_grows(value(v), s);
            let x = abs_of(value(recent[i].price) - r);
            let (a, b) = (value(v) + slack(value(v)), s + (2 as real) * slack(s));
            assert(x <= r * b) by (nonlinear_arith)
                requires
                    x <= r * a,
                    a <= b,
                    r > 0 as real,
            ;
        }
    }
}

/// What is done about a market.
#[derive(Debug)]
pub enum EntryPlan {
    /// Nothing, for a reason that may be counted.
    Pass(Option<SkipReason>),
    /// An order is placed.
    Place(OrderRequest, PendingOrder),
}

/// The shares to buy: the base size at the ask, no more than a share of the depth. The outer
/// `None` is an overflow.
pub open spec fn entry_size_of(
    rt: CryptoArbRuntime,
    buy_price: Decimal,
    book: Option<OrderbookSnapshot>,
    now: DateTime,
) -> Option<Result<Decimal, SkipReason>> {
    match over(Some(rt.config.sizing.base_size), Some(buy_price)) {
        None => None,
        Some(raw) => {
            let wanted = truncated(raw, 2);
            if book is Some && secs_between(now, book->0.timestamp)
                > rt.config.tailend.stale_ob_secs {
                Some(Err(SkipReason::StaleOb))
            } else {
                let depth = match book {
                    Some(ob) => ob.ask_depth(buy_price),
                    None => Some(zero()),
                };
                match times(depth, Some(rt.config.sizing.depth_cap_factor)) {
                    None => None,
                    Some(safe) => Some(
                        Ok(
                            if less(safe, wanted) {
                                safe
                            } else {
                                wanted
                            },
                        ),
                    ),
                }
            }
        },
    }
}

/// The limit price: some ticks above the ask, at most 0.99. `None` is an overflow.
pub open spec fn entry_price_of(rt: CryptoArbRuntime, m: MarketInfo, buy_price: Decimal) -> Option<
    Decimal,
> {
    match plus(
        Some(buy_price),
        times(Some(m.tick_size), Some(dec(rt.config.order.tick_steps_above_ask as int, 0))),
    ) {
        Some(p) => Some(smaller(p, dec(99, 2))),
        None => None,
    }
}

/// The order of an entry.
pub open spec fn entry_order(
    rt: CryptoArbRuntime,
    m: MarketInfo,
    token: TokenId,
    price: Decimal,
    size: Decimal,
) -> OrderRequest {
    OrderRequest {
        token_id: token,
        price,
        size,
        side: OrderSide::Buy,
        order_type: OrderType::Gtc,
        neg_risk: m.neg_risk,
        tick_size: Some(m.tick_size),
        fee_rate_bps: Some(m.fee_rate_bps),
        post_only: rt.config.tailend.post_only,
    }
}

/// The record of an entry that is not confirmed yet.
pub open spec fn entry_pending(
    m: MarketWithReference,
    o: ArbitrageOpportunity,
    price: Decimal,
    size: Decimal,
) -> PendingOrder {
    PendingOrder {
        market_id: m.market.id,
        token_id: o.token_id,
        side: o.outcome_to_buy,
        price,
        size,
        reference_price: m.reference_price,
        coin: m.coin,
        order_type: OrderType::Gtc,
        kelly_fraction: None,
        estimated_fee: o.estimated_fee,
        tick_size: m.market.tick_size,
        fee_rate_bps: m.market.fee_rate_bps,
        mode: ArbitrageMode::TailEnd,
    }
}

/// What is done about a market that may be traded. `None` is an overflow.
pub open spec fn plan_of(
    rt: CryptoArbRuntime,
    m: MarketWithReference,
    price: Decimal,
    books: Seq<(Seq<char>, OrderbookSnapshot)>,
    now: DateTime,
) -> Option<EntryPlan> {
    match verdict_of(rt, m, m.market.id, price, books, now) {
        None => None,
        Some(EntryVerdict::Skip(reason)) => Some(EntryPlan::Pass(Some(reason))),
        Some(EntryVerdict::Enter(o)) => if o.buy_price.mantissa_of() == 0 {
            Some(EntryPlan::Pass(None))
        } else {
            match entry_size_of(rt, o.buy_price, lookup(books, o.token_id@), now) {
                None => None,
                Some(Err(reason)) => Some(EntryPlan::Pass(Some(reason))),
                Some(Ok(size)) => if less(size, m.market.min_order_size) {
                    Some(EntryPlan::Pass(None))
                } else {
                    match entry_price_of(rt, m.market, o.buy_price) {
                        None => None,
                        Some(limit) => Some(
                            EntryPlan::Place(
                                entry_order(rt, m.market, o.token_id, limit, size),
                                entry_pending(m, o, limit, size),
                            ),
                        ),
                    }
                },
            }
        },
    }
}

/// What the entry handling changes.
pub ghost struct EntryBook {
    pub skips: Seq<(Seq<char>, u64)>,
    pub reservations: Seq<(Seq<char>, usize)>,
    pub pending: Seq<(Seq<char>, PendingOrder)>,
    pub orders: u64,
    pub actions: Seq<ActionView>,
}

/// The entry side of a state.
pub open spec fn entry_book(rt: CryptoArbRuntime) -> EntryBook {
    EntryBook {
        skips: rt.tailend_skip_stats.rows(),
        reservations: rt.market_reservations.rows(),
        pending: rt.pending_orders.rows(),
        orders: rt.order_telemetry.total_orders,
        actions: Seq::empty(),
    }
}

/// Two states agree but for the entry side.
pub open spec fn entries_only(a: CryptoArbRuntime, b: CryptoArbRuntime) -> bool {
    b == (CryptoArbRuntime {
        tailend_skip_stats: b.tailend_skip_stats,
        market_reservations: b.market_reservations,
        pending_orders: b.pending_orders,
        order_telemetry: OrderTelemetry {
            total_orders: b.order_telemetry.total_orders,
            ..a.order_telemetry
        },
        ..a
    })
}

/// The cooldown that a market is in, if any.
pub open spec fn cooldown_of(rt: CryptoArbRuntime, market: Seq<char>) -> Option<SkipReason> {
    let now = rt.last_event_time;
    if cooling(rt.stale_market_cooldowns.rows(), market, now) {
        Some(SkipReason::StaleCooldown)
    } else if cooling(rt.rejection_cooldowns.rows(), market, now) {
        Some(SkipReason::RejectionCooldown)
    } else if cooling(rt.recovery_exit_cooldowns.rows(), market, now) {
        Some(SkipReason::RecoveryCooldown)
    } else {
        None
    }
}

/// A market may be reserved: it has no exposure and there is a slot left.
pub open spec fn reservable(rt: CryptoArbRuntime, b: EntryBook, market: Seq<char>) -> bool {
    let limits = rt.open_limit_orders.rows();
    &&& !exposed_in(rt.positions@, b.pending, limits, b.reservations, market)
    &&& slots_used(rt.positions@, b.pending, limits, b.reservations) + 1 <= rt.config.max_positions
}

/// The entry side once a skip is counted.
pub open spec fn skipped(b: EntryBook, reason: SkipReason) -> EntryBook {
    EntryBook { skips: counted(b.skips, reason.name_of()), ..b }
}

/// What a price means for one market: where it is in no cooldown and can be reserved, it is
/// evaluated, and an order placed if it is worth it. `None` is an overflow.
pub open spec fn entry_step(
    rt: CryptoArbRuntime,
    b: EntryBook,
    key: Seq<char>,
    m: MarketWithReference,
    price: Decimal,
    books: Seq<(Seq<char>, OrderbookSnapshot)>,
    now: DateTime,
) -> Option<EntryBook> {
    match cooldown_of(rt, key) {
        Some(reason) => Some(skipped(b, reason)),
        None => if !reservable(rt, b, key) {
            Some(skipped(b, SkipReason::Reservation))
        } else {
            let freed = dropped(stored(b.reservations, key, 1usize), key);
            match plan_of(rt, m, price, books, now) {
                None => None,
                Some(EntryPlan::Pass(None)) => Some(EntryBook { reservations: freed, ..b }),
                Some(EntryPlan::Pass(Some(reason))) => Some(
                    EntryBook { reservations: freed, ..skipped(b, reason) },
                ),
                Some(EntryPlan::Place(order, pending)) => Some(
                    EntryBook {
                        reservations: freed,
                        pending: stored(b.pending, order.token_id@, pending),
                        orders: bumped(b.orders),
                        actions: b.actions.push(ActionView::PlaceOrder(order@)),
                        ..b
                    },
                ),
            }
        },
    }
}

/// What a price means for the markets of a coin, one after the other.
pub open spec fn entry_path(
    rt: CryptoArbRuntime,
    b: EntryBook,
    rows: Seq<(Seq<char>, MarketWithReference)>,
    coin: Seq<char>,
    price: Decimal,
    books: Seq<(Seq<char>, OrderbookSnapshot)>,
    now: DateTime,
) -> Option<EntryBook>
    decreases rows.len(),
{
    if rows.len() == 0 {
        Some(b)
    } else {
        match entry_path(rt, b, rows.drop_last(), coin, price, books, now) {
            None => None,
            Some(c) => if rows.last().1.coin@ == coin {
                entry_step(rt, c, rows.last().0, rows.last().1, price, books, now)
            } else {
                Some(c)
            },
        }
    }
}

/// A market in a cooldown is not entered.
pub proof fn cooling_markets_are_not_entered(
    rt: CryptoArbRuntime,
    b: EntryBook,
    key: Seq<char>,
    m: MarketWithReference,
    price: Decimal,
    books: Seq<(Seq<char>, OrderbookSnapshot)>,
    now: DateTime,
)
    requires
        cooldown_of(rt, key) is Some,
    ensures
        entry_step(rt, b, key, m, price, books, now) == Some(skipped(b, cooldown_of(rt, key)->0)),
{
}

/// A market is entered once: with an order on its way, no further price asks for another.
pub proof fn a_market_is_entered_once(
    rt: CryptoArbRuntime,
    b: EntryBook,
    m: MarketWithReference,
    price: Decimal,
    books: Seq<(Seq<char>, OrderbookSnapshot)>,
    now: DateTime,
    next_price: Decimal,
    next_books: Seq<(Seq<char>, OrderbookSnapshot)>,
    next: DateTime,
)
    requires
        entry_step(rt, b, m.market.id@, m, price, books, now) is Some,
        entry_step(rt, b, m.market.id@, m, price, books, now)->0.actions != b.actions,
    ensures
        ({
            let c = entry_step(rt, b, m.market.id@, m, price, books, now)->0;
            let again = entry_step(rt, c, m.market.id@, m, next_price, next_books, next);
            again is Some && again->0.actions == c.actions && again->0.pending == c.pending
        }),
{
    let c = entry_step(rt, b, m.market.id@, m, price, books, now)->0;
    match plan_of(rt, m, price, books, now) {
        Some(EntryPlan::Place(order, pending)) => {
            lemma_lookup_stored(b.pending, order.token_id@, pending, order.token_id@);
            lemma_has_row(c.pending, order.token_id@);
            assert(c.pending[row_of(c.pending, order.token_id@)].1.market_id@ == m.market.id@);
        },
        _ => {},
    }
}

/// Entering the markets of a coin never takes more slots than there are.
pub proof fn entries_respect_the_limit(
    rt: CryptoArbRuntime,
    b: EntryBook,
    rows: Seq<(Seq<char>, MarketWithReference)>,
    coin: Seq<char>,
    price: Decimal,
    books: Seq<(Seq<char>, OrderbookSnapshot)>,
    now: DateTime,
)
    requires
        slots_used(rt.positions@, b.pending, rt.open_limit_orders.rows(), b.reservations)
            <= rt.config.max_positions,
        entry_path(rt, b, rows, coin, price, books, now) is Some,
    ensures
        ({
            let c = entry_path(rt, b, rows, coin, price, books, now)->0;
            &&& slots_used(rt.positions@, c.pending, rt.open_limit_orders.rows(), c.reservations)
                <= rt.config.max_positions
            &&& c.reservations == b.reservations
        }),
    decreases rows.len(),
{
    if rows.len() > 0 {
        entries_respect_the_limit(rt, b, rows.drop_last(), coin, price, books, now);
        let c = entry_path(rt, b, rows.drop_last(), coin, price, books, now)->0;
        let (key, m) = rows.last();
        if m.coin@ == coin && cooldown_of(rt, key) is None && reservable(rt, c, key) {
            lemma_dropped_undoes_stored(c.reservations, key, 1usize);
            match plan_of(rt, m, price, books, now) {
                Some(EntryPlan::Place(order, pending)) => {
                    if has_key(c.pending, order.token_id@) {
                        lemma_has_row(c.pending, order.token_id@);
                    }
                },
                _ => {},
            }
        }
    }
}

proof fn lemma_entry_path_overflows(
    rt: CryptoArbRuntime,
    b: EntryBook,
    rows: Seq<(Seq<char>, MarketWithReference)>,
    coin: Seq<char>,
    price: Decimal,
    books: Seq<(Seq<char>, OrderbookSnapshot)>,
    now: DateTime,
    n: int,
)
    requires
        0 <= n <= rows.len(),
        entry_path(rt, b, rows.take(n), coin, price, books, now) is None,
    ensures
        entry_path(rt, b, rows, coin, price, books, now) is None,
    decreases rows.len(),
{
    if n < rows.len() {
        assert(rows.drop_last().take(n) =~= rows.take(n));
        lemma_entry_path_overflows(rt, b, rows.drop_last(), coin, price, books, now, n);
    } else {
        assert(rows.take(n) =~= rows);
    }
}

/// A market's plan rests on nothing that entry handling changes.
proof fn lemma_plan_env(
    a: CryptoArbRuntime,
    b: CryptoArbRuntime,
    m: MarketWithReference,
    price: Decimal,
    books: Seq<(Seq<char>, OrderbookSnapshot)>,
    now: DateTime,
)
    requires
        entries_only(a, b),
    ensures
        plan_of(a, m, price, books, now) == plan_of(b, m, price, books, now),
{
    assert(a.auto_disabled() == b.auto_disabled());
}

/// The price for entries: the composite where it is asked for. The outer `None` is an
/// overflow, the inner one says that there is no composite.
pub open spec fn effective_price_of(
    rt: CryptoArbRuntime,
    price: Decimal,
    sources: Option<Seq<(Seq<char>, SourcedPrice)>>,
    now: DateTime,
) -> Option<Option<Decimal>> {
    let te = rt.config.tailend;
    if !te.use_composite_price {
        Some(Some(price))
    } else {
        match sources {
            None => Some(None),
            Some(s) => match composite_of(
                s,
                now,
                te.max_source_stale_secs as int,
                te.min_sources as int,
                te.max_dispersion_bps,
                false,
            ) {
                None => None,
                Some(None) => Some(None),
                Some(Some(c)) => Some(Some(c.price)),
            },
        }
    }
}

/// A coin's nearest market is too far from its end.
pub open spec fn far_from_end(rt: CryptoArbRuntime, coin: Seq<char>, now: DateTime) -> bool {
    match lookup(rt.coin_nearest_expiry.rows(), coin) {
        Some(end) => secs_between(end, now) > signed(rt.config.tailend.time_threshold_secs),
        None => false,
    }
}

/// What a price means for entries. `None` is an overflow.
pub open spec fn entries_of(
    rt: CryptoArbRuntime,
    coin: Seq<char>,
    price: Decimal,
    sources: Option<Seq<(Seq<char>, SourcedPrice)>>,
    books: Seq<(Seq<char>, OrderbookSnapshot)>,
    now: DateTime,
) -> Option<EntryBook> {
    if far_from_end(rt, coin, now) {
        Some(skipped(entry_book(rt), SkipReason::CoinNotNearExpiry))
    } else {
        match effective_price_of(rt, price, sources, now) {
            None => None,
            Some(None) => Some(skipped(entry_book(rt), SkipReason::CompositeStale)),
            Some(Some(p)) => entry_path(
                rt,
                entry_book(rt),
                rt.active_markets.rows(),
                coin,
                p,
                books,
                now,
            ),
        }
    }
}

/// The entries of a coin were handled.
pub open spec fn entries_run(
    pre: CryptoArbRuntime,
    post: CryptoArbRuntime,
    coin: Seq<char>,
    price: Decimal,
    sources: Option<Seq<(Seq<char>, SourcedPrice)>>,
    books: Seq<(Seq<char>, OrderbookSnapshot)>,
    now: DateTime,
    r: Result<Vec<Action>, Overflow>,
) -> bool {
    &&& entries_only(pre, post)
    &&& match entries_of(pre, coin, price, sources, books, now) {
        None => r is Err,
        Some(b) => r is Ok && b == (EntryBook { actions: acts(r->Ok_0@), ..entry_book(post) }),
    }
}

impl TailEndStrategy {
    /// The least ask at a time remaining: the highest threshold whose bucket covers it.
    pub fn get_ask_threshold(&self, time_remaining_secs: i64) -> (r: Decimal)
        ensures
            r == ask_threshold_of(self.base.config.tailend, time_remaining_secs as int),
    {
        let ts = &self.base.config.tailend.dynamic_thresholds;
        let mut best: Option<Decimal> = None;
        let mut i: usize = 0;
        while i < ts.len()
            invariant
                i <= ts@.len(),
                best == tightest(ts@.take(i as int), time_remaining_secs as int),
            decreases ts@.len() - i,
        {
            assert(ts@.take(i as int + 1).drop_last() =~= ts@.take(i as int));
            let higher: bool = match best {
                None => true,
                Some(b) => b.lt(ts[i].1),
            };
            if time_remaining_secs as i128 <= ts[i].0 as i128 && higher {
                best = Some(ts[i].1);
            }
            i += 1;
        }
        assert(ts@.take(i as int) =~= ts@);
        match best {
            Some(threshold) => threshold,
            None => self.base.config.tailend.ask_threshold,
        }
    }

    /// The side that a market may be entered on.
    fn judge_side(&self, m: &MarketWithReference, price: Decimal, now: DateTime) -> (r: Result<
        Result<OutcomeSide, SkipReason>,
        Overflow,
    >)
        ensures
            ok_of(r) == side_of(self.base, *m, price, now),
    {
        let te = &self.base.config.tailend;
        let left: i64 = m.market.seconds_remaining_at(now);
        if left >= to_signed(te.time_threshold_secs) || left <= 0 {
            return Ok(Err(SkipReason::TimeWindow));
        }
        let disabled: bool = self.base.is_auto_disabled()?;
        if disabled {
            return Ok(Err(SkipReason::AutoDisabled));
        }
        if !m.reference_quality.meets_threshold(te.min_reference_quality) {
            return Ok(Err(SkipReason::RefQuality));
        }
        let side: OutcomeSide = match m.predict_winner(price) {
            None => {
                return Ok(Err(SkipReason::NoPrediction));
            },
            Some(s) => s,
        };
        if !m.reference_price.is_zero() && !te.min_strike_distance_pct.is_zero() {
            let distance: Decimal = price.minus(m.reference_price)?.abs().over(m.reference_price)?;
            if distance.lt(te.min_strike_distance_pct) {
                return Ok(Err(SkipReason::StrikeProximity));
            }
        }
        Ok(Ok(side))
    }

    /// The ask at which a side may be bought.
    fn judge_ask(&self, book: Option<&OrderbookSnapshot>, time_remaining: i64) -> (r: Result<
        Result<Decimal, SkipReason>,
        Overflow,
    >)
        ensures
            ok_of(r) == ask_of(
                self.base,
                match book {
                    Some(ob) => Some(*ob),
                    None => None,
                },
                time_remaining as int,
            ),
    {
        let (ask, bid): (Option<Decimal>, Option<Decimal>) = match book {
            Some(ob) => (ob.best_ask(), ob.best_bid()),
            None => (None, None),
        };
        let a: Decimal = match ask {
            None => {
                return Ok(Err(SkipReason::NoAsk));
            },
            Some(a) => a,
        };
        if a.lt(self.get_ask_threshold(time_remaining)) {
            return Ok(Err(SkipReason::Threshold));
        }
        match bid {
            Some(b) => {
                if b.gt(Decimal::zero()) && a.gt(Decimal::zero()) {
                    let spread: Decimal = a.minus(b)?;
                    let mid: Decimal = a.plus(b)?.over(Decimal::new(2, 0))?;
                    let ratio: Decimal = spread.over(mid)?;
                    let limit: Decimal = self.base.config.tailend.max_spread_bps.over(
                        Decimal::new(10000, 0),
                    )?;
                    if ratio.gt(limit) {
                        return Ok(Err(SkipReason::Spread));
                    }
                }
            },
            None => {},
        }
        Ok(Ok(a))
    }

    /// What the recent prices have against a side, if anything.
    fn judge_momentum(&self, m: &MarketWithReference, side: OutcomeSide, now: DateTime) -> (r: Result<
        Option<SkipReason>,
        Overflow,
    >)
        ensures
            ok_of(r) == momentum_of(self.base, *m, side, now),
    {
        let te = &self.base.config.tailend;
        let held: bool = self.base.check_sustained_direction(
            m.coin.as_str(),
            m.reference_price,
            side,
            te.min_sustained_secs,
            te.min_sustained_ticks,
            now,
        )?;
        if !held {
            return Ok(Some(SkipReason::Sustained));
        }
        let volatility: Option<Decimal> = self.base.max_recent_volatility(
            m.coin.as_str(),
            m.reference_price,
            VOLATILITY_WINDOW_SECS,
            now,
        )?;
        match volatility {
            Some(v) => {
                if v.gt(te.max_recent_volatility) {
                    return Ok(Some(SkipReason::Volatility));
                }
            },
            None => {},
        }
        Ok(None)
    }

    /// What the evaluation of a market comes to.
    pub fn judge_entry(
        &self,
        m: &MarketWithReference,
        market_id: &MarketId,
        price: Decimal,
        books: &Table<OrderbookSnapshot>,
        now: DateTime,
    ) -> (r: Result<EntryVerdict, Overflow>)
        ensures
            ok_of(r) == verdict_of(self.base, *m, *market_id, price, books.rows(), now),
    {
        let side: OutcomeSide = match self.judge_side(m, price, now)? {
            Err(reason) => {
                return Ok(EntryVerdict::Skip(reason));
            },
            Ok(s) => s,
        };
        let token: TokenId = if side.is_up() {
            m.market.token_ids.outcome_a.clone()
        } else {
            m.market.token_ids.outcome_b.clone()
        };
        let ask: Decimal = match self.judge_ask(
            books.get(token.as_str()),
            m.market.seconds_remaining_at(now),
        )? {
            Err(reason) => {
                return Ok(EntryVerdict::Skip(reason));
            },
            Ok(a) => a,
        };
        match self.judge_momentum(m, side, now)? {
            Some(reason) => {
                return Ok(EntryVerdict::Skip(reason));
            },
            None => {},
        }
        let profit_margin: Decimal = Decimal::one().minus(ask)?;
        let estimated_fee: Decimal = checked_taker_fee(ask, self.base.config.fee.taker_fee_rate)?;
        let net_margin: Decimal = profit_margin.minus(estimated_fee)?;
        Ok(
            EntryVerdict::Enter(
                ArbitrageOpportunity {
                    mode: ArbitrageMode::TailEnd,
                    market_id: market_id.clone(),
                    outcome_to_buy: side,
                    token_id: token,
                    buy_price: ask,
                    confidence: Decimal::one(),
                    profit_margin,
                    estimated_fee,
                    net_margin,
                },
            ),
        )
    }

    /// The opportunity that a market offers, if any; a skip is counted under its reason.
    pub fn evaluate_opportunity(
        &mut self,
        market_id: &MarketId,
        current_price: Decimal,
        books: &Table<OrderbookSnapshot>,
        now: DateTime,
    ) -> (r: Result<Option<ArbitrageOpportunity>, Overflow>)
        ensures
            match lookup(old(self).base.active_markets.rows(), market_id@) {
                None => r == Ok::<Option<ArbitrageOpportunity>, Overflow>(None) && *final(self)
                    == *old(self),
                Some(m) => match verdict_of(
                    old(self).base,
                    m,
                    *market_id,
                    current_price,
                    books.rows(),
                    now,
                ) {
                    None => r is Err && *final(self) == *old(self),
                    Some(EntryVerdict::Skip(reason)) => {
                        &&& r == Ok::<Option<ArbitrageOpportunity>, Overflow>(None)
                        &&& final(self).base.tailend_skip_stats.rows() == counted(
                            old(self).base.tailend_skip_stats.rows(),
                            reason.name_of(),
                        )
                    },
                    Some(EntryVerdict::Enter(o)) => r == Ok::<
                        Option<ArbitrageOpportunity>,
                        Overflow,
                    >(Some(o)) && *final(self) == *old(self),
                },
            },
            final(self).base == (CryptoArbRuntime {
                tailend_skip_stats: final(self).base.tailend_skip_stats,
                ..old(self).base
            }),
    {
        let m: MarketWithReference = match self.base.active_markets.get(market_id.as_str()) {
            None => {
                return Ok(None);
            },
            Some(m) => m.clone(),
        };
        let verdict: EntryVerdict = self.judge_entry(&m, market_id, current_price, books, now)?;
        match verdict {
            EntryVerdict::Skip(reason) => {
                self.base.record_tailend_skip(reason.name());
                Ok(None)
            },
            EntryVerdict::Enter(o) => Ok(Some(o)),
        }
    }

    /// The shares to buy at an ask.
    fn size_entry(
        &self,
        buy_price: Decimal,
        book: Option<&OrderbookSnapshot>,
        now: DateTime,
    ) -> (r: Result<Result<Decimal, SkipReason>, Overflow>)
        ensures
            ok_of(r) == entry_size_of(
                self.base,
                buy_price,
                match book {
                    Some(ob) => Some(*ob),
                    None => None,
                },
                now,
            ),
    {
        let wanted: Decimal = self.base.config.sizing.base_size.over(buy_price)?.trunc_dp(2);
        let depth: Decimal = match book {
            Some(ob) => {
                if now.secs_since(ob.timestamp) > self.base.config.tailend.stale_ob_secs {
                    return Ok(Err(SkipReason::StaleOb));
                }
                ob.ask_depth_up_to(buy_price)?
            },
            None => Decimal::zero(),
        };
        let safe: Decimal = depth.times(self.base.config.sizing.depth_cap_factor)?;
        if safe.lt(wanted) {
            Ok(Ok(safe))
        } else {
            Ok(Ok(wanted))
        }
    }

    /// What is done about a market that may be traded.
    pub fn plan_entry(
        &self,
        m: &MarketWithReference,
        price: Decimal,
        books: &Table<OrderbookSnapshot>,
        now: DateTime,
    ) -> (r: Result<EntryPlan, Overflow>)
        ensures
            ok_of(r) == plan_of(self.base, *m, price, books.rows(), now),
    {
        let o: ArbitrageOpportunity = match self.judge_entry(m, &m.market.id, price, books, now)? {
            EntryVerdict::Skip(reason) => {
                return Ok(EntryPlan::Pass(Some(reason)));
            },
            EntryVerdict::Enter(o) => o,
        };
        if o.buy_price.is_zero() {
            return Ok(EntryPlan::Pass(None));
        }
        let size: Decimal = match self.size_entry(
            o.buy_price,
            books.get(o.token_id.as_str()),
            now,
        )? {
            Err(reason) => {
                return Ok(EntryPlan::Pass(Some(reason)));
            },
            Ok(s) => s,
        };
        if size.lt(m.market.min_order_size) {
            return Ok(EntryPlan::Pass(None));
        }
        let steps: Decimal = Decimal::from_u64(self.base.config.order.tick_steps_above_ask as u64);
        let raise: Decimal = m.market.tick_size.times(steps)?;
        let limit: Decimal = o.buy_price.plus(raise)?.min(Decimal::new(99, 2));
        let order = OrderRequest::new(
            o.token_id.clone(),
            limit,
            size,
            OrderSide::Buy,
            OrderType::Gtc,
            m.market.neg_risk,
        ).with_tick_size(m.market.tick_size).with_fee_rate_bps(
            m.market.fee_rate_bps,
        ).with_post_only(self.base.config.tailend.post_only);
        let pending = PendingOrder {
            market_id: m.market.id.clone(),
            token_id: o.token_id,
            side: o.outcome_to_buy,
            price: limit,
            size,
            reference_price: m.reference_price,
            coin: m.coin.clone(),
            order_type: OrderType::Gtc,
            kelly_fraction: None,
            estimated_fee: o.estimated_fee,
            tick_size: m.market.tick_size,
            fee_rate_bps: m.market.fee_rate_bps,
            mode: ArbitrageMode::TailEnd,
        };
        Ok(EntryPlan::Place(order, pending))
    }

    /// The cooldown that a market is in, if any.
    pub fn find_cooldown(&self, market: &str) -> (r: Option<SkipReason>)
        ensures
            r == cooldown_of(self.base, market@),
    {
        if self.base.is_stale_market_cooled_down(market) {
            Some(SkipReason::StaleCooldown)
        } else if self.base.is_rejection_cooled_down(market) {
            Some(SkipReason::RejectionCooldown)
        } else if self.base.is_recovery_exit_cooled_down(market) {
            Some(SkipReason::RecoveryCooldown)
        } else {
            None
        }
    }

    /// Handles one market at a price.
    fn enter_market(
        &mut self,
        key: &MarketId,
        m: &MarketWithReference,
        price: Decimal,
        books: &Table<OrderbookSnapshot>,
        now: DateTime,
    ) -> (r: Result<Option<Action>, Overflow>)
        ensures
            match entry_step(
                old(self).base,
                entry_book(old(self).base),
                key@,
                *m,
                price,
                books.rows(),
                now,
            ) {
                None => r is Err,
                Some(b) => {
                    &&& r is Ok
                    &&& b == (EntryBook {
                        actions: match r->Ok_0 {
                            Some(a) => seq![a@],
                            None => Seq::empty(),
                        },
                        ..entry_book(final(self).base)
                    })
                },
            },
            entries_only(old(self).base, final(self).base),
    {
        match self.find_cooldown(key.as_str()) {
            Some(reason) => {
                self.base.record_tailend_skip(reason.name());
                return Ok(None);
            },
            None => {},
        }
        if !self.base.try_reserve_market(key, 1) {
            self.base.record_tailend_skip(SkipReason::Reservation.name());
            return Ok(None);
        }
        proof {
            lemma_plan_env(old(self).base, self.base, *m, price, books.rows(), now);
        }
        let plan: EntryPlan = self.plan_entry(m, price, books, now)?;
        match plan {
            EntryPlan::Pass(None) => {
                self.base.release_reservation(key.as_str());
                Ok(None)
            },
            EntryPlan::Pass(Some(reason)) => {
                self.base.record_tailend_skip(reason.name());
                self.base.release_reservation(key.as_str());
                Ok(None)
            },
            EntryPlan::Place(order, pending) => {
                self.base.consume_reservation(key.as_str());
                self.base.pending_orders.insert(order.token_id.clone(), pending);
                if self.base.order_telemetry.total_orders < u64::MAX {
                    self.base.order_telemetry.total_orders = self.base.order_telemetry.total_orders
                        + 1;
                }
                assert(Seq::<ActionView>::empty().push(ActionView::PlaceOrder(order@)) =~= seq![
                    ActionView::PlaceOrder(order@),
                ]);
                Ok(Some(Action::PlaceOrder(order)))
            },
        }
    }

    /// Handles the entries of a coin at a price. What was done before an overflow stays
    /// done.
    pub fn scan_entries(
        &mut self,
        coin: &str,
        price: Decimal,
        sources: Option<&Table<SourcedPrice>>,
        books: &Table<OrderbookSnapshot>,
        now: DateTime,
    ) -> (r: Result<Vec<Action>, Overflow>)
        ensures
            entries_run(
                old(self).base,
                final(self).base,
                coin@,
                price,
                opt_rows(sources),
                books.rows(),
                now,
                r,
            ),
    {
        let mut actions: Vec<Action> = Vec::new();
        assert(acts(actions@) =~= Seq::empty());
        let far: bool = match self.base.coin_nearest_expiry.get(coin) {
            Some(end) => end.secs_since(now) > to_signed(
                self.base.config.tailend.time_threshold_secs,
            ),
            None => false,
        };
        if far {
            self.base.record_tailend_skip(SkipReason::CoinNotNearExpiry.name());
            return Ok(actions);
        }
        let effective: Decimal = if self.base.config.tailend.use_composite_price {
            let composite: Option<CompositePriceResult> = self.base.composite_fair_price(
                sources,
                now,
                self.base.config.tailend.max_source_stale_secs,
                self.base.config.tailend.min_sources,
                self.base.config.tailend.max_dispersion_bps,
            )?;
            match composite {
                Some(c) => c.price,
                None => {
                    self.base.record_tailend_skip(SkipReason::CompositeStale.name());
                    return Ok(actions);
                },
            }
        } else {
            price
        };
        let ghost rt = self.base;
        let ghost rows = rt.active_markets.rows();
        let mut i: usize = 0;
        while i < self.base.active_markets.len()
            invariant
                i <= rows.len(),
                rt == old(self).base,
                rows == rt.active_markets.rows(),
                !far_from_end(rt, coin@, now),
                effective_price_of(rt, price, opt_rows(sources), now) == Some(Some(effective)),
                entries_only(rt, self.base),
                entry_path(
                    rt,
                    entry_book(rt),
                    rows.take(i as int),
                    coin@,
                    effective,
                    books.rows(),
                    now,
                ) == Some(EntryBook { actions: acts(actions@), ..entry_book(self.base) }),
            decreases rows.len() - i,
        {
            assert(rows.take(i as int + 1).drop_last() =~= rows.take(i as int));
            let key: MarketId = self.base.active_markets.key_at(i).clone();
            let m: MarketWithReference = self.base.active_markets.value_at(i).clone();
            if same_text(m.coin.as_str(), coin) {
                proof {
                    lemma_entry_step(
                        rt,
                        self.base,
                        acts(actions@),
                        key@,
                        m,
                        effective,
                        books.rows(),
                        now,
                    );
                }
                let done: Result<Option<Action>, Overflow> = self.enter_market(
                    &key,
                    &m,
                    effective,
                    books,
                    now,
                );
                match done {
                    Err(_) => {
                        proof {
                            lemma_entry_path_overflows(
                                rt,
                                entry_book(rt),
                                rows,
                                coin@,
                                effective,
                                books.rows(),
                                now,
                                i as int + 1,
                            );
                        }
                        return Err(Overflow);
                    },
                    Ok(Some(a)) => {
                        proof {
                            lemma_acts_push(actions@, a);
                            assert(acts(actions@) + seq![a@] =~= acts(actions@).push(a@));
                        }
                        actions.push(a);
                    },
                    Ok(None) => {
                        assert(acts(actions@) + Seq::<ActionView>::empty() =~= acts(actions@));
                    },
                }
            }
            i += 1;
        }
        assert(rows.take(i as int) =~= rows);
        Ok(actions)
    }

    /// Handles an external price: it is recorded, the stop-loss composite is renewed, exits
    /// come first, then entries. What was done before an overflow stays done.
    pub fn handle_external_price(
        &mut self,
        symbol: &String,
        price: Decimal,
        source: &String,
        source_timestamp: DateTime,
        data: &MarketData,
        now: DateTime,
        quotes: &Vec<ChainQuote>,
    ) -> (r: Result<Vec<Action>, Overflow>)
        ensures
            external_price_handled(
                old(self).base,
                final(self).base,
                *symbol,
                price,
                *source,
                source_timestamp,
                *data,
                now,
                quotes@,
                r,
            ),
    {
        let (spike, promoted) = self.base.record_price(
            symbol,
            price,
            source,
            now,
            source_timestamp,
            quotes,
        );
        let ghost first = promoted@;
        let ghost s1 = self.base;
        let sources: Option<&Table<SourcedPrice>> = data.sourced_prices.get(symbol.as_str());
        let cached: Result<(), Overflow> = self.base.update_sl_composite_cache(
            symbol.as_str(),
            sources,
            now,
        );
        let ghost s2 = self.base;
        if cached.is_err() {
            let r: Result<Vec<Action>, Overflow> = Err(Overflow);
            assert(price_steps(
                old(self).base, self.base, *symbol, price, *source, source_timestamp, *data, now,
                quotes@, r, s1, spike, first, cached, s2, s2, r, r,
            ));
            return r;
        }
        let exits: Result<Vec<Action>, Overflow> = self.evaluate_exits_on_price_change(
            symbol.as_str(),
            &data.orderbooks,
            now,
        );
        let ghost s3 = self.base;
        match exits {
            Err(_) => {
                let r: Result<Vec<Action>, Overflow> = Err(Overflow);
                assert(price_steps(
                    old(self).base, self.base, *symbol, price, *source, source_timestamp, *data,
                    now, quotes@, r, s1, spike, first, cached, s2, s3, exits, r,
                ));
                r
            },
            Ok(exit_actions) => {
                let entries: Result<Vec<Action>, Overflow> = self.scan_entries(
                    symbol.as_str(),
                    price,
                    sources,
                    &data.orderbooks,
                    now,
                );
                match entries {
                    Err(_) => {
                        let r: Result<Vec<Action>, Overflow> = Err(Overflow);
                        assert(price_steps(
                            old(self).base, self.base, *symbol, price, *source, source_timestamp,
                            *data, now, quotes@, r, s1, spike, first, cached, s2, s3, exits,
                            entries,
                        ));
                        r
                    },
                    Ok(entry_actions) => {
                        let mut result: Vec<Action> = promoted;
                        let mut more: Vec<Action> = exit_actions;
                        let mut last: Vec<Action> = entry_actions;
                        result.append(&mut more);
                        result.append(&mut last);
                        let r: Result<Vec<Action>, Overflow> = Ok(result);
                        assert(price_steps(
                            old(self).base, self.base, *symbol, price, *source, source_timestamp,
                            *data, now, quotes@, r, s1, spike, first, cached, s2, s3, exits,
                            entries,
                        ));
                        r
                    },
                }
            },
        }
    }
}

/// Handling a market rests on nothing else that entry handling changes, and only adds to
/// the actions.
proof fn lemma_entry_step(
    a: CryptoArbRuntime,
    b: CryptoArbRuntime,
    actions: Seq<ActionView>,
    key: Seq<char>,
    m: MarketWithReference,
    price: Decimal,
    books: Seq<(Seq<char>, OrderbookSnapshot)>,
    now: DateTime,
)
    requires
        entries_only(a, b),
    ensures
        match entry_step(b, entry_book(b), key, m, price, books, now) {
            None => entry_step(
                a,
                (EntryBook { actions, ..entry_book(b) }),
                key,
                m,
                price,
                books,
                now,
            ) is None,
            Some(out) => entry_step(
                a,
                (EntryBook { actions, ..entry_book(b) }),
                key,
                m,
                price,
                books,
                now,
            ) == Some(EntryBook { actions: actions + out.actions, ..out }),
        },
{
    lemma_plan_env(a, b, m, price, books, now);
    assert(actions + Seq::<ActionView>::empty() =~= actions);
    assert forall|x: ActionView| #[trigger] actions.push(x) == actions
        + Seq::<ActionView>::empty().push(x) by {
        assert(actions.push(x) =~= actions + Seq::<ActionView>::empty().push(x));
    }
}

/// The steps of handling an external price, each with the state after it: the price is
/// recorded, the composite renewed, exits handled, entries handled. The first step that
/// overflows is the last.
pub open spec fn price_steps(
    pre: CryptoArbRuntime,
    post: CryptoArbRuntime,
    symbol: String,
    price: Decimal,
    source: String,
    source_timestamp: DateTime,
    data: MarketData,
    now: DateTime,
    quotes: Seq<ChainQuote>,
    r: Result<Vec<Action>, Overflow>,
    recorded: CryptoArbRuntime,
    spike: Result<Option<Decimal>, Overflow>,
    promoted: Seq<Action>,
    renewed: Result<(), Overflow>,
    cached: CryptoArbRuntime,
    exited: CryptoArbRuntime,
    exits: Result<Vec<Action>, Overflow>,
    entries: Result<Vec<Action>, Overflow>,
) -> bool {
    let sources = lookup(data.sourced_prices.rows(), symbol@);
    let books = data.orderbooks.rows();
    &&& price_recorded(
        pre,
        recorded,
        symbol,
        price,
        source,
        now,
        source_timestamp,
        quotes,
        spike,
        promoted,
    )
    &&& composite_cached(recorded, cached, symbol@, sources, now, true, renewed is Ok)
    &&& renewed is Err ==> r is Err && post == cached
    &&& renewed is Ok ==> {
        &&& fast_path_run(cached, exited, symbol@, books, now, exits)
        &&& exits is Err ==> r is Err && post == exited
        &&& exits is Ok ==> {
            &&& entries_run(exited, post, symbol@, price, sources, books, now, entries)
            &&& entries is Err ==> r is Err
            &&& entries is Ok ==> r is Ok && r->Ok_0@ == promoted + exits->Ok_0@ + entries->Ok_0@
        }
    }
}

/// An external price was handled, step by step.
pub open spec fn external_price_handled(
    pre: CryptoArbRuntime,
    post: CryptoArbRuntime,
    symbol: String,
    price: Decimal,
    source: String,
    source_timestamp: DateTime,
    data: MarketData,
    now: DateTime,
    quotes: Seq<ChainQuote>,
    r: Result<Vec<Action>, Overflow>,
) -> bool {
    exists|
        recorded: CryptoArbRuntime,
        spike: Result<Option<Decimal>, Overflow>,
        promoted: Seq<Action>,
        renewed: Result<(), Overflow>,
        cached: CryptoArbRuntime,
        exited: CryptoArbRuntime,
        exits: Result<Vec<Action>, Overflow>,
        entries: Result<Vec<Action>, Overflow>,
    |
        #[trigger] price_steps(
            pre,
            post,
            symbol,
            price,
            source,
            source_timestamp,
            data,
            now,
            quotes,
            r,
            recorded,
            spike,
            promoted,
            renewed,
            cached,
            exited,
            exits,
            entries,
        )
}

/// An entry spends the base size at its price, cut to two places, and takes no more than its share
/// of the asks up to its price. The 28th digit of the division is left to rounding.
pub proof fn an_entry_spends_the_base_size_within_the_depth(
    rt: CryptoArbRuntime,
    price: Decimal,
    book: OrderbookSnapshot,
    now: DateTime,
    depth: Decimal,
)
    requires
        value(price) > 0 as real,
        value(rt.config.sizing.base_size) >= 0 as real,
        rt.config.tailend.stale_ob_secs >= 0,
        book.ask_depth(price) == Some(depth),
        product_is_exact(depth, rt.config.sizing.depth_cap_factor),
        entry_size_of(rt, price, Some(book), now) is Some,
    ensures
        ({
            let r = entry_size_of(rt, price, Some(book), now)->0;
            let age = now.nanos_of() - book.timestamp.nanos_of();
            let stale = age >= (rt.config.tailend.stale_ob_secs + 1) * 1_000_000_000;
            let room = value(depth) * value(rt.config.sizing.depth_cap_factor);
            &&& stale ==> r == Err::<Decimal, SkipReason>(SkipReason::StaleOb)
            &&& !stale ==> r is Ok && value(r->Ok_0) <= room && exists|whole: real|
                #[trigger] is_ratio(value(rt.config.sizing.base_size), value(price), whole) && value(
                    r->Ok_0,
                ) <= whole && (value(r->Ok_0) < room ==> (whole - value(r->Ok_0)) * (100 as real)
                    < 1 as real)
        }),
{
    whole_seconds_have_passed(now, book.timestamp);
    whole_seconds_have_passed(book.timestamp, now);
    let base = rt.config.sizing.base_size;
    quotients_divide(base, price);
    lemma_quotient_is_decimal(base, price);
    let raw = quotient_of(base, price)->0;
    cutting_takes_less_than_a_unit(raw, 2);
    assert(pow10(2) == 100) by {
        reveal_with_fuel(crate::decimal::pow10, 3);
    }
    products_multiply(depth, rt.config.sizing.depth_cap_factor);
    let safe = product_of(depth, rt.config.sizing.depth_cap_factor)->0;
    comparing_compares_values(safe, truncated(raw, 2));
    assert(is_ratio(value(base), value(price), value(raw)));
}

/// An entry bids a number of ticks above the ask, and 0.99 at most.
pub proof fn an_entry_bids_above_the_ask(rt: CryptoArbRuntime, m: MarketInfo, ask: Decimal)
    requires
        is_amount(ask),
        is_amount(m.tick_size),
        rt.config.order.tick_steps_above_ask <= 1_000_000,
    ensures
        entry_price_of(rt, m, ask) is Some,
        value(entry_price_of(rt, m, ask)->0) == min_of(
            value(ask) + value(m.tick_size) * (rt.config.order.tick_steps_above_ask as real),
            (99 as real) / (100 as real),
        ),
{
    let n = rt.config.order.tick_steps_above_ask as int;
    lemma_dec_parts(n, 0);
    value_of_parts(n, 0);
    value_of_hundredths(99);
    assert(is_within(dec(n, 0), 6, 0)) by {
        reveal_with_fuel(crate::decimal::pow10, 7);
    }
    small_products_are_exact(m.tick_size, dec(n, 0), 6, 6, 6, 0);
    lemma_within_more(ask, 6, 6, 12, 6);
    let above = product_of(m.tick_size, dec(n, 0))->0;
    small_sums_are_exact(ask, above, 12, 6);
    picking_picks_values(sum_of(ask, above)->0, dec(99, 2));
}

/// An entry gains what a win leaves over its ask, less the fee.
pub proof fn an_entry_gains_what_a_win_leaves(
    rt: CryptoArbRuntime,
    m: MarketWithReference,
    market_id: MarketId,
    side: OutcomeSide,
    ask: Decimal,
    fee: Decimal,
)
    requires
        taker_fee_of(ask, rt.config.fee.taker_fee_rate) == Some(fee),
        difference_is_exact(one(), ask),
        difference_is_exact(difference_of(one(), ask)->0, fee),
    ensures
        ({
            let o = opportunity_of(rt, m, market_id, side, ask);
            &&& o is Some
            &&& value(o->0.profit_margin) == 1 as real - value(ask)
            &&& value(o->0.net_margin) == 1 as real - value(ask) - value(fee)
            &&& value(o->0.confidence) == 1 as real
            &&& o->0.buy_price == ask && o->0.estimated_fee == fee && o->0.outcome_to_buy == side
            &&& side == OutcomeSide::Up ==> o->0.token_id == m.market.token_ids.outcome_a
            &&& side == OutcomeSide::Down ==> o->0.token_id == m.market.token_ids.outcome_b
        }),
{
    signs_agree(one());
    differences_add_up(one(), ask);
    differences_add_up(difference_of(one(), ask)->0, fee);
}

/// A market that is to be entered gets one order, where it is not cooling down, nothing is held or
/// asked for in it, a slot is left, and the size is at least the least order: a resting purchase of
/// that size, which is remembered as pending; the slot held meanwhile is freed.
pub proof fn an_entry_places_one_order(
    rt: CryptoArbRuntime,
    b: EntryBook,
    key: Seq<char>,
    m: MarketWithReference,
    price: Decimal,
    books: Seq<(Seq<char>, OrderbookSnapshot)>,
    now: DateTime,
    o: ArbitrageOpportunity,
    size: Decimal,
    limit: Decimal,
)
    requires
        cooldown_of(rt, key) is None,
        !exposed_in(rt.positions@, b.pending, rt.open_limit_orders.rows(), b.reservations, key),
        slots_used(rt.positions@, b.pending, rt.open_limit_orders.rows(), b.reservations)
            < rt.config.max_positions,
        verdict_of(rt, m, m.market.id, price, books, now) == Some(EntryVerdict::Enter(o)),
        value(o.buy_price) != 0 as real,
        entry_size_of(rt, o.buy_price, lookup(books, o.token_id@), now) == Some(
            Ok::<Decimal, SkipReason>(size),
        ),
        value(size) >= value(m.market.min_order_size),
        entry_price_of(rt, m.market, o.buy_price) == Some(limit),
    ensures
        ({
            let c = entry_step(rt, b, key, m, price, books, now);
            let last = c->0.actions.last();
            &&& c is Some
            &&& c->0.actions.len() == b.actions.len() + 1 && c->0.actions.drop_last() == b.actions
            &&& last is PlaceOrder
            &&& last->PlaceOrder_0.token == o.token_id@ && last->PlaceOrder_0.price == limit
                && last->PlaceOrder_0.size == size && last->PlaceOrder_0.side == OrderSide::Buy
                && last->PlaceOrder_0.order_type == OrderType::Gtc
            &&& lookup(c->0.pending, o.token_id@) is Some
            &&& lookup(c->0.pending, o.token_id@)->0.price == limit && lookup(
                c->0.pending,
                o.token_id@,
            )->0.size == size
            &&& c->0.reservations == b.reservations
            &&& c->0.skips == b.skips
        }),
{
    signs_agree(o.buy_price);
    comparing_compares_values(size, m.market.min_order_size);
    lemma_dropped_undoes_stored(b.reservations, key, 1usize);
    lemma_lookup_stored(
        b.pending,
        o.token_id@,
        entry_pending(m, o, limit, size),
        o.token_id@,
    );
    let c = entry_step(rt, b, key, m, price, books, now);
    assert(c->0.actions.drop_last() =~= b.actions);
}

/// A market is entered neither while it cools down, nor while anything is held or asked for in it,
/// nor without a free slot.
pub proof fn an_entry_needs_a_free_slot(
    rt: CryptoArbRuntime,
    b: EntryBook,
    key: Seq<char>,
    m: MarketWithReference,
    price: Decimal,
    books: Seq<(Seq<char>, OrderbookSnapshot)>,
    now: DateTime,
)
    requires
        ({
            let at = rt.last_event_time.nanos_of();
            let limits = rt.open_limit_orders.rows();
            let waits = |rows: Seq<(Seq<char>, DateTime)>|
                lookup(rows, key) is Some && at < lookup(rows, key)->0.nanos_of();
            ||| waits(rt.stale_market_cooldowns.rows())
            ||| waits(rt.rejection_cooldowns.rows())
            ||| waits(rt.recovery_exit_cooldowns.rows())
            ||| exposed_in(rt.positions@, b.pending, limits, b.reservations, key)
            ||| slots_used(rt.positions@, b.pending, limits, b.reservations)
                >= rt.config.max_positions
        }),
    ensures
        ({
            let c = entry_step(rt, b, key, m, price, books, now);
            c is Some && c->0.actions == b.actions && c->0.pending == b.pending && c->0.reservations
                == b.reservations
        }),
{
}

/// A coin is looked at once its nearest market ends within the window, to the second.
pub proof fn a_coin_is_looked_at_near_an_end(
    rt: CryptoArbRuntime,
    coin: Seq<char>,
    now: DateTime,
    end: DateTime,
)
    requires
        lookup(rt.coin_nearest_expiry.rows(), coin) == Some(end),
        rt.config.tailend.time_threshold_secs <= i64::MAX,
    ensures
        far_from_end(rt, coin, now) <==> end.nanos_of() - now.nanos_of() >= (
        rt.config.tailend.time_threshold_secs + 1) * 1_000_000_000,
{
    whole_seconds_have_passed(end, now);
    whole_seconds_have_passed(now, end);
}

} // verus!
