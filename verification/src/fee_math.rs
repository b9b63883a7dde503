//! Fees, margins, position sizing, and how prices and slugs are read and written.
use crate::config::SizingConfig;
use crate::decimal::{
    Decimal, Overflow, at_most, dec, decimal_fixed_text, difference_of, exact_product,
    exact_quotient, exact_sum, fits, larger, lemma_dec_parts, lemma_dec_whole,
    lemma_is_whole_number, lemma_pow10_adds, lemma_pow10_grows, lemma_pow10_in_range,
    lemma_zero_product, less, minus, ok_of, one, over, pow10, product_of, quotient_of, rounded,
    same, smaller, times, zero,
};
use crate::text::{chars_of, i64_value, owned, parse_i64, push_char};
use crate::value::{
    abs_of, comparing_compares_values, difference_is_exact, differences_add_up, is_ratio,
    is_within, lemma_within_basics, lemma_within_more, max_of, min_of, picking_picks_values,
    product_is_exact, products_multiply, quotients_divide, signs_agree, small_products_are_exact,
    small_sums_are_exact, value, value_of_parts,
};
use vstd::prelude::*;
use vstd::string::*;

verus! {

/// `2 * p * (1 - p) * rate`.
pub open spec fn taker_fee_of(price: Decimal, rate: Decimal) -> Option<Decimal> {
    times(
        times(times(Some(dec(2, 0)), Some(price)), minus(Some(one()), Some(price))),
        Some(rate),
    )
}

/// The taker fee per share at a probability price; an error where the arithmetic leaves
/// the decimal range.
pub fn checked_taker_fee(price: Decimal, rate: Decimal) -> (r: Result<Decimal, Overflow>)
    ensures
        ok_of(r) == taker_fee_of(price, rate),
{
    let double: Decimal = Decimal::new(2, 0).times(price)?;
    let rest: Decimal = Decimal::one().minus(price)?;
    let base: Decimal = double.times(rest)?;
    base.times(rate)
}

/// The taker fee per share at a probability price: `2 * p * (1 - p) * rate`.
///
/// At p = 0.50 the fee is `0.50 * rate`, at p = 0.95 `0.095 * rate`.
pub fn taker_fee(price: Decimal, rate: Decimal) -> (r: Decimal)
    requires
        taker_fee_of(price, rate) is Some,
    ensures
        taker_fee_of(price, rate) == Some(r),
{
    checked_taker_fee(price, rate).unwrap()
}

/// At a price strictly between 0 and 1 the fee is exactly `2 * p * (1 - p) * rate`, as long
/// as that number has no more digits than a decimal holds.
pub proof fn fee_is_exact(m: int, s: int, rate_m: int, rate_s: int)
    requires
        0 <= s,
        0 < m < pow10(s as nat),
        0 < rate_m,
        0 <= rate_s,
        fits(2 * m * (pow10(s as nat) - m) * rate_m, 2 * s + rate_s),
    ensures
        taker_fee_of(dec(m, s), dec(rate_m, rate_s)) == Some(
            dec(2 * m * (pow10(s as nat) - m) * rate_m, 2 * s + rate_s),
        ),
{
    reveal(crate::decimal::product_of);
    reveal(crate::decimal::difference_of);
    let p = pow10(s as nat);
    let rest = p - m;
    let base = 2 * m * rest;
    lemma_pow10_in_range(s as nat);
    assert(0 < 2 * m <= base && rest <= base) by (nonlinear_arith)
        requires
            base == 2 * m * rest,
            m > 0,
            rest >= 1,
    ;
    assert(base <= base * rate_m && rate_m <= base * rate_m) by (nonlinear_arith)
        requires
            base >= 1,
            rate_m >= 1,
    ;
    lemma_dec_parts(2, 0);
    lemma_dec_parts(1, 0);
    lemma_dec_parts(m, s);
    lemma_dec_parts(rate_m, rate_s);
    lemma_dec_parts(2 * m, s);
    lemma_dec_parts(rest, s);
    lemma_dec_parts(base, 2 * s);
    assert(pow10(0) == 1);
    assert(exact_product(dec(2, 0), dec(m, s)) == Some(dec(2 * m, s)));
    assert(1 * pow10((s - 0) as nat) == p);
    assert(m * pow10((s - s) as nat) == m) by (nonlinear_arith)
        requires
            pow10((s - s) as nat) == 1,
    ;
    assert(exact_sum(dec(1, 0), dec(m, s), -1) == Some(dec(rest, s)));
    assert((2 * m) * rest == base) by (nonlinear_arith)
        requires
            base == 2 * m * rest,
    ;
    assert(exact_product(dec(2 * m, s), dec(rest, s)) == Some(dec(base, 2 * s)));
    assert(exact_product(dec(base, 2 * s), dec(rate_m, rate_s)) == Some(
        dec(base * rate_m, 2 * s + rate_s),
    ));
}

/// The fee of a price and of its complement are the same.
pub proof fn fee_is_symmetric(m: int, s: int, rate_m: int, rate_s: int)
    requires
        0 <= s,
        0 < m < pow10(s as nat),
        0 < rate_m,
        0 <= rate_s,
        fits(2 * m * (pow10(s as nat) - m) * rate_m, 2 * s + rate_s),
    ensures
        taker_fee_of(dec(m, s), dec(rate_m, rate_s)) == taker_fee_of(
            dec(pow10(s as nat) - m, s),
            dec(rate_m, rate_s),
        ),
{
    let c = pow10(s as nat) - m;
    assert(2 * m * c * rate_m == 2 * c * m * rate_m) by (nonlinear_arith);
    assert(pow10(s as nat) - c == m);
    fee_is_exact(m, s, rate_m, rate_s);
    fee_is_exact(c, s, rate_m, rate_s);
}

/// Nothing is charged at a price of 0 or 1.
pub proof fn fee_vanishes_at_the_extremes(rate: Decimal)
    ensures
        taker_fee_of(zero(), rate) == Some(zero()),
        taker_fee_of(one(), rate) == Some(zero()),
{
    reveal(crate::decimal::product_of);
    reveal(crate::decimal::difference_of);
    lemma_dec_parts(0, 0);
    lemma_dec_parts(1, 0);
    lemma_dec_parts(2, 0);
    assert(pow10(0) == 1);
}

/// A number between 0 and 1, with at most six places.
pub open spec fn is_share(d: Decimal) -> bool {
    0 <= d.scale_of() <= 6 && 0 <= d.mantissa_of() <= pow10(d.scale_of() as nat)
}

/// What is left of 1 is exact, and a share too.
proof fn lemma_rest_of_share(p: Decimal)
    requires
        is_share(p),
    ensures
        minus(Some(one()), Some(p)) == Some(
            if p.mantissa_of() == 0 {
                one()
            } else {
                dec(pow10(p.scale_of() as nat) - p.mantissa_of(), p.scale_of())
            },
        ),
        is_share(minus(Some(one()), Some(p))->0),
        p.mantissa_of() != 0 ==> minus(Some(one()), Some(p))->0.mantissa_of() == pow10(
            p.scale_of() as nat,
        ) - p.mantissa_of() && minus(Some(one()), Some(p))->0.scale_of() == p.scale_of(),
{
    reveal(crate::decimal::difference_of);
    let s = p.scale_of();
    let m = p.mantissa_of();
    lemma_pow10_in_range(s as nat);
    lemma_dec_parts(1, 0);
    assert(pow10(0) == 1);
    if m != 0 {
        assert(1 * pow10((s - 0) as nat) == pow10(s as nat));
        assert(m * pow10((s - s) as nat) == m) by (nonlinear_arith)
            requires
                pow10((s - s) as nat) == 1,
        ;
        lemma_dec_parts(pow10(s as nat) - m, s);
        assert(exact_sum(one(), p, -1) == Some(dec(pow10(s as nat) - m, s)));
    }
}

/// The fee of a share at a rate that is one: exact, and nothing at 0, at 1 and without a rate.
proof fn lemma_fee_of_shares(p: Decimal, rate: Decimal)
    requires
        is_share(p),
        is_share(rate),
    ensures
        ({
            let m = p.mantissa_of();
            let s = p.scale_of();
            let whole = pow10(s as nat);
            let f = 2 * m * (whole - m) * rate.mantissa_of();
            let t = 2 * s + rate.scale_of();
            &&& taker_fee_of(p, rate) == Some(
                if m == 0 || m == whole || rate.mantissa_of() == 0 {
                    zero()
                } else {
                    dec(f, t)
                },
            )
            &&& fits(f, t)
            &&& !(m == 0 || m == whole || rate.mantissa_of() == 0) ==> f > 0
        }),
{
    reveal(crate::decimal::product_of);
    reveal_with_fuel(pow10, 7);
    let m = p.mantissa_of();
    let s = p.scale_of();
    let whole = pow10(s as nat);
    let rm = rate.mantissa_of();
    let rs = rate.scale_of();
    let f = 2 * m * (whole - m) * rm;
    lemma_pow10_grows(s as nat, 6);
    lemma_pow10_grows(rs as nat, 6);
    assert(0 <= f <= 2 * 1_000_000 * 1_000_000 * 1_000_000) by (nonlinear_arith)
        requires
            f == 2 * m * (whole - m) * rm,
            0 <= m <= whole <= 1_000_000,
            0 <= rm <= 1_000_000,
    ;
    lemma_rest_of_share(p);
    lemma_dec_parts(0, 0);
    lemma_dec_parts(1, 0);
    lemma_dec_parts(2, 0);
    lemma_dec_whole(p);
    lemma_dec_whole(rate);
    let rest = minus(Some(one()), Some(p))->0;
    if m == 0 {
        lemma_zero_product(dec(2, 0), p);
        lemma_zero_product(zero(), rest);
        lemma_zero_product(zero(), rate);
        assert(2 * m * (whole - m) * rm == 0) by (nonlinear_arith)
            requires
                m == 0,
        ;
    } else if m == whole {
        lemma_dec_parts(2 * m, s);
        assert(exact_product(dec(2, 0), p) == Some(dec(2 * m, s)));
        lemma_zero_product(dec(2 * m, s), rest);
        lemma_zero_product(zero(), rate);
    } else if rm == 0 {
        lemma_dec_parts(2 * m, s);
        assert(exact_product(dec(2, 0), p) == Some(dec(2 * m, s)));
        let base = (2 * m) * (whole - m);
        assert(0 < base <= 2 * 1_000_000 * 1_000_000) by (nonlinear_arith)
            requires
                base == (2 * m) * (whole - m),
                0 < m < whole <= 1_000_000,
        ;
        lemma_dec_parts(base, 2 * s);
        assert(exact_product(dec(2 * m, s), dec(whole - m, s)) == Some(dec(base, 2 * s)));
        lemma_zero_product(dec(base, 2 * s), rate);
    } else {
        assert(f > 0) by (nonlinear_arith)
            requires
                f == 2 * m * (whole - m) * rm,
                0 < m < whole,
                0 < rm,
        ;
        fee_is_exact(m, s, rm, rs);
    }
}

/// Half of a rate.
pub open spec fn half_of(rate: Decimal) -> Option<Decimal> {
    times(Some(rate), Some(dec(5, 1)))
}

/// The fee over all prices and rates between 0 and 1 with at most six places: it is the same
/// for a price and its complement, lies between 0 and half of the rate, reaches that half at
/// 0.50, and is nothing exactly at 0, at 1 and at a rate of 0.
pub proof fn fee_peaks_in_the_middle(p: Decimal, rate: Decimal)
    requires
        is_share(p),
        is_share(rate),
    ensures
        ({
            let fee = taker_fee_of(p, rate);
            let rest = minus(Some(one()), Some(p));
            &&& fee is Some && rest is Some && half_of(rate) is Some
            &&& taker_fee_of(rest->0, rate) == fee
            &&& at_most(zero(), fee->0) && at_most(fee->0, half_of(rate)->0)
            &&& same(p, dec(50, 2)) ==> same(fee->0, half_of(rate)->0)
            &&& same(fee->0, zero()) <==> same(p, zero()) || same(p, one()) || same(rate, zero())
        }),
{
    reveal(crate::decimal::product_of);
    reveal_with_fuel(pow10, 7);
    let m = p.mantissa_of();
    let s = p.scale_of();
    let whole = pow10(s as nat);
    let rm = rate.mantissa_of();
    let rs = rate.scale_of();
    let rp = pow10(rs as nat);
    let f = 2 * m * (whole - m) * rm;
    let t = 2 * s + rs;
    let rest = minus(Some(one()), Some(p))->0;
    lemma_rest_of_share(p);
    lemma_fee_of_shares(p, rate);
    lemma_fee_of_shares(rest, rate);
    lemma_dec_parts(0, 0);
    lemma_dec_parts(1, 0);
    lemma_dec_parts(50, 2);
    lemma_dec_parts(5, 1);
    lemma_dec_parts(f, t);
    lemma_pow10_grows(s as nat, 6);
    lemma_pow10_grows(rs as nat, 6);
    if m != 0 {
        let c = whole - m;
        assert(2 * c * (whole - c) * rm == f) by (nonlinear_arith)
            requires
                c == whole - m,
                f == 2 * m * (whole - m) * rm,
        ;
    }
    lemma_dec_parts(rm * 5, rs + 1);
    let half = if rm == 0 {
        dec(0, 0)
    } else {
        dec(rm * 5, rs + 1)
    };
    assert(exact_product(rate, dec(5, 1)) == Some(half));
    lemma_pow10_adds(s as nat, s as nat);
    lemma_pow10_adds(2 * s as nat, rs as nat);
    assert(pow10(t as nat) == (whole * whole) * rp);
    assert(pow10((rs + 1) as nat) == 10 * rp);
    let z = pow10(t as nat);
    assert(2 * (2 * m * (whole - m)) <= whole * whole && (2 * m == whole ==> 2 * (2 * m * (whole
        - m)) == whole * whole)) by (nonlinear_arith)
        requires
            0 <= m <= whole,
    {
        let e = whole - 2 * m;
        assert(e * e >= 0);
        assert(e * e == whole * whole - 2 * (2 * m * (whole - m)));
    }
    let g = 2 * m * (whole - m);
    assert(f * (10 * rp) <= (rm * 5) * z && (2 * g == whole * whole ==> f * (10 * rp) == (rm * 5)
        * z)) by (nonlinear_arith)
        requires
            f == g * rm,
            z == (whole * whole) * rp,
            2 * g <= whole * whole,
            rm >= 0,
            rp >= 1,
    {
        assert(f * (10 * rp) == (2 * g) * (5 * (rm * rp)));
        assert((rm * 5) * z == (whole * whole) * (5 * (rm * rp)));
        assert(5 * (rm * rp) >= 0);
        assert((2 * g) * (5 * (rm * rp)) <= (whole * whole) * (5 * (rm * rp)));
    }
    assert(f == g * rm);
    let hundred = pow10(dec(50, 2).scale_of() as nat);
    assert(hundred == 100);
    assert(m * hundred == 100 * m) by (nonlinear_arith)
        requires
            hundred == 100,
    ;
    assert(same(p, dec(50, 2)) <==> 2 * m == whole);
    lemma_is_whole_number(p, 0);
    lemma_is_whole_number(p, 1);
    lemma_is_whole_number(rate, 0);
    lemma_is_whole_number(half, 0);
    lemma_is_whole_number(zero(), 0);
    lemma_is_whole_number(dec(f, t), 0);
}

/// A maker pays no fee, and what a taker's margin falls short of a maker's is the fee.
pub proof fn margins_differ_by_the_fee(p: Decimal, rate: Decimal)
    requires
        is_share(p),
        is_share(rate),
    ensures
        ({
            let maker = net_margin_of(p, rate, true);
            let taker = net_margin_of(p, rate, false);
            let fee = taker_fee_of(p, rate);
            &&& maker == minus(Some(one()), Some(p))
            &&& maker is Some && taker is Some && fee is Some
            &&& minus(maker, taker) is Some
            &&& same(minus(maker, taker)->0, fee->0)
        }),
{
    reveal(crate::decimal::difference_of);
    reveal_with_fuel(pow10, 7);
    let m = p.mantissa_of();
    let s = p.scale_of();
    let whole = pow10(s as nat);
    let rm = rate.mantissa_of();
    let rs = rate.scale_of();
    let f = 2 * m * (whole - m) * rm;
    let t = 2 * s + rs;
    let gross = minus(Some(one()), Some(p))->0;
    let fee = taker_fee_of(p, rate)->0;
    lemma_rest_of_share(p);
    lemma_fee_of_shares(p, rate);
    lemma_dec_parts(0, 0);
    lemma_dec_parts(1, 0);
    lemma_dec_whole(gross);
    lemma_pow10_grows(s as nat, 6);
    lemma_pow10_grows(rs as nat, 6);
    let gm = gross.mantissa_of();
    let gs = gross.scale_of();
    assert(exact_sum(gross, zero(), -1) is Some);
    if m == 0 || m == whole || rm == 0 {
        let taker = net_margin_of(p, rate, false)->0;
        assert(fee == zero());
        if gm == 0 {
            assert(-1 * 0 == 0);
            assert(taker == dec(0, 0));
            assert(exact_sum(gross, taker, -1) == Some(dec(0, 0)));
        } else {
            assert(taker == gross);
            let am = gm * pow10((gs - gs) as nat);
            assert(am == gm) by (nonlinear_arith)
                requires
                    am == gm * pow10((gs - gs) as nat),
                    pow10((gs - gs) as nat) == 1,
            ;
            lemma_pow10_in_range(gs as nat);
            lemma_dec_parts(0, gs);
            assert(exact_sum(gross, gross, -1) == Some(dec(0, gs)));
        }
    } else {
        lemma_dec_parts(f, t);
        let wide = pow10((t - s) as nat);
        lemma_pow10_adds(s as nat, rs as nat);
        assert(t - s == s + rs);
        assert(wide == whole * pow10(rs as nat));
        let g = gm * wide;
        assert(0 <= g <= 1_000_000 * (1_000_000 * 1_000_000)) by (nonlinear_arith)
            requires
                g == gm * wide,
                wide == whole * pow10(rs as nat),
                0 <= gm <= 1_000_000,
                1 <= whole <= 1_000_000,
                1 <= pow10(rs as nat) <= 1_000_000,
        ;
        assert(f * pow10((t - t) as nat) == f) by (nonlinear_arith)
            requires
                pow10((t - t) as nat) == 1,
        ;
        lemma_dec_parts(g - f, t);
        assert(exact_sum(gross, fee, -1) == Some(dec(g - f, t)));
        let taker = dec(g - f, t);
        lemma_pow10_adds(s as nat, (t - s) as nat);
        assert(pow10(t as nat) == whole * wide);
        if g == f {
            assert(exact_sum(gross, taker, -1) == Some(gross));
            assert(gm * pow10(t as nat) == f * pow10(s as nat)) by (nonlinear_arith)
                requires
                    f == gm * wide,
                    pow10(t as nat) == whole * wide,
                    pow10(s as nat) == whole,
            ;
        } else {
            assert((g - f) * pow10((t - t) as nat) == g - f) by (nonlinear_arith)
                requires
                    pow10((t - t) as nat) == 1,
            ;
            assert(g + -1 * (g - f) == f);
            assert(exact_sum(gross, taker, -1) == Some(dec(f, t)));
        }
    }
}

/// What is left of `1 - entry_price` after the entry fee; a maker pays none.
pub open spec fn net_margin_of(entry_price: Decimal, fee_rate: Decimal, is_maker: bool) -> Option<
    Decimal,
> {
    let gross = minus(Some(one()), Some(entry_price));
    if is_maker {
        gross
    } else {
        minus(gross, taker_fee_of(entry_price, fee_rate))
    }
}

/// The net profit margin of an entry; an error where the arithmetic leaves the decimal
/// range.
pub fn checked_net_profit_margin(entry_price: Decimal, fee_rate: Decimal, is_maker: bool) -> (r:
    Result<Decimal, Overflow>)
    ensures
        ok_of(r) == net_margin_of(entry_price, fee_rate, is_maker),
{
    let gross: Decimal = Decimal::one().minus(entry_price)?;
    if is_maker {
        Ok(gross)
    } else {
        let fee: Decimal = checked_taker_fee(entry_price, fee_rate)?;
        gross.minus(fee)
    }
}

/// The net profit margin of an entry at `entry_price` when the outcome resolves to 1:
/// `1 - entry_price`, less the taker fee unless the order is a maker order.
pub fn net_profit_margin(entry_price: Decimal, fee_rate: Decimal, is_maker: bool) -> (r: Decimal)
    requires
        net_margin_of(entry_price, fee_rate, is_maker) is Some,
    ensures
        net_margin_of(entry_price, fee_rate, is_maker) == Some(r),
{
    checked_net_profit_margin(entry_price, fee_rate, is_maker).unwrap()
}

/// Net payout per unit risked: `1 / price - 1`.
pub open spec fn payout_of(price: Decimal) -> Option<Decimal> {
    minus(over(Some(one()), Some(price)), Some(one()))
}

/// Kelly fraction: `(confidence * payout - (1 - confidence)) / payout`.
pub open spec fn kelly_fraction_of(confidence: Decimal, payout: Decimal) -> Option<Decimal> {
    over(
        minus(
            times(Some(confidence), Some(payout)),
            minus(Some(one()), Some(confidence)),
        ),
        Some(payout),
    )
}

/// `base_size * kelly * kelly_multiplier` within `[min_size, max_size]`; zero for a fraction
/// that is not positive. `None` is an overflow.
pub open spec fn fraction_size_of(kelly: Decimal, config: SizingConfig) -> Option<Decimal> {
    if at_most(kelly, zero()) {
        Some(zero())
    } else {
        match times(
            times(Some(config.base_size), Some(kelly)),
            Some(config.kelly_multiplier),
        ) {
            None => None,
            Some(size) => Some(smaller(larger(size, config.min_size), config.max_size)),
        }
    }
}

/// The size at a payout; zero for a payout below 0.001. `None` is an overflow.
pub open spec fn payout_size_of(confidence: Decimal, payout: Decimal, config: SizingConfig) -> Option<
    Decimal,
> {
    if less(payout, dec(1, 3)) {
        Some(zero())
    } else {
        match kelly_fraction_of(confidence, payout) {
            None => None,
            Some(kelly) => fraction_size_of(kelly, config),
        }
    }
}

/// The Kelly size at a price: zero without an edge, for a price that is zero or not below 1,
/// and for a payout below 0.001. `None` is an overflow.
pub open spec fn kelly_size_of(confidence: Decimal, price: Decimal, config: SizingConfig) -> Option<
    Decimal,
> {
    if price.mantissa_of() == 0 || at_most(one(), price) {
        Some(zero())
    } else {
        match payout_of(price) {
            None => None,
            Some(payout) => payout_size_of(confidence, payout, config),
        }
    }
}

/// The Kelly fraction is the edge over the odds: `(confidence - price) / (1 - price)`. It is not
/// positive where the confidence is no more than the price. The 28th digit is left to rounding.
pub proof fn the_kelly_fraction_is_the_edge_over_the_odds(confidence: Decimal, price: Decimal)
    requires
        value(price) > 0 as real && value(price) < (1 as real),
        exact_quotient(one(), price) is Some,
        payout_of(price) is Some,
        difference_is_exact(quotient_of(one(), price)->0, one()),
        product_is_exact(confidence, payout_of(price)->0),
        difference_is_exact(one(), confidence),
        difference_is_exact(
            product_of(confidence, payout_of(price)->0)->0,
            difference_of(one(), confidence)->0,
        ),
        kelly_fraction_of(confidence, payout_of(price)->0) is Some,
    ensures
        ({
            let fraction = value(kelly_fraction_of(confidence, payout_of(price)->0)->0);
            let (c, p) = (value(confidence), value(price));
            &&& is_ratio(c - p, 1 as real - p, fraction)
            &&& c <= p ==> fraction <= 0 as real
            &&& c >= p ==> fraction >= 0 as real
            &&& value(payout_of(price)->0) * p == 1 as real - p
        }),
{
    let inverse = quotient_of(one(), price)->0;
    let payout = payout_of(price)->0;
    let gain = product_of(confidence, payout)->0;
    let doubt = difference_of(one(), confidence)->0;
    let edge = difference_of(gain, doubt)->0;
    let f = kelly_fraction_of(confidence, payout)->0;
    signs_agree(one());
    quotients_divide(one(), price);
    differences_add_up(inverse, one());
    products_multiply(confidence, payout);
    differences_add_up(one(), confidence);
    differences_add_up(gain, doubt);
    quotients_divide(edge, payout);
    let (c, p, b, x, z) = (
        value(confidence),
        value(price),
        value(payout),
        value(edge),
        value(f),
    );
    let i = value(inverse);
    assert(b * p == 1 as real - p) by (nonlinear_arith)
        requires
            i * p == 1 as real,
            b == i - 1 as real,
    ;
    assert(b > 0 as real) by (nonlinear_arith)
        requires
            b * p == 1 as real - p,
            p > 0 as real,
            p < (1 as real),
    ;
    assert(x * p == c - p) by (nonlinear_arith)
        requires
            x == c * b - (1 as real - c),
            b * p == 1 as real - p,
    ;
    assert((c <= p ==> x <= 0 as real) && (c >= p ==> x >= 0 as real)) by (nonlinear_arith)
        requires
            x * p == c - p,
            p > 0 as real,
    ;
    let gap = z * b - x;
    let wide = z * (1 as real - p) - (c - p);
    assert(wide == gap * p) by (nonlinear_arith)
        requires
            gap == z * b - x,
            wide == z * (1 as real - p) - (c - p),
            b * p == 1 as real - p,
            x * p == c - p,
    ;
    let e = pow10(28) as real;
    let m = max_of(1 as real, abs_of(z));
    assert(abs_of(wide) == abs_of(gap) * p) by (nonlinear_arith)
        requires
            wide == gap * p,
            p > 0 as real,
            abs_of(gap) == gap && gap >= 0 as real || abs_of(gap) == -gap && gap < 0 as real,
            abs_of(wide) == wide && wide >= 0 as real || abs_of(wide) == -wide && wide < 0 as real,
    ;
    assert(abs_of(wide) * e <= (1 as real - p) * m) by (nonlinear_arith)
        requires
            abs_of(wide) == abs_of(gap) * p,
            abs_of(gap) * e <= b * m,
            b * p == 1 as real - p,
            p > 0 as real,
    {
        assert((abs_of(gap) * e) * p <= (b * m) * p);
        assert((abs_of(gap) * e) * p == (abs_of(gap) * p) * e);
        assert((b * m) * p == (b * p) * m);
    }
}

/// A positive Kelly fraction is worth that share of the base size times the multiplier, within
/// the limits; one that is not positive is worth nothing.
pub proof fn a_kelly_fraction_scales_the_base_size(kelly: Decimal, config: SizingConfig)
    requires
        product_is_exact(config.base_size, kelly),
        product_is_exact(product_of(config.base_size, kelly)->0, config.kelly_multiplier),
    ensures
        ({
            let size = fraction_size_of(kelly, config);
            let wanted = value(config.base_size) * value(kelly) * value(config.kelly_multiplier);
            &&& size is Some
            &&& value(kelly) <= 0 as real ==> value(size->0) == 0 as real
            &&& value(kelly) > 0 as real ==> value(size->0) == min_of(
                max_of(wanted, value(config.min_size)),
                value(config.max_size),
            )
        }),
{
    signs_agree(kelly);
    comparing_compares_values(kelly, zero());
    products_multiply(config.base_size, kelly);
    let scaled = product_of(config.base_size, kelly)->0;
    products_multiply(scaled, config.kelly_multiplier);
    let size = product_of(scaled, config.kelly_multiplier)->0;
    picking_picks_values(size, config.min_size);
    picking_picks_values(larger(size, config.min_size), config.max_size);
}

/// Nothing is bought at a price of 0, at a price of 1 or more, or where a win pays less than a
/// thousandth.
pub proof fn a_bet_that_cannot_pay_has_no_size(
    confidence: Decimal,
    price: Decimal,
    config: SizingConfig,
)
    requires
        value(price) == 0 as real || value(price) >= 1 as real || (payout_of(price) is Some
            && value(payout_of(price)->0) * (1000 as real) < 1 as real),
    ensures
        kelly_size_of(confidence, price, config) == Some(zero()),
{
    signs_agree(price);
    comparing_compares_values(one(), price);
    if payout_of(price) is Some {
        value_of_parts(1, 3);
        reveal_with_fuel(pow10, 4);
        assert(((1 as real) / (1000 as real)) * (1000 as real) == 1 as real) by (nonlinear_arith);
        comparing_compares_values(payout_of(price)->0, dec(1, 3));
    }
}

/// The size in USDC of a Kelly fraction.
pub fn size_at_fraction(kelly: Decimal, config: &SizingConfig) -> (r: Result<Decimal, Overflow>)
    ensures
        ok_of(r) == fraction_size_of(kelly, *config),
{
    if kelly.le(Decimal::zero()) {
        return Ok(Decimal::zero());
    }
    let scaled: Decimal = config.base_size.times(kelly)?;
    let size: Decimal = scaled.times(config.kelly_multiplier)?;
    Ok(size.max(config.min_size).min(config.max_size))
}

/// The Kelly position size in USDC at a payout per dollar.
pub fn size_at_payout(confidence: Decimal, payout: Decimal, config: &SizingConfig) -> (r: Result<
    Decimal,
    Overflow,
>)
    ensures
        ok_of(r) == payout_size_of(confidence, payout, *config),
{
    if payout.lt(Decimal::new(1, 3)) {
        return Ok(Decimal::zero());
    }
    let gain: Decimal = confidence.times(payout)?;
    let doubt: Decimal = Decimal::one().minus(confidence)?;
    let edge: Decimal = gain.minus(doubt)?;
    let kelly: Decimal = edge.over(payout)?;
    size_at_fraction(kelly, config)
}

/// The Kelly position size in USDC; an error where the arithmetic leaves the decimal
/// range.
pub fn checked_kelly_position_size(
    confidence: Decimal,
    price: Decimal,
    config: &SizingConfig,
) -> (r: Result<Decimal, Overflow>)
    ensures
        ok_of(r) == kelly_size_of(confidence, price, *config),
{
    if price.is_zero() || price.ge(Decimal::one()) {
        return Ok(Decimal::zero());
    }
    let inverse: Decimal = Decimal::one().over(price)?;
    let payout: Decimal = inverse.minus(Decimal::one())?;
    size_at_payout(confidence, payout, config)
}

/// The Kelly criterion position size in USDC.
pub fn kelly_position_size(confidence: Decimal, price: Decimal, config: &SizingConfig) -> (r:
    Decimal)
    requires
        kelly_size_of(confidence, price, *config) is Some,
    ensures
        kelly_size_of(confidence, price, *config) == Some(r),
{
    checked_kelly_position_size(confidence, price, config).unwrap()
}

/// A Kelly size is zero or lies within the configured limits.
pub proof fn kelly_size_within_limits(confidence: Decimal, price: Decimal, config: SizingConfig)
    requires
        at_most(config.min_size, config.max_size),
        kelly_size_of(confidence, price, config) is Some,
    ensures
        ({
            let size = kelly_size_of(confidence, price, config)->0;
            size == zero() || (at_most(config.min_size, size) && at_most(size, config.max_size))
        }),
{
}

/// A maker's margin is what a taker's is before the fee.
pub proof fn maker_margin_is_gross(entry_price: Decimal, fee_rate: Decimal)
    ensures
        net_margin_of(entry_price, fee_rate, true) == minus(Some(one()), Some(entry_price)),
        net_margin_of(entry_price, fee_rate, false) == minus(
            net_margin_of(entry_price, fee_rate, true),
            taker_fee_of(entry_price, fee_rate),
        ),
{
}

/// The place of the last `-` in a text, or -1.
pub open spec fn last_dash(s: Seq<char>) -> int
    decreases s.len(),
{
    if s.len() == 0 {
        -1
    } else if s.last() == '-' {
        s.len() - 1
    } else {
        last_dash(s.drop_last())
    }
}

/// The text after the last `-`, or all of it.
pub open spec fn last_segment(s: Seq<char>) -> Seq<char> {
    s.skip(last_dash(s) + 1)
}

/// The first second of 2020.
pub const EARLIEST_SLUG_TS: i64 = 1_577_836_800;

/// The unix timestamp at the end of a slug, when it is after the start of 2020.
pub open spec fn slug_timestamp(s: Seq<char>) -> Option<i64> {
    match i64_value(last_segment(s)) {
        Some(ts) => if ts > EARLIEST_SLUG_TS {
            Some(ts)
        } else {
            None
        },
        None => None,
    }
}

/// The unix timestamp at the end of a slug (`btc-updown-15m-1706000000` gives 1706000000).
pub fn parse_slug_timestamp(slug: &str) -> (r: Option<i64>)
    ensures
        r == slug_timestamp(slug@),
{
    let n: usize = slug.unicode_len();
    let mut i: usize = n;
    assert(slug@.take(n as int) =~= slug@);
    while i > 0 && slug.get_char(i - 1) != '-'
        invariant
            i <= n,
            n == slug@.len(),
            last_dash(slug@) == last_dash(slug@.take(i as int)),
        decreases i,
    {
        assert(slug@.take(i as int).drop_last() =~= slug@.take(i as int - 1));
        assert(slug@.take(i as int).last() == slug@[i as int - 1]);
        i -= 1;
    }
    proof {
        if i > 0 {
            assert(slug@.take(i as int).last() == slug@[i as int - 1]);
        }
    }
    let segment: &str = slug.substring_char(i, n);
    assert(segment@ =~= last_segment(slug@));
    match parse_i64(segment) {
        Some(ts) => if ts > EARLIEST_SLUG_TS {
            Some(ts)
        } else {
            None
        },
        None => None,
    }
}

/// How one character is written in HTML.
pub open spec fn escaped_char(c: char) -> Seq<char> {
    if c == '&' {
        "&amp;"@
    } else if c == '<' {
        "&lt;"@
    } else if c == '>' {
        "&gt;"@
    } else if c == '"' {
        "&quot;"@
    } else if c == '\'' {
        "&#x27;"@
    } else {
        seq![c]
    }
}

/// How a text is written in HTML: character by character.
pub open spec fn escaped(s: Seq<char>) -> Seq<char>
    decreases s.len(),
{
    if s.len() == 0 {
        s
    } else {
        escaped(s.drop_last()) + escaped_char(s.last())
    }
}

/// Escaping a text escapes its parts.
pub proof fn escaping_works_part_by_part(a: Seq<char>, b: Seq<char>)
    ensures
        escaped(a + b) == escaped(a) + escaped(b),
    decreases b.len(),
{
    if b.len() == 0 {
        assert(a + b =~= a);
        assert(escaped(a) + b =~= escaped(a));
    } else {
        assert((a + b).drop_last() =~= a + b.drop_last());
        escaping_works_part_by_part(a, b.drop_last());
        assert((escaped(a) + escaped(b.drop_last())) + escaped_char(b.last()) =~= escaped(a) + (
        escaped(b.drop_last()) + escaped_char(b.last())));
    }
}

/// Escapes a text for safe use in HTML content.
pub fn escape_html(s: &str) -> (r: String)
    ensures
        r@ == escaped(s@),
{
    let chars: Vec<char> = chars_of(s);
    let mut out = String::new();
    let mut i: usize = 0;
    while i < chars.len()
        invariant
            i <= chars@.len(),
            chars@ == s@,
            out@ =~= escaped(s@.take(i as int)),
        decreases chars@.len() - i,
    {
        let c: char = chars[i];
        assert(s@.take(i as int + 1).drop_last() =~= s@.take(i as int));
        if c == '&' {
            out.append("&amp;");
        } else if c == '<' {
            out.append("&lt;");
        } else if c == '>' {
            out.append("&gt;");
        } else if c == '"' {
            out.append("&quot;");
        } else if c == '\'' {
            out.append("&#x27;");
        } else {
            push_char(&mut out, c);
        }
        i += 1;
    }
    assert(s@.take(s@.len() as int) =~= s@);
    out
}

/// An escaped text holds no angle bracket and no quote.
pub proof fn escaped_text_is_inert(s: Seq<char>)
    ensures
        forall|i: int|
            0 <= i < escaped(s).len() ==> (#[trigger] escaped(s)[i]) != '<' && escaped(s)[i] != '>'
                && escaped(s)[i] != '"' && escaped(s)[i] != '\'',
    decreases s.len(),
{
    if s.len() > 0 {
        reveal_strlit("&amp;");
        reveal_strlit("&lt;");
        reveal_strlit("&gt;");
        reveal_strlit("&quot;");
        reveal_strlit("&#x27;");
        let h = escaped(s.drop_last());
        let t = escaped_char(s.last());
        escaped_text_is_inert(s.drop_last());
        assert forall|i: int| 0 <= i < (h + t).len() implies (#[trigger] (h + t)[i]) != '<' && (h
            + t)[i] != '>' && (h + t)[i] != '"' && (h + t)[i] != '\'' by {
            if i < h.len() {
                assert((h + t)[i] == h[i]);
            } else {
                assert((h + t)[i] == t[i - h.len()]);
            }
        }
    }
}

/// The place of the first `.` at or after `from`, or the length.
pub open spec fn dot_from(s: Seq<char>, from: int) -> int
    decreases s.len() - from,
{
    if from < 0 || from >= s.len() {
        s.len() as int
    } else if s[from] == '.' {
        from
    } else {
        dot_from(s, from + 1)
    }
}

/// The first `n` of `digits`, with a comma before each digit that starts a group of three
/// counted from the right end of them all.
pub open spec fn grouped(digits: Seq<char>, n: int) -> Seq<char>
    decreases n,
{
    if n <= 0 {
        Seq::empty()
    } else if n > 1 && (digits.len() - n + 1) % 3 == 0 {
        grouped(digits, n - 1).push(',').push(digits[n - 1])
    } else {
        grouped(digits, n - 1).push(digits[n - 1])
    }
}

/// A number's text with thousands separators: `$`, the whole part grouped by threes, `.`
/// and the fraction (`00` when there is none).
pub open spec fn usd_text(fixed: Seq<char>) -> Seq<char> {
    let dot = dot_from(fixed, 0);
    let whole = fixed.take(dot);
    let negative = whole.len() > 0 && whole[0] == '-';
    let digits = if negative {
        whole.skip(1)
    } else {
        whole
    };
    let fraction = if dot < fixed.len() {
        fixed.subrange(dot + 1, dot_from(fixed, dot + 1))
    } else {
        "00"@
    };
    (if negative {
        "$-"@
    } else {
        "$"@
    }) + grouped(digits, digits.len() as int) + "."@ + fraction
}

proof fn lemma_dot_range(s: Seq<char>, from: int)
    requires
        0 <= from <= s.len(),
    ensures
        from <= dot_from(s, from) <= s.len(),
    decreases s.len() - from,
{
    if from < s.len() && s[from] != '.' {
        lemma_dot_range(s, from + 1);
    }
}

fn find_dot(chars: &Vec<char>, from: usize) -> (r: usize)
    requires
        from <= chars@.len(),
    ensures
        r == dot_from(chars@, from as int),
        from <= r <= chars@.len(),
{
    let mut i: usize = from;
    while i < chars.len() && chars[i] != '.'
        invariant
            from <= i <= chars@.len(),
            dot_from(chars@, from as int) == dot_from(chars@, i as int),
        decreases chars@.len() - i,
    {
        i += 1;
    }
    i
}

/// A text in the form of [`usd_text`].
pub fn group_usd(fixed: &str) -> (r: String)
    ensures
        r@ == usd_text(fixed@),
{
    let chars: Vec<char> = chars_of(fixed);
    let dot: usize = find_dot(&chars, 0);
    let negative: bool = dot > 0 && chars[0] == '-';
    let first: usize = if negative {
        1
    } else {
        0
    };
    let count: usize = dot - first;
    let ghost digits = if negative {
        fixed@.take(dot as int).skip(1)
    } else {
        fixed@.take(dot as int)
    };
    let mut whole = String::new();
    let mut n: usize = 0;
    while n < count
        invariant
            n <= count,
            count == digits.len(),
            first + count == dot,
            dot <= chars@.len(),
            chars@ == fixed@,
            forall|j: int| 0 <= j < count ==> digits[j] == #[trigger] chars@[first + j],
            whole@ =~= grouped(digits, n as int),
        decreases count - n,
    {
        if n > 0 && (count - n) % 3 == 0 {
            push_char(&mut whole, ',');
        }
        assert(digits[n as int] == chars@[first + n]);
        push_char(&mut whole, chars[first + n]);
        n += 1;
    }
    let mut fraction = String::new();
    let ghost want = if dot < fixed@.len() {
        fixed@.subrange(dot + 1, dot_from(fixed@, dot + 1))
    } else {
        "00"@
    };
    if dot < chars.len() {
        let end: usize = find_dot(&chars, dot + 1);
        let mut i: usize = dot + 1;
        while i < end
            invariant
                dot + 1 <= i <= end <= chars@.len(),
                chars@ == fixed@,
                fraction@ =~= fixed@.subrange(dot + 1, i as int),
            decreases end - i,
        {
            push_char(&mut fraction, chars[i]);
            i += 1;
        }
        assert(fraction@ =~= want);
    } else {
        fraction.append("00");
        assert(fraction@ =~= want);
    }
    let mut out: String = if negative {
        owned("$-")
    } else {
        owned("$")
    };
    out.append(whole.as_str());
    out.append(".");
    out.append(fraction.as_str());
    proof {
        lemma_dot_range(fixed@, 0);
        assert(fixed@.take(dot as int).len() == dot);
        if negative {
            assert(fixed@.take(dot as int)[0] == chars@[0]);
        } else if dot > 0 {
            assert(fixed@.take(dot as int)[0] == chars@[0]);
        }
    }
    out
}

/// The text of a USD price.
pub open spec fn usd_of(price: Decimal) -> Seq<char> {
    usd_text(decimal_fixed_text(rounded(price, 2), 2))
}

/// A USD price with two decimals and thousands separators (`$88,959.37`).
pub fn fmt_usd(price: Decimal) -> (r: String)
    ensures
        r@ == usd_of(price),
{
    group_usd(price.round_dp(2).to_short(2).as_str())
}

/// The text of a market price.
pub open spec fn market_price_of(price: Decimal) -> Seq<char> {
    decimal_fixed_text(rounded(price, 2), 2)
}

/// A market probability price with two decimals (`0.50`).
pub fn fmt_market_price(price: Decimal) -> (r: String)
    ensures
        r@ == market_price_of(price),
{
    price.round_dp(2).to_short(2)
}

/// The taker's fee on a share is the rate times twice the price times what the price leaves to 1;
/// a taker's margin is what the price leaves to 1 less that fee, a maker's is without it.
pub proof fn the_fee_is_twice_the_price_times_its_rest(price: Decimal, rate: Decimal)
    requires
        is_within(price, 1, 6),
        is_within(rate, 1, 6),
    ensures
        ({
            let (p, r) = (value(price), value(rate));
            let fee = (((2 as real) * p) * (1 as real - p)) * r;
            &&& taker_fee_of(price, rate) is Some && value(taker_fee_of(price, rate)->0) == fee
            &&& net_margin_of(price, rate, true) is Some
            &&& value(net_margin_of(price, rate, true)->0) == 1 as real - p
            &&& net_margin_of(price, rate, false) is Some
            &&& value(net_margin_of(price, rate, false)->0) == 1 as real - p - fee
        }),
{
    lemma_dec_parts(2, 0);
    value_of_parts(2, 0);
    signs_agree(one());
    assert(is_within(dec(2, 0), 1, 0)) by {
        reveal_with_fuel(pow10, 2);
    }
    lemma_within_basics(price, 1, 6);
    lemma_within_more(one(), 0, 0, 1, 6);
    small_products_are_exact(dec(2, 0), price, 1, 0, 1, 6);
    small_sums_are_exact(one(), price, 1, 6);
    let twice = product_of(dec(2, 0), price)->0;
    let rest = difference_of(one(), price)->0;
    small_products_are_exact(twice, rest, 2, 6, 2, 6);
    let base = product_of(twice, rest)->0;
    small_products_are_exact(base, rate, 4, 12, 1, 6);
    let fee = product_of(base, rate)->0;
    lemma_within_more(rest, 2, 6, 5, 18);
    small_sums_are_exact(rest, fee, 5, 18);
}

/// Grouping digits by threes adds commas and changes nothing else: without its commas the text is
/// the digits, and it has one comma for every three digits beyond the first three.
pub proof fn grouping_adds_commas(digits: Seq<char>, n: int)
    requires
        0 <= n <= digits.len(),
        forall|i: int| 0 <= i < digits.len() ==> #[trigger] digits[i] != ',',
    ensures
        grouped(digits, n).filter(|c: char| c != ',') == digits.take(n),
        n == digits.len() && n > 0 ==> grouped(digits, n).len() == n + (n - 1) / 3,
{
    lemma_grouped(digits, n);
}

proof fn lemma_grouped(digits: Seq<char>, n: int)
    requires
        0 <= n <= digits.len(),
        forall|i: int| 0 <= i < digits.len() ==> #[trigger] digits[i] != ',',
    ensures
        grouped(digits, n).filter(|c: char| c != ',') == digits.take(n),
        n > 0 ==> grouped(digits, n).len() == n + (digits.len() - 1) / 3 - (digits.len() - n) / 3,
    decreases n,
{
    let keep = |c: char| c != ',';
    if n > 0 {
        lemma_grouped(digits, n - 1);
        let g = grouped(digits, n - 1);
        let c = digits[n - 1];
        assert(digits.take(n) =~= digits.take(n - 1).push(c));
        lemma_filter_push(g, keep, c);
        lemma_filter_push(g, keep, ',');
        lemma_filter_push(g.push(','), keep, c);
    } else {
        reveal(Seq::filter);
        assert(grouped(digits, n).filter(keep) =~= digits.take(n));
    }
}

proof fn lemma_filter_push(s: Seq<char>, keep: spec_fn(char) -> bool, c: char)
    ensures
        s.push(c).filter(keep) == (if keep(c) {
            s.filter(keep).push(c)
        } else {
            s.filter(keep)
        }),
{
    reveal(Seq::filter);
    assert(s.push(c).drop_last() =~= s);
}

/// A slug's timestamp is the number after its last dash, where that is after the start of 2020.
pub proof fn a_slug_ends_in_its_timestamp(head: Seq<char>, tail: Seq<char>)
    requires
        forall|i: int| 0 <= i < tail.len() ==> #[trigger] tail[i] != '-',
    ensures
        ({
            let ts = slug_timestamp(head.push('-') + tail);
            ts is Some <==> i64_value(tail) is Some && i64_value(tail)->0 > 1_577_836_800
        }),
        ({
            let ts = slug_timestamp(head.push('-') + tail);
            ts is Some ==> ts == i64_value(tail)
        }),
{
    let s = head.push('-') + tail;
    lemma_last_dash(head, tail);
    assert(s.skip(head.len() as int + 1) =~= tail);
}

proof fn lemma_last_dash(head: Seq<char>, tail: Seq<char>)
    requires
        forall|i: int| 0 <= i < tail.len() ==> #[trigger] tail[i] != '-',
    ensures
        last_dash(head.push('-') + tail) == head.len(),
    decreases tail.len(),
{
    let s = head.push('-') + tail;
    if tail.len() > 0 {
        let t = tail.drop_last();
        assert(s.drop_last() =~= head.push('-') + t);
        assert(s.last() == tail[tail.len() - 1]);
        assert forall|i: int| 0 <= i < t.len() implies #[trigger] t[i] != '-' by {
            assert(t[i] == tail[i]);
        }
        lemma_last_dash(head, t);
    } else {
        assert(s =~= head.push('-'));
    }
}

} // verus!
