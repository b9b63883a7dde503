//! The numbers that decimals stand for, and what the arithmetic does to them.
use crate::decimal::{
    Decimal, abs_int, at_most, dec, difference_of, exact_product, exact_quotient, exact_sum, fits,
    is_decimal, larger, lemma_dec_parts, lemma_pow10_adds, lemma_pow10_grows, lemma_pow10_in_range,
    lemma_scale_is_natural, less, magnitude, negated, one, pow10, product_of, quotient_of, rounded,
    same, smaller, sum_of, trimmed, truncated, zero,
};
use vstd::prelude::*;

verus! {

/// The number that a decimal stands for: its mantissa over a power of ten.
pub open spec fn value(d: Decimal) -> real {
    (d.mantissa_of() as real) / (pow10(d.scale_of() as nat) as real)
}

/// The larger of two numbers.
pub open spec fn max_of(a: real, b: real) -> real {
    if a < b {
        b
    } else {
        a
    }
}

/// The smaller of two numbers.
pub open spec fn min_of(a: real, b: real) -> real {
    if b < a {
        b
    } else {
        a
    }
}

/// The magnitude of a number.
pub open spec fn abs_of(a: real) -> real {
    if a < 0 as real {
        -a
    } else {
        a
    }
}

/// `z` is `x / y`, right to 28 digits: to 28 places, or to 28 digits where it is larger than 1.
pub open spec fn is_ratio(x: real, y: real, z: real) -> bool {
    abs_of(z * y - x) * (pow10(28) as real) <= abs_of(y) * max_of(1 as real, abs_of(z))
}

/// What holds of a rounded quotient: it is right to 28 digits, has the sign of a quotient, and
/// is at most 1 where the dividend, not negative, is at most the divisor.
pub open spec fn is_quotient(a: Decimal, b: Decimal, q: Decimal) -> bool {
    let (x, y, z) = (value(a), value(b), value(q));
    &&& is_ratio(x, y, z)
    &&& x >= 0 as real && y > 0 as real ==> z >= 0 as real
    &&& x <= 0 as real && y > 0 as real ==> z <= 0 as real
    &&& x >= 0 as real && y < 0 as real ==> z <= 0 as real
    &&& x <= 0 as real && y < 0 as real ==> z >= 0 as real
    &&& 0 as real <= x <= y ==> z <= 1 as real
}

/// Comparing decimals compares their numbers.
pub proof fn comparing_compares_values(a: Decimal, b: Decimal)
    ensures
        less(a, b) <==> value(a) < value(b),
        at_most(a, b) <==> value(a) <= value(b),
        same(a, b) <==> value(a) == value(b),
{
    lemma_pow10_grows(0, a.scale_of() as nat);
    lemma_pow10_grows(0, b.scale_of() as nat);
    let (x, y) = (a.mantissa_of(), b.mantissa_of());
    let p = pow10(a.scale_of() as nat);
    let q = pow10(b.scale_of() as nat);
    let (xr, yr, pr, qr) = (x as real, y as real, p as real, q as real);
    assert((x * q) as real == xr * qr) by (nonlinear_arith)
        requires
            xr == x as real,
            qr == q as real,
    ;
    assert((y * p) as real == yr * pr) by (nonlinear_arith)
        requires
            yr == y as real,
            pr == p as real,
    ;
    assert((xr * qr < yr * pr <==> xr / pr < yr / qr) && (yr * pr < xr * qr <==> yr / qr < xr / pr))
        by (nonlinear_arith)
        requires
            pr > 0 as real,
            qr > 0 as real,
    ;
}

/// A decimal made of parts that fit stands for the one over a power of ten.
pub proof fn value_of_parts(m: int, s: int)
    requires
        fits(m, s),
    ensures
        value(dec(m, s)) == (m as real) / (pow10(s as nat) as real),
        s == 0 ==> value(dec(m, s)) == m as real,
{
    lemma_dec_parts(m, s);
    if s == 0 {
        assert(pow10(0) == 1);
        assert((m as real) / (1 as real) == m as real) by (nonlinear_arith);
    }
}

/// A number of hundredths.
pub proof fn value_of_hundredths(m: int)
    requires
        -1_000_000 <= m <= 1_000_000,
    ensures
        value(dec(m, 2)) * (100 as real) == m as real,
{
    value_of_parts(m, 2);
    reveal_with_fuel(pow10, 3);
    let (x, y) = (m as real, pow10(2) as real);
    assert((x / y) * y == x) by (nonlinear_arith)
        requires
            y == 100 as real,
    ;
}

/// `n * 10^-s * 10^k` over `10^k`.
proof fn lemma_rescaled(n: int, s: nat, k: nat)
    ensures
        ((n * pow10(k)) as real) / (pow10(s + k) as real) == (n as real) / (pow10(s) as real),
{
    lemma_pow10_adds(s, k);
    lemma_pow10_grows(0, s);
    lemma_pow10_grows(0, k);
    let (a, p, q) = (n, pow10(s), pow10(k));
    let (ar, pr, qr) = (a as real, p as real, q as real);
    assert((a * q) as real == ar * qr && (p * q) as real == pr * qr) by (nonlinear_arith)
        requires
            ar == a as real,
            pr == p as real,
            qr == q as real,
    ;
    assert((ar * qr) / (pr * qr) == ar / pr) by (nonlinear_arith)
        requires
            pr > 0 as real,
            qr > 0 as real,
    ;
}

/// The sum is exact.
pub open spec fn sum_is_exact(a: Decimal, b: Decimal) -> bool {
    is_decimal(a) && is_decimal(b) && exact_sum(a, b, 1) is Some
}

/// The difference is exact.
pub open spec fn difference_is_exact(a: Decimal, b: Decimal) -> bool {
    is_decimal(a) && is_decimal(b) && exact_sum(a, b, -1) is Some
}

/// The product is exact.
pub open spec fn product_is_exact(a: Decimal, b: Decimal) -> bool {
    exact_product(a, b) is Some
}

proof fn lemma_exact_sum(a: Decimal, b: Decimal, sign: int)
    requires
        is_decimal(a),
        is_decimal(b),
        sign == 1 || sign == -1,
        exact_sum(a, b, sign) is Some,
    ensures
        is_decimal(exact_sum(a, b, sign)->0),
        value(exact_sum(a, b, sign)->0) == if sign == 1 {
            value(a) + value(b)
        } else {
            value(a) - value(b)
        },
{
    let (s, t) = (a.scale_of(), b.scale_of());
    let (x, y) = (a.mantissa_of(), b.mantissa_of());
    let top = if s >= t {
        s
    } else {
        t
    };
    let (xr, yr) = (x as real, y as real);
    let (pr, qr, ur) = (
        pow10(s as nat) as real,
        pow10(t as nat) as real,
        pow10(top as nat) as real,
    );
    lemma_pow10_grows(0, s as nat);
    lemma_pow10_grows(0, t as nat);
    lemma_pow10_grows(0, top as nat);
    if x == 0 {
        lemma_dec_parts(sign * y, t);
        assert(xr / pr == 0 as real) by (nonlinear_arith)
            requires
                xr == 0 as real,
                pr > 0 as real,
        ;
        assert((-yr) / qr == -(yr / qr)) by (nonlinear_arith)
            requires
                qr > 0 as real,
        ;
        assert((sign * y) as real == if sign == 1 {
            yr
        } else {
            -yr
        });
    } else if y == 0 {
        assert(yr / qr == 0 as real) by (nonlinear_arith)
            requires
                yr == 0 as real,
                qr > 0 as real,
        ;
    } else {
        let am = x * pow10((top - s) as nat);
        let bm = y * pow10((top - t) as nat);
        lemma_rescaled(x, s as nat, (top - s) as nat);
        lemma_rescaled(y, t as nat, (top - t) as nat);
        lemma_dec_parts(am + sign * bm, top);
        let (ar, br) = (am as real, bm as real);
        let total = (am + sign * bm) as real;
        assert(total == if sign == 1 {
            ar + br
        } else {
            ar - br
        });
        assert((ar + br) / ur == ar / ur + br / ur && (ar - br) / ur == ar / ur - br / ur)
            by (nonlinear_arith)
            requires
                ur > 0 as real,
        ;
    }
}

/// An exact sum is the sum of the numbers.
pub proof fn sums_add_up(a: Decimal, b: Decimal)
    requires
        sum_is_exact(a, b),
    ensures
        sum_of(a, b) is Some,
        is_decimal(sum_of(a, b)->0),
        value(sum_of(a, b)->0) == value(a) + value(b),
{
    reveal(crate::decimal::sum_of);
    lemma_exact_sum(a, b, 1);
}

/// An exact difference is the difference of the numbers.
pub proof fn differences_add_up(a: Decimal, b: Decimal)
    requires
        difference_is_exact(a, b),
    ensures
        difference_of(a, b) is Some,
        is_decimal(difference_of(a, b)->0),
        value(difference_of(a, b)->0) == value(a) - value(b),
{
    reveal(crate::decimal::difference_of);
    lemma_exact_sum(a, b, -1);
}

proof fn lemma_exact_product(a: Decimal, b: Decimal)
    requires
        product_is_exact(a, b),
    ensures
        is_decimal(exact_product(a, b)->0),
        value(exact_product(a, b)->0) == value(a) * value(b),
{
    let (s, t) = (a.scale_of(), b.scale_of());
    let (x, y) = (a.mantissa_of(), b.mantissa_of());
    let m = x * y;
    let (xr, yr) = (x as real, y as real);
    let p = pow10(s as nat);
    let q = pow10(t as nat);
    let (pr, qr) = (p as real, q as real);
    lemma_pow10_grows(0, s as nat);
    lemma_pow10_grows(0, t as nat);
    assert(m as real == xr * yr) by (nonlinear_arith)
        requires
            m == x * y,
            xr == x as real,
            yr == y as real,
    ;
    assert((xr / pr) * (yr / qr) == (xr * yr) / (pr * qr)) by (nonlinear_arith)
        requires
            pr > 0 as real,
            qr > 0 as real,
    ;
    if m == 0 {
        value_of_parts(0, 0);
        lemma_dec_parts(0, 0);
        assert((xr * yr) / (pr * qr) == 0 as real) by (nonlinear_arith)
            requires
                xr * yr == 0 as real,
                pr > 0 as real,
                qr > 0 as real,
        ;
    } else {
        value_of_parts(m, s + t);
        lemma_dec_parts(m, s + t);
        lemma_pow10_adds(s as nat, t as nat);
        lemma_scale_is_natural(a);
        lemma_scale_is_natural(b);
        assert((p * q) as real == pr * qr) by (nonlinear_arith)
            requires
                pr == p as real,
                qr == q as real,
        ;
    }
}

/// An exact product is the product of the numbers.
pub proof fn products_multiply(a: Decimal, b: Decimal)
    requires
        product_is_exact(a, b),
    ensures
        product_of(a, b) is Some,
        is_decimal(product_of(a, b)->0),
        value(product_of(a, b)->0) == value(a) * value(b),
{
    reveal(crate::decimal::product_of);
    lemma_exact_product(a, b);
}

proof fn lemma_trimmed(n: int, s: int, most: nat, negative: bool)
    requires
        fits(n, s),
        0 <= n,
    ensures
        is_decimal(trimmed(n, s, most, negative)),
        value(trimmed(n, s, most, negative)) == (if negative {
            -(n as real)
        } else {
            n as real
        }) / (pow10(s as nat) as real),
    decreases most,
{
    if most > 0 && s > 0 && n % 10 == 0 {
        let m = n / 10;
        lemma_trimmed(m, s - 1, (most - 1) as nat, negative);
        let signed = if negative {
            -m
        } else {
            m
        };
        lemma_rescaled(signed, (s - 1) as nat, 1);
        assert(pow10(1) == 10 * pow10(0) && pow10(0) == 1);
        assert(signed * 10 == if negative {
            -n
        } else {
            n
        });
    } else {
        lemma_dec_parts(n, s);
        lemma_dec_parts(-n, s);
    }
}

/// An exact quotient times the divisor is the dividend.
proof fn lemma_exact_quotient(a: Decimal, b: Decimal)
    requires
        is_decimal(a),
        is_decimal(b),
        b.mantissa_of() != 0,
        exact_quotient(a, b) is Some,
    ensures
        is_decimal(exact_quotient(a, b)->0),
        value(exact_quotient(a, b)->0) * value(b) == value(a),
{
    let (s, t) = (a.scale_of(), b.scale_of());
    let am = abs_int(a.mantissa_of());
    let bm = abs_int(b.mantissa_of());
    let scale = s - t;
    let p = pow10(s as nat);
    let q = pow10(t as nat);
    lemma_pow10_grows(0, s as nat);
    lemma_pow10_grows(0, t as nat);
    let (xr, yr, pr, qr) = (
        a.mantissa_of() as real,
        b.mantissa_of() as real,
        p as real,
        q as real,
    );
    if am == 0 {
        value_of_parts(0, 0);
        lemma_dec_parts(0, 0);
        assert(xr / pr == 0 as real) by (nonlinear_arith)
            requires
                xr == 0 as real,
                pr > 0 as real,
        ;
        assert((0 as real) * (yr / qr) == 0 as real) by (nonlinear_arith);
    } else {
        // The magnitude of the quotient is `n / 10^u`, and `n * bm * 10^v == am * 10^w`.
        let nine = 1_000_000_000int;
        let negative = (a.mantissa_of() < 0) != (b.mantissa_of() < 0);
        let (n, u, most): (int, int, nat) = if scale >= 0 && am % bm == 0 {
            (am / bm, scale, 0)
        } else if am % bm == 0 {
            ((am / bm) * pow10((-scale) as nat), 0, 0)
        } else {
            ((am * nine) / bm, scale + 9, 7)
        };
        let r = pow10(u as nat);
        lemma_pow10_grows(0, u as nat);
        assert(fits(n, u) && 0 <= n && (n * bm) * p == (am * q) * r) by {
            if scale >= 0 && am % bm == 0 {
                lemma_pow10_adds(t as nat, scale as nat);
                assert((am / bm) * bm == am) by (nonlinear_arith)
                    requires
                        bm > 0,
                        am % bm == 0,
                ;
                assert(0 <= am / bm <= am) by (nonlinear_arith)
                    requires
                        bm > 0,
                        am >= 0,
                ;
                assert((n * bm) * p == (am * q) * r) by (nonlinear_arith)
                    requires
                        n * bm == am,
                        p == q * r,
                ;
            } else if am % bm == 0 {
                let k = pow10((-scale) as nat);
                lemma_pow10_adds(s as nat, (-scale) as nat);
                lemma_pow10_grows(0, (-scale) as nat);
                assert((am / bm) * bm == am) by (nonlinear_arith)
                    requires
                        bm > 0,
                        am % bm == 0,
                ;
                let d = am / bm;
                assert(0 <= d) by (nonlinear_arith)
                    requires
                        bm > 0,
                        am >= 0,
                        d == am / bm,
                ;
                assert(0 <= d * k) by (nonlinear_arith)
                    requires
                        0 <= d,
                        k >= 1,
                ;
                assert(r == 1);
                assert(((d * k) * bm) * p == (am * q) * r) by (nonlinear_arith)
                    requires
                        d * bm == am,
                        q == p * k,
                        r == 1,
                ;
            } else {
                let w = am * nine;
                assert((w / bm) * bm == w) by (nonlinear_arith)
                    requires
                        bm > 0,
                        w % bm == 0,
                ;
                let d = am / bm;
                assert(am < (d + 1) * bm) by (nonlinear_arith)
                    requires
                        bm > 0,
                        d == am / bm,
                ;
                assert(n < (d + 1) * nine) by (nonlinear_arith)
                    requires
                        n * bm == am * nine,
                        am < (d + 1) * bm,
                        bm > 0,
                        nine > 0,
                ;
                assert(0 <= n) by (nonlinear_arith)
                    requires
                        n * bm == am * nine,
                        am >= 0,
                        bm > 0,
                        nine > 0,
                ;
                reveal_with_fuel(pow10, 10);
                assert(pow10(9) == nine);
                lemma_pow10_adds(s as nat, 9);
                lemma_pow10_adds(t as nat, u as nat);
                assert(t as nat + u as nat == s as nat + 9);
                assert((n * bm) * p == (am * q) * r) by (nonlinear_arith)
                    requires
                        n * bm == am * nine,
                        p * nine == q * r,
                ;
            }
        }
        lemma_trimmed(n, u, most, negative);
        assert(exact_quotient(a, b) == Some(trimmed(n, u, most, negative)));
        let (nr, br, ar, rr) = (n as real, bm as real, am as real, r as real);
        let left = (n * bm) * p;
        let right = (am * q) * r;
        assert(left as real == (nr * br) * pr && right as real == (ar * qr) * rr)
            by (nonlinear_arith)
            requires
                left == (n * bm) * p,
                right == (am * q) * r,
                nr == n as real,
                br == bm as real,
                pr == p as real,
                ar == am as real,
                qr == q as real,
                rr == r as real,
        ;
        let zr = if negative {
            -nr
        } else {
            nr
        };
        assert(zr * yr == if xr < 0 as real {
            -(nr * br)
        } else {
            nr * br
        }) by (nonlinear_arith)
            requires
                zr == nr && (yr == br && xr >= 0 as real || yr == -br && xr < 0 as real) || zr
                    == -nr && (yr == br && xr < 0 as real || yr == -br && xr >= 0 as real),
        ;
        assert((zr * yr) * pr == (xr * qr) * rr) by (nonlinear_arith)
            requires
                (nr * br) * pr == (ar * qr) * rr,
                xr < 0 as real && xr == -ar && zr * yr == -(nr * br) || xr >= 0 as real && xr == ar
                    && zr * yr == nr * br,
        ;
        assert((zr / rr) * (yr / qr) == xr / pr) by (nonlinear_arith)
            requires
                (zr * yr) * pr == (xr * qr) * rr,
                pr > 0 as real,
                qr > 0 as real,
                rr > 0 as real,
        {
            assert((zr / rr) * (yr / qr) == (zr * yr) / (rr * qr));
            assert((xr * qr) * rr / ((rr * qr) * pr) == xr / pr);
            assert((zr * yr) * pr / ((rr * qr) * pr) == (zr * yr) / (rr * qr));
        }
    }
}

/// A quotient is right to 28 digits, and has the sign of a quotient.
pub proof fn quotients_divide(a: Decimal, b: Decimal)
    requires
        quotient_of(a, b) is Some,
    ensures
        value(b) != 0 as real,
        is_quotient(a, b, quotient_of(a, b)->0),
        exact_quotient(a, b) is Some ==> value(quotient_of(a, b)->0) * value(b) == value(a),
{
    reveal(crate::decimal::quotient_of);
    let (x, y) = (value(a), value(b));
    let q = pow10(b.scale_of() as nat) as real;
    let m = b.mantissa_of() as real;
    lemma_pow10_grows(0, b.scale_of() as nat);
    assert(m / q != 0 as real) by (nonlinear_arith)
        requires
            m != 0 as real,
            q > 0 as real,
    ;
    if exact_quotient(a, b) is Some {
        lemma_exact_quotient(a, b);
        let z = value(exact_quotient(a, b)->0);
        let e = pow10(28) as real;
        assert(z * y - x == 0 as real);
        assert(abs_of(z * y - x) * e == 0 as real) by (nonlinear_arith)
            requires
                abs_of(z * y - x) == 0 as real,
        ;
        let w = abs_of(y);
        let v = max_of(1 as real, abs_of(z));
        assert(w * v >= 0 as real) by (nonlinear_arith)
            requires
                w >= 0 as real,
                v >= 1 as real,
        ;
        assert((x >= 0 as real && y > 0 as real ==> z >= 0 as real) && (x <= 0 as real && y
            > 0 as real ==> z <= 0 as real) && (x >= 0 as real && y < 0 as real ==> z <= 0 as real)
            && (x <= 0 as real && y < 0 as real ==> z >= 0 as real) && (0 as real <= x <= y && y > 0 as real ==> z
            <= 1 as real)) by (nonlinear_arith)
            requires
                z * y == x,
        ;
    }
}

/// How far a quotient near `p` can be from the exact one: a unit of the 28th digit.
pub open spec fn slack(p: real) -> real {
    max_of(1 as real, abs_of(p)) / (pow10(28) as real)
}

/// Comparing a ratio with a number compares its terms.
pub proof fn lemma_ratio_bounds(x: real, y: real, z: real, p: real)
    requires
        y > 0 as real,
        is_ratio(x, y, z),
    ensures
        p <= z ==> x >= y * (p - slack(p)),
        z <= p ==> x <= y * (p + slack(p)),
        x >= y * (p + slack(p)) ==> p <= z,
        x <= y * (p - slack(p)) ==> z <= p,
{
    reveal_with_fuel(pow10, 2);
    lemma_pow10_grows(0, 27);
    let e = pow10(28) as real;
    let m = max_of(1 as real, abs_of(p));
    let w = max_of(1 as real, abs_of(z));
    let gap = z * y - x;
    assert(abs_of(gap) * e <= y * w);
    // The gap is at most `y * w / e`.
    let t = w / e;
    let s = m / e;
    assert(-(y * t) <= gap <= y * t) by (nonlinear_arith)
        requires
            abs_of(gap) * e <= y * w,
            -abs_of(gap) <= gap <= abs_of(gap),
            e > 0 as real,
            t == w / e,
    {
        assert(y * t == (y * w) / e);
        assert((abs_of(gap) * e) / e <= (y * w) / e);
    }
    assert(z - t >= p - s || z < p) by (nonlinear_arith)
        requires
            t == w / e,
            s == m / e,
            e > 1 as real,
            m >= 1 as real,
            m >= p,
            m >= -p,
            w == 1 as real || w == z || w == -z,
            w >= 1 as real,
    {
        assert(t * e == w && s * e == m);
        if z >= p {
            if w == z && w >= m {
                assert((z - t) * e == z * (e - 1 as real));
                assert((p - s) * e <= m * (e - 1 as real));
                assert(z * (e - 1 as real) >= m * (e - 1 as real));
            } else {
                assert(w <= m);
                assert(t <= s);
            }
        }
    }
    assert(z + t <= p + s || z > p) by (nonlinear_arith)
        requires
            t == w / e,
            s == m / e,
            e > 1 as real,
            m >= 1 as real,
            m >= p,
            m >= -p,
            w == 1 as real || w == z || w == -z,
            w >= 1 as real,
    {
        assert(t * e == w && s * e == m);
        if z <= p {
            if w == -z && w >= m {
                assert((z + t) * e == z * (e - 1 as real));
                assert((p + s) * e >= -m * (e - 1 as real));
                assert(z * (e - 1 as real) <= -m * (e - 1 as real));
            } else {
                assert(w <= m);
                assert(t <= s);
            }
        }
    }
    if p <= z {
        assert(x >= y * (p - s)) by (nonlinear_arith)
            requires
                gap == z * y - x,
                gap <= y * t,
                z - t >= p - s,
                y > 0 as real,
        ;
    }
    if z <= p {
        assert(x <= y * (p + s)) by (nonlinear_arith)
            requires
                gap == z * y - x,
                -(y * t) <= gap,
                z + t <= p + s,
                y > 0 as real,
        ;
    }
    if z < p && x >= y * (p + s) {
        assert(z + t < p + s) by (nonlinear_arith)
            requires
                z < p,
                t == w / e,
                s == m / e,
                e > 1 as real,
                m >= 1 as real,
                m >= p,
                m >= -p,
                w == 1 as real || w == z || w == -z,
                w >= 1 as real,
        {
            assert(t * e == w && s * e == m);
            if w == -z && w > m {
                assert((z + t) * e == z * (e - 1 as real));
                assert((p + s) * e >= -m * (e - 1 as real));
                assert(z * (e - 1 as real) < -m * (e - 1 as real));
            } else {
                assert(w <= m);
                assert(t <= s);
            }
        }
        assert(false) by (nonlinear_arith)
            requires
                gap == z * y - x,
                -(y * t) <= gap,
                z + t < p + s,
                x >= y * (p + s),
                y > 0 as real,
        ;
    }
    if z > p && x <= y * (p - s) {
        assert(z - t > p - s) by (nonlinear_arith)
            requires
                z > p,
                t == w / e,
                s == m / e,
                e > 1 as real,
                m >= 1 as real,
                m >= p,
                m >= -p,
                w == 1 as real || w == z || w == -z,
                w >= 1 as real,
        {
            assert(t * e == w && s * e == m);
            if w == z && w > m {
                assert((z - t) * e == z * (e - 1 as real));
                assert((p - s) * e <= m * (e - 1 as real));
                assert(z * (e - 1 as real) > m * (e - 1 as real));
            } else {
                assert(w <= m);
                assert(t <= s);
            }
        }
        assert(false) by (nonlinear_arith)
            requires
                gap == z * y - x,
                gap <= y * t,
                z - t > p - s,
                x <= y * (p - s),
                y > 0 as real,
        ;
    }
}

/// Comparing a quotient with a number compares the dividend with that number of divisors, but
/// for a unit of the 28th digit; where the quotient is exact, without exception.
pub proof fn quotients_compare(a: Decimal, b: Decimal, limit: Decimal)
    requires
        quotient_of(a, b) is Some,
        value(b) > 0 as real,
    ensures
        ({
            let (x, y, z, p) = (value(a), value(b), value(quotient_of(a, b)->0), value(limit));
            &&& at_most(limit, quotient_of(a, b)->0) <==> p <= z
            &&& less(limit, quotient_of(a, b)->0) <==> p < z
            &&& less(quotient_of(a, b)->0, limit) <==> z < p
            &&& p <= z ==> x >= y * (p - slack(p))
            &&& z <= p ==> x <= y * (p + slack(p))
            &&& x >= y * (p + slack(p)) ==> p <= z
            &&& x <= y * (p - slack(p)) ==> z <= p
            &&& x <= 0 as real ==> z <= 0 as real
            &&& x >= 0 as real ==> z >= 0 as real
            &&& exact_quotient(a, b) is Some ==> (p <= z <==> x >= y * p) && (z <= p <==> x <= y
                * p)
        }),
{
    quotients_divide(a, b);
    let q = quotient_of(a, b)->0;
    comparing_compares_values(limit, q);
    comparing_compares_values(q, limit);
    let (x, y, z, p) = (value(a), value(b), value(q), value(limit));
    lemma_ratio_bounds(x, y, z, p);
    if exact_quotient(a, b) is Some {
        assert((p <= z <==> x >= y * p) && (z <= p <==> x <= y * p)) by (nonlinear_arith)
            requires
                z * y == x,
                y > 0 as real,
        ;
    }
}

/// The smaller and the larger of two decimals, and what negation does.
pub proof fn picking_picks_values(a: Decimal, b: Decimal)
    ensures
        value(smaller(a, b)) == min_of(value(a), value(b)),
        value(larger(a, b)) == max_of(value(a), value(b)),
{
    comparing_compares_values(a, b);
    comparing_compares_values(b, a);
}

/// Negating a decimal negates its number, and its magnitude is that of the number.
pub proof fn negating_negates(d: Decimal)
    requires
        is_decimal(d),
    ensures
        value(negated(d)) == -value(d),
        value(magnitude(d)) == abs_of(value(d)),
        is_decimal(negated(d)),
        is_decimal(magnitude(d)),
{
    lemma_dec_parts(-d.mantissa_of(), d.scale_of());
    lemma_dec_parts(abs_int(d.mantissa_of()), d.scale_of());
    lemma_pow10_grows(0, d.scale_of() as nat);
    let m = d.mantissa_of() as real;
    let q = pow10(d.scale_of() as nat) as real;
    assert((-m) / q == -(m / q) && (m < 0 as real <==> m / q < 0 as real)) by (nonlinear_arith)
        requires
            q > 0 as real,
    ;
}

/// The sign of a decimal is that of its number.
pub proof fn signs_agree(d: Decimal)
    ensures
        d.mantissa_of() == 0 <==> value(d) == 0 as real,
        d.mantissa_of() > 0 <==> value(d) > 0 as real,
        less(zero(), d) <==> value(d) > 0 as real,
        less(d, zero()) <==> value(d) < 0 as real,
        value(zero()) == 0 as real,
        value(one()) == 1 as real,
{
    value_of_parts(0, 0);
    value_of_parts(1, 0);
    comparing_compares_values(zero(), d);
    comparing_compares_values(d, zero());
    lemma_pow10_grows(0, d.scale_of() as nat);
    let m = d.mantissa_of() as real;
    let q = pow10(d.scale_of() as nat) as real;
    assert((m == 0 as real <==> m / q == 0 as real) && (m > 0 as real <==> m / q > 0 as real))
        by (nonlinear_arith)
        requires
            q > 0 as real,
    ;
}

/// A number of at most `10^whole` in magnitude, with at most `places` fractional digits.
pub open spec fn is_within(d: Decimal, whole: nat, places: nat) -> bool {
    &&& 0 <= d.scale_of() <= places
    &&& -pow10((whole + d.scale_of()) as nat) <= d.mantissa_of() <= pow10(
        (whole + d.scale_of()) as nat,
    )
}

/// An amount of at most a million in magnitude, with at most six places.
pub open spec fn is_amount(d: Decimal) -> bool {
    is_within(d, 6, 6)
}

/// Numbers of no more than 28 digits are decimals.
pub proof fn lemma_within_fits(d: Decimal, whole: nat, places: nat)
    requires
        is_within(d, whole, places),
        whole + places <= 28,
    ensures
        is_decimal(d),
{
    lemma_pow10_grows((whole + d.scale_of()) as nat, 28);
    lemma_pow10_in_range(28);
}

proof fn lemma_within_scaled(d: Decimal, whole: nat, top: nat)
    requires
        is_within(d, whole, top),
    ensures
        ({
            let m = d.mantissa_of() * pow10((top - d.scale_of()) as nat);
            -pow10(whole + top) <= m <= pow10(whole + top)
        }),
{
    let k = pow10((top - d.scale_of()) as nat);
    let w = pow10((whole + d.scale_of()) as nat);
    let m = d.mantissa_of();
    lemma_pow10_grows(0, (top - d.scale_of()) as nat);
    lemma_pow10_adds((whole + d.scale_of()) as nat, (top - d.scale_of()) as nat);
    assert(-(w * k) <= m * k <= w * k) by (nonlinear_arith)
        requires
            -w <= m <= w,
            k >= 1,
    ;
}

proof fn lemma_within_sum(a: Decimal, b: Decimal, sign: int, whole: nat, places: nat)
    requires
        is_within(a, whole, places),
        is_within(b, whole, places),
        whole + 1 + places <= 28,
        sign == 1 || sign == -1,
    ensures
        exact_sum(a, b, sign) is Some,
        is_within(exact_sum(a, b, sign)->0, whole + 1, places),
{
    lemma_within_fits(a, whole, places);
    lemma_within_fits(b, whole, places);
    let (s, t) = (a.scale_of(), b.scale_of());
    let top = (if s >= t {
        s
    } else {
        t
    }) as nat;
    lemma_within_scaled(a, whole, top);
    lemma_within_scaled(b, whole, top);
    lemma_pow10_grows(whole + top, 28);
    lemma_pow10_grows((whole + 1 + top) as nat, 28);
    lemma_pow10_grows((whole + s) as nat, (whole + 1 + s) as nat);
    lemma_pow10_grows((whole + t) as nat, (whole + 1 + t) as nat);
    lemma_pow10_in_range(28);
    assert(pow10((whole + 1 + top) as nat) == 10 * pow10((whole + top) as nat)) by {
        assert((whole + 1 + top - 1) as nat == (whole + top) as nat);
    }
    let am = a.mantissa_of() * pow10((top - s) as nat);
    let bm = b.mantissa_of() * pow10((top - t) as nat);
    if a.mantissa_of() == 0 {
        lemma_dec_parts(sign * b.mantissa_of(), t);
    } else if b.mantissa_of() != 0 {
        lemma_dec_parts(am + sign * bm, top as int);
    }
}

/// Sums and differences of numbers with room for a digit more are exact.
pub proof fn small_sums_are_exact(a: Decimal, b: Decimal, whole: nat, places: nat)
    requires
        is_within(a, whole, places),
        is_within(b, whole, places),
        whole + 1 + places <= 28,
    ensures
        sum_is_exact(a, b),
        difference_is_exact(a, b),
        sum_of(a, b) is Some && value(sum_of(a, b)->0) == value(a) + value(b),
        difference_of(a, b) is Some && value(difference_of(a, b)->0) == value(a) - value(b),
        is_within(sum_of(a, b)->0, whole + 1, places),
        is_within(difference_of(a, b)->0, whole + 1, places),
{
    lemma_within_fits(a, whole, places);
    lemma_within_fits(b, whole, places);
    lemma_within_sum(a, b, 1, whole, places);
    lemma_within_sum(a, b, -1, whole, places);
    sums_add_up(a, b);
    differences_add_up(a, b);
    reveal(crate::decimal::sum_of);
    reveal(crate::decimal::difference_of);
}

/// Products of numbers with at most 28 digits together are exact.
pub proof fn small_products_are_exact(
    a: Decimal,
    b: Decimal,
    whole: nat,
    places: nat,
    whole2: nat,
    places2: nat,
)
    requires
        is_within(a, whole, places),
        is_within(b, whole2, places2),
        whole + places + whole2 + places2 <= 28,
    ensures
        product_is_exact(a, b),
        product_of(a, b) is Some && value(product_of(a, b)->0) == value(a) * value(b),
        is_within(product_of(a, b)->0, whole + whole2, places + places2),
{
    let (x, y) = (a.mantissa_of(), b.mantissa_of());
    let (s, t) = (a.scale_of(), b.scale_of());
    let v = pow10((whole + s) as nat);
    let w = pow10((whole2 + t) as nat);
    lemma_pow10_grows(0, (whole + s) as nat);
    lemma_pow10_grows(0, (whole2 + t) as nat);
    lemma_pow10_adds((whole + s) as nat, (whole2 + t) as nat);
    lemma_pow10_grows((whole + s + whole2 + t) as nat, 28);
    assert(-(v * w) <= x * y <= v * w) by (nonlinear_arith)
        requires
            -v <= x <= v,
            -w <= y <= w,
    ;
    lemma_pow10_in_range(28);
    assert((whole + s) as nat + (whole2 + t) as nat == (whole + whole2 + (s + t)) as nat);
    assert(fits(x * y, s + t));
    products_multiply(a, b);
    reveal(crate::decimal::product_of);
    if x * y == 0 {
        lemma_dec_parts(0, 0);
        lemma_pow10_grows(0, whole + whole2);
    } else {
        lemma_dec_parts(x * y, s + t);
    }
}

/// A number of few digits has room for more.
pub proof fn lemma_within_more(d: Decimal, whole: nat, places: nat, whole2: nat, places2: nat)
    requires
        is_within(d, whole, places),
        whole <= whole2,
        places <= places2,
    ensures
        is_within(d, whole2, places2),
{
    lemma_pow10_grows((whole + d.scale_of()) as nat, (whole2 + d.scale_of()) as nat);
}

/// One, and the negation of a number, have as many digits.
pub proof fn lemma_within_basics(d: Decimal, whole: nat, places: nat)
    requires
        is_within(d, whole, places),
        whole + places <= 28,
    ensures
        is_within(one(), 0, 0),
        is_within(zero(), 0, 0),
        is_within(negated(d), whole, places),
        value(negated(d)) == -value(d),
{
    lemma_within_fits(d, whole, places);
    negating_negates(d);
    lemma_dec_parts(-d.mantissa_of(), d.scale_of());
    lemma_dec_parts(1, 0);
    lemma_dec_parts(0, 0);
    assert(pow10(0) == 1);
}

/// A quotient is a decimal.
pub proof fn lemma_quotient_is_decimal(a: Decimal, b: Decimal)
    requires
        quotient_of(a, b) is Some,
    ensures
        is_decimal(quotient_of(a, b)->0),
{
    reveal(crate::decimal::quotient_of);
    if exact_quotient(a, b) is Some {
        lemma_exact_quotient(a, b);
    }
}

/// A number no larger than another, with its slack, is no larger than the other with twice its
/// slack.
pub proof fn lemma_slack_grows(a: real, b: real)
    requires
        a <= b,
        b >= 0 as real,
    ensures
        a + slack(a) <= b + (2 as real) * slack(b),
        slack(b) >= 0 as real,
{
    let e = pow10(28) as real;
    reveal_with_fuel(pow10, 2);
    lemma_pow10_grows(0, 27);
    let w = max_of(1 as real, abs_of(a));
    let v = max_of(1 as real, abs_of(b));
    let (s, t) = (slack(a), slack(b));
    assert(s * e == w && t * e == v) by (nonlinear_arith)
        requires
            s == w / e,
            t == v / e,
            e > 0 as real,
    ;
    assert(t >= 0 as real && a + s <= b + (2 as real) * t) by (nonlinear_arith)
        requires
            s * e == w,
            t * e == v,
            e >= 10 as real,
            v >= 1 as real,
            a <= b,
            w <= v || w == -a && a < 0 as real && b >= 0 as real,
    {
        if w > v {
            assert((a + s) * e == a * e - a);
            assert(a * (e - 1 as real) <= 0 as real);
        }
    }
}

/// Slack is positive.
pub proof fn lemma_slack_is_positive(a: real)
    ensures
        slack(a) > 0 as real,
{
    let e = pow10(28) as real;
    lemma_pow10_grows(0, 28);
    let w = max_of(1 as real, abs_of(a));
    assert(w / e > 0 as real) by (nonlinear_arith)
        requires
            w >= 1 as real,
            e > 0 as real,
    ;
}

/// Cutting a number that is not negative to some places takes off less than a unit of the last
/// place, and leaves no more places.
pub proof fn cutting_takes_less_than_a_unit(d: Decimal, places: nat)
    requires
        is_decimal(d),
        value(d) >= 0 as real,
    ensures
        is_decimal(truncated(d, places)),
        value(truncated(d, places)) >= 0 as real,
        value(truncated(d, places)) <= value(d),
        (value(d) - value(truncated(d, places))) * (pow10(places) as real) < 1 as real,
        truncated(d, places).scale_of() <= places,
{
    let (m, s) = (d.mantissa_of(), d.scale_of());
    signs_agree(d);
    lemma_pow10_grows(0, places);
    lemma_pow10_grows(0, s as nat);
    if s <= places {
        assert((0 as real) * (pow10(places) as real) == 0 as real) by (nonlinear_arith);
    } else {
        let u = pow10((s - places) as nat);
        lemma_pow10_grows(0, (s - places) as nat);
        lemma_pow10_adds(places, (s - places) as nat);
        let q = m / u;
        assert(q * u <= m < (q + 1) * u && 0 <= q <= m) by (nonlinear_arith)
            requires
                u >= 1,
                m >= 0,
                q == m / u,
        ;
        lemma_dec_parts(q, places as int);
        lemma_rescaled(q, places, (s - places) as nat);
        let p = pow10(places) as real;
        let t = pow10(s as nat) as real;
        let (mr, kr, ur) = (m as real, (q * u) as real, u as real);
        assert(t == p * ur) by (nonlinear_arith)
            requires
                pow10(s as nat) == pow10(places) * u,
                p == pow10(places) as real,
                t == pow10(s as nat) as real,
                ur == u as real,
        ;
        assert((q + 1) * u == q * u + u) by (nonlinear_arith);
        assert(kr <= mr && mr < kr + ur);
        assert(kr / t <= mr / t && (mr / t - kr / t) * p < 1 as real && kr / t >= 0 as real)
            by (nonlinear_arith)
            requires
                kr <= mr,
                mr < kr + ur,
                kr >= 0 as real,
                t == p * ur,
                p > 0 as real,
                ur > 0 as real,
        {
            assert((mr / t - kr / t) * p == ((mr - kr) * p) / t);
            assert((mr - kr) * p < ur * p);
        }
    }
}

/// Rounding moves a number by at most half a unit of its last place, and a number that lies in the
/// middle of two goes to the even one.
pub proof fn rounding_goes_to_the_nearest(d: Decimal, places: nat)
    requires
        is_decimal(d),
    ensures
        ({
            let r = rounded(d, places);
            let off = abs_of(value(d) - value(r)) * (pow10(places) as real);
            &&& is_decimal(r)
            &&& r.scale_of() <= places
            &&& off * (2 as real) <= 1 as real
            &&& off * (2 as real) == 1 as real ==> r.mantissa_of() % 2 == 0
        }),
{
    let (m, s) = (d.mantissa_of(), d.scale_of());
    lemma_pow10_grows(0, places);
    lemma_pow10_grows(0, s as nat);
    if s <= places {
        assert((0 as real) * (pow10(places) as real) == 0 as real) by (nonlinear_arith);
    } else {
        let u = pow10((s - places) as nat);
        lemma_pow10_grows(1, (s - places) as nat);
        assert(pow10(1) == 10) by {
            reveal_with_fuel(pow10, 2);
        }
        lemma_pow10_adds(places, (s - places) as nat);
        let a = abs_int(m);
        let q = a / u;
        let rest = a % u;
        assert(a == q * u + rest && 0 <= rest < u && 0 <= q && q * 10 <= a) by (nonlinear_arith)
            requires
                u >= 10,
                a >= 0,
                q == a / u,
                rest == a % u,
        ;
        let up = rest * 2 > u || (rest * 2 == u && q % 2 == 1);
        let k = if up {
            q + 1
        } else {
            q
        };
        let n = if m < 0 {
            -k
        } else {
            k
        };
        assert(k <= a || k == 1);
        lemma_dec_parts(n, places as int);
        lemma_rescaled(n, places, (s - places) as nat);
        let p = pow10(places) as real;
        let t = pow10(s as nat) as real;
        let (mr, nr, ur) = (m as real, (n * u) as real, u as real);
        assert(t == p * ur) by (nonlinear_arith)
            requires
                pow10(s as nat) == pow10(places) * u,
                p == pow10(places) as real,
                t == pow10(s as nat) as real,
                ur == u as real,
        ;
        assert(n * u == if m < 0 {
            -(k * u)
        } else {
            k * u
        }) by (nonlinear_arith)
            requires
                n == if m < 0 {
                    -k
                } else {
                    k
                },
        ;
        assert((q + 1) * u == q * u + u) by (nonlinear_arith);
        let gap = if up {
            u - rest
        } else {
            rest
        };
        assert(gap * 2 <= u);
        assert(abs_of(mr - nr) == gap as real);
        let g = gap as real;
        let off = abs_of(mr / t - nr / t) * p;
        assert(off * ur == g) by (nonlinear_arith)
            requires
                off == abs_of(mr / t - nr / t) * p,
                abs_of(mr - nr) == g,
                t == p * ur,
                p > 0 as real,
                ur > 0 as real,
        {
            assert(mr / t - nr / t == (mr - nr) / t);
            assert(abs_of((mr - nr) / t) == abs_of(mr - nr) / t);
            assert((g / t) * p * ur == g);
        }
        assert(off * (2 as real) <= 1 as real) by (nonlinear_arith)
            requires
                off * ur == g,
                g * (2 as real) <= ur,
                ur > 0 as real,
        ;
        if off * (2 as real) == 1 as real {
            assert(g * (2 as real) == ur) by (nonlinear_arith)
                requires
                    off * ur == g,
                    off * (2 as real) == 1 as real,
            ;
            assert(gap * 2 == u);
        }
    }
}

} // verus!
