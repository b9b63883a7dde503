//! Decimal numbers: an integer mantissa and a decimal scale, with the arithmetic
//! of `rust_decimal`.
use crate::text::nat_text;
use crate::value::is_quotient;
use vstd::prelude::*;

verus! {

/// The largest mantissa magnitude: `2^96 - 1`.
pub const MAX_MANTISSA: i128 = 79_228_162_514_264_337_593_543_950_335;

/// The largest number of fractional digits.
pub const MAX_SCALE: u32 = 28;

/// The number `mantissa * 10^-scale`.
#[derive(Clone, Copy, Debug)]
pub struct Decimal {
    mantissa: i128,
    scale: u32,
}

/// `10^n`.
pub open spec fn pow10(n: nat) -> int
    decreases n,
{
    if n == 0 {
        1
    } else {
        10 * pow10((n - 1) as nat)
    }
}

/// Whether a mantissa and a scale make a decimal.
pub open spec fn fits(mantissa: int, scale: int) -> bool {
    &&& -MAX_MANTISSA <= mantissa <= MAX_MANTISSA
    &&& 0 <= scale <= MAX_SCALE
}

/// The parts of a decimal are in range.
pub open spec fn is_decimal(d: Decimal) -> bool {
    fits(d.mantissa_of(), d.scale_of())
}

/// The decimal of a mantissa and a scale that fit.
pub closed spec fn dec(mantissa: int, scale: int) -> Decimal {
    Decimal { mantissa: mantissa as i128, scale: scale as u32 }
}

/// What `a + b` (`sign` 1) or `a - b` (`sign` -1) is when both operands, brought to
/// the larger of the two scales, and the result are within the mantissa range.
pub open spec fn exact_sum(a: Decimal, b: Decimal, sign: int) -> Option<Decimal> {
    let scale = if a.scale_of() >= b.scale_of() {
        a.scale_of()
    } else {
        b.scale_of()
    };
    let am = a.mantissa_of() * pow10((scale - a.scale_of()) as nat);
    let bm = b.mantissa_of() * pow10((scale - b.scale_of()) as nat);
    if a.mantissa_of() == 0 {
        Some(dec(sign * b.mantissa_of(), b.scale_of()))
    } else if b.mantissa_of() == 0 {
        Some(a)
    } else if fits(am, scale) && fits(bm, scale) && fits(am + sign * bm, scale) {
        Some(dec(am + sign * bm, scale))
    } else {
        None
    }
}

/// What `a * b` is when the exact product is within the mantissa and scale ranges.
pub open spec fn exact_product(a: Decimal, b: Decimal) -> Option<Decimal> {
    let m = a.mantissa_of() * b.mantissa_of();
    let s = a.scale_of() + b.scale_of();
    if m == 0 {
        Some(dec(0, 0))
    } else if fits(m, s) {
        Some(dec(m, s))
    } else {
        None
    }
}

/// `2^32`.
pub const WORD: u64 = 4_294_967_296;

/// The decimal `n * 10^-scale` without its trailing zeros, at most `most` of them.
pub open spec fn trimmed(n: int, scale: int, most: nat, negative: bool) -> Decimal
    decreases most,
{
    if most > 0 && scale > 0 && n % 10 == 0 {
        trimmed(n / 10, scale - 1, (most - 1) as nat, negative)
    } else if negative {
        dec(-n, scale)
    } else {
        dec(n, scale)
    }
}

/// What `a / b` is where the quotient ends soon: `a` is zero, or the mantissa of `b` divides
/// that of `a`, or, for a mantissa of `b` below `2^32`, it does with nine more places. In the
/// last case the quotient loses up to seven trailing zeros.
pub open spec fn exact_quotient(a: Decimal, b: Decimal) -> Option<Decimal> {
    let am = abs_int(a.mantissa_of());
    let bm = abs_int(b.mantissa_of());
    let scale = a.scale_of() - b.scale_of();
    let negative = (a.mantissa_of() < 0) != (b.mantissa_of() < 0);
    if bm == 0 {
        None
    } else if am == 0 {
        Some(dec(0, 0))
    } else if scale >= 0 && am % bm == 0 {
        Some(trimmed(am / bm, scale, 0, negative))
    } else if bm >= WORD {
        None
    } else if am % bm == 0 {
        let q = (am / bm) * pow10((-scale) as nat);
        if fits(q, 0) {
            Some(trimmed(q, 0, 0, negative))
        } else {
            None
        }
    } else {
        let n = (am * 1_000_000_000) / bm;
        if -9 <= scale <= 19 && am / bm <= u64::MAX && (am * 1_000_000_000) % bm == 0 && n % (
        WORD as int) != 0 {
            Some(trimmed(n, scale + 9, 7, negative))
        } else {
            None
        }
    }
}

/// Magnitude of an integer.
pub open spec fn abs_int(n: int) -> int {
    if n < 0 {
        -n
    } else {
        n
    }
}

/// `d` cut to `places` fractional digits, the rest dropped.
pub open spec fn truncated(d: Decimal, places: nat) -> Decimal {
    if d.scale_of() <= places {
        d
    } else {
        let q = abs_int(d.mantissa_of()) / pow10((d.scale_of() - places) as nat);
        dec(
            if d.mantissa_of() < 0 {
                -q
            } else {
                q
            },
            places as int,
        )
    }
}

/// `d` rounded to `places` fractional digits, a tie going to the even neighbour.
pub open spec fn rounded(d: Decimal, places: nat) -> Decimal {
    if d.scale_of() <= places {
        d
    } else {
        let unit = pow10((d.scale_of() - places) as nat);
        let q = abs_int(d.mantissa_of()) / unit;
        let rest = abs_int(d.mantissa_of()) % unit;
        let up = rest * 2 > unit || (rest * 2 == unit && q % 2 == 1);
        let m = if up {
            q + 1
        } else {
            q
        };
        dec(
            if d.mantissa_of() < 0 {
                -m
            } else {
                m
            },
            places as int,
        )
    }
}

/// What `rust_decimal` gives for `a + b`; `None` on overflow.
pub uninterp spec fn decimal_sum(a: Decimal, b: Decimal) -> Option<Decimal>;

/// What `rust_decimal` gives for `a - b`; `None` on overflow.
pub uninterp spec fn decimal_difference(a: Decimal, b: Decimal) -> Option<Decimal>;

/// What `rust_decimal` gives for `a * b`; `None` on overflow.
pub uninterp spec fn decimal_product(a: Decimal, b: Decimal) -> Option<Decimal>;

/// What `rust_decimal` gives for `a / b`; `None` on overflow or a zero divisor.
pub uninterp spec fn decimal_quotient(a: Decimal, b: Decimal) -> Option<Decimal>;

/// The decimal that `rust_decimal` reads from a text; `None` where it refuses the text.
pub uninterp spec fn decimal_value(s: Seq<char>) -> Option<Decimal>;

/// The last `places` digits of a number.
pub open spec fn last_digits(n: nat, places: nat) -> Seq<char>
    decreases places,
{
    if places == 0 {
        Seq::empty()
    } else {
        last_digits(n / 10, (places - 1) as nat).push(('0' as int + n % 10) as u8 as char)
    }
}

/// A number in units of `10^-places`: whole digits, and the fraction after a point.
pub open spec fn unit_text(n: nat, places: nat) -> Seq<char> {
    let whole = nat_text(n / pow10(places) as nat);
    if places == 0 {
        whole
    } else {
        whole + seq!['.'] + last_digits(n, places)
    }
}

/// A decimal with `places` fractional digits; digits beyond those are cut off.
pub open spec fn decimal_fixed_text(d: Decimal, places: nat) -> Seq<char> {
    let m = abs_int(d.mantissa_of());
    let units = if d.scale_of() <= places {
        m * pow10((places - d.scale_of()) as nat)
    } else {
        m / pow10((d.scale_of() - places) as nat)
    };
    if d.mantissa_of() < 0 {
        seq!['-'] + unit_text(units as nat, places)
    } else {
        unit_text(units as nat, places)
    }
}

/// A decimal with all of its fractional digits.
pub open spec fn decimal_text(d: Decimal) -> Seq<char> {
    decimal_fixed_text(d, d.scale_of() as nat)
}

/// The text of a decimal with `places` fractional digits has at most 32 characters without
/// its sign.
pub open spec fn fixed_fits(d: Decimal, places: nat) -> bool {
    &&& places <= MAX_SCALE
    &&& abs_int(d.mantissa_of()) < pow10((d.scale_of() + 31 - places) as nat)
}

/// A decimal with `places` fractional digits; `None` where the text is too long.
pub open spec fn fixed_text_of(d: Decimal, places: nat) -> Option<Seq<char>> {
    if fixed_fits(d, places) {
        Some(decimal_fixed_text(d, places))
    } else {
        None
    }
}

/// `a + b`: the exact sum wherever its parts are in range, else what `rust_decimal` gives.
#[verifier::opaque]
pub open spec fn sum_of(a: Decimal, b: Decimal) -> Option<Decimal> {
    match exact_sum(a, b, 1) {
        Some(d) => Some(d),
        None => decimal_sum(a, b),
    }
}

/// `a - b`: the exact difference wherever its parts are in range, else what `rust_decimal`
/// gives.
#[verifier::opaque]
pub open spec fn difference_of(a: Decimal, b: Decimal) -> Option<Decimal> {
    match exact_sum(a, b, -1) {
        Some(d) => Some(d),
        None => decimal_difference(a, b),
    }
}

/// `a * b`: the exact product wherever it is in range, else what `rust_decimal` gives, which
/// has the sign of a product and is no larger than a factor where the other is at most 1.
#[verifier::opaque]
pub open spec fn product_of(a: Decimal, b: Decimal) -> Option<Decimal> {
    match exact_product(a, b) {
        Some(d) => Some(d),
        None => match decimal_product(a, b) {
            Some(d) => if is_decimal(d) && is_like_a_product(a, b, d) {
                Some(d)
            } else {
                None
            },
            None => None,
        },
    }
}

/// `a / b`: the exact quotient where it ends soon, else what `rust_decimal` gives, which is
/// right to 28 digits; nothing for a zero divisor.
#[verifier::opaque]
pub open spec fn quotient_of(a: Decimal, b: Decimal) -> Option<Decimal> {
    if b.mantissa_of() == 0 || !is_decimal(a) || !is_decimal(b) {
        None
    } else {
        match exact_quotient(a, b) {
            Some(d) => Some(d),
            None => match decimal_quotient(a, b) {
                Some(d) => if is_decimal(d) && is_quotient(a, b, d) {
                    Some(d)
                } else {
                    None
                },
                None => None,
            },
        }
    }
}

/// `a + b` where both are defined.
pub open spec fn plus(a: Option<Decimal>, b: Option<Decimal>) -> Option<Decimal> {
    match (a, b) {
        (Some(x), Some(y)) => sum_of(x, y),
        _ => None,
    }
}

/// `a - b` where both are defined.
pub open spec fn minus(a: Option<Decimal>, b: Option<Decimal>) -> Option<Decimal> {
    match (a, b) {
        (Some(x), Some(y)) => difference_of(x, y),
        _ => None,
    }
}

/// `a * b` where both are defined.
pub open spec fn times(a: Option<Decimal>, b: Option<Decimal>) -> Option<Decimal> {
    match (a, b) {
        (Some(x), Some(y)) => product_of(x, y),
        _ => None,
    }
}

/// `a / b` where both are defined and `b` is not zero.
pub open spec fn over(a: Option<Decimal>, b: Option<Decimal>) -> Option<Decimal> {
    match (a, b) {
        (Some(x), Some(y)) => quotient_of(x, y),
        _ => None,
    }
}

/// `a < b` as numbers.
pub open spec fn less(a: Decimal, b: Decimal) -> bool {
    a.mantissa_of() * pow10(b.scale_of() as nat) < b.mantissa_of() * pow10(a.scale_of() as nat)
}

/// `a <= b` as numbers.
pub open spec fn at_most(a: Decimal, b: Decimal) -> bool {
    !less(b, a)
}

/// `a` and `b` are the same number.
pub open spec fn same(a: Decimal, b: Decimal) -> bool {
    !less(a, b) && !less(b, a)
}

/// The larger of two decimals; the first when they are the same number.
pub open spec fn larger(a: Decimal, b: Decimal) -> Decimal {
    if less(a, b) {
        b
    } else {
        a
    }
}

/// The smaller of two decimals; the first when they are the same number.
pub open spec fn smaller(a: Decimal, b: Decimal) -> Decimal {
    if less(b, a) {
        b
    } else {
        a
    }
}

/// `-d`.
pub open spec fn negated(d: Decimal) -> Decimal {
    dec(-d.mantissa_of(), d.scale_of())
}

/// The magnitude of `d`.
pub open spec fn magnitude(d: Decimal) -> Decimal {
    dec(abs_int(d.mantissa_of()), d.scale_of())
}

/// An arithmetic result is outside the range of its type, or a divisor is zero.
#[derive(Clone, Copy, Debug, PartialEq, Eq, Structural)]
pub struct Overflow;

/// The value of a computation that stayed in range.
pub open spec fn ok_of<T>(r: Result<T, Overflow>) -> Option<T> {
    match r {
        Ok(v) => Some(v),
        Err(_) => None,
    }
}

/// Zero.
pub open spec fn zero() -> Decimal {
    dec(0, 0)
}

/// One.
pub open spec fn one() -> Decimal {
    dec(1, 0)
}

/// A number of at least 0 and at most 1.
pub open spec fn is_between_zero_and_one(d: Decimal) -> bool {
    at_most(zero(), d) && at_most(d, one())
}

/// What holds of a rounded product: its sign, and, for factors between -1 and 1, its size.
pub open spec fn is_like_a_product(a: Decimal, b: Decimal, p: Decimal) -> bool {
    let (x, y, z) = (a.mantissa_of(), b.mantissa_of(), p.mantissa_of());
    &&& x >= 0 && y >= 0 ==> z >= 0 && (at_most(a, one()) && at_most(b, one()) ==> at_most(p, b))
    &&& x <= 0 && y >= 0 ==> z <= 0 && (at_most(dec(-1, 0), a) && at_most(b, one()) ==> at_most(
        negated(b),
        p,
    ))
}

/// Powers of ten up to the largest scale are within the mantissa range.
pub proof fn lemma_pow10_in_range(n: nat)
    requires
        n <= MAX_SCALE,
    ensures
        1 <= pow10(n) <= pow10(28),
        7 * pow10(28) <= MAX_MANTISSA,
    decreases MAX_SCALE - n,
{
    reveal_with_fuel(pow10, 30);
    if n < MAX_SCALE {
        lemma_pow10_in_range(n + 1);
        assert(pow10(n + 1) == 10 * pow10(n));
    }
}

/// A larger exponent gives a larger power.
pub proof fn lemma_pow10_grows(a: nat, b: nat)
    requires
        a <= b,
    ensures
        1 <= pow10(a) <= pow10(b),
    decreases b,
{
    if b > 0 {
        lemma_pow10_grows(if a < b {
            a
        } else {
            (b - 1) as nat
        }, (b - 1) as nat);
    }
}

/// Exponents add up.
pub proof fn lemma_pow10_adds(a: nat, b: nat)
    ensures
        pow10(a + b) == pow10(a) * pow10(b),
    decreases a,
{
    if a > 0 {
        lemma_pow10_adds((a - 1) as nat, b);
        assert(pow10(a + b) == 10 * pow10((a + b - 1) as nat));
        assert(10 * (pow10((a - 1) as nat) * pow10(b)) == (10 * pow10((a - 1) as nat)) * pow10(b))
            by (nonlinear_arith);
    }
}

/// A decimal is made of its parts.
pub proof fn lemma_dec_whole(d: Decimal)
    ensures
        d == dec(d.mantissa_of(), d.scale_of()),
{
}

/// A scale is a natural number.
pub proof fn lemma_scale_is_natural(d: Decimal)
    ensures
        0 <= d.scale_of(),
{
}

/// A product with zero is zero.
pub proof fn lemma_zero_product(a: Decimal, b: Decimal)
    requires
        a.mantissa_of() == 0 || b.mantissa_of() == 0,
    ensures
        product_of(a, b) == Some(zero()),
{
    reveal(product_of);
    assert(a.mantissa_of() * b.mantissa_of() == 0) by (nonlinear_arith)
        requires
            a.mantissa_of() == 0 || b.mantissa_of() == 0,
    ;
}

/// A decimal is the whole number `n` exactly where its mantissa is `n` in its units.
pub proof fn lemma_is_whole_number(d: Decimal, n: int)
    requires
        fits(n, 0),
    ensures
        same(d, dec(n, 0)) <==> d.mantissa_of() == n * pow10(d.scale_of() as nat),
        at_most(d, dec(n, 0)) <==> d.mantissa_of() <= n * pow10(d.scale_of() as nat),
        at_most(dec(n, 0), d) <==> n * pow10(d.scale_of() as nat) <= d.mantissa_of(),
{
    let m = d.mantissa_of();
    let one_unit = pow10(dec(n, 0).scale_of() as nat);
    assert(one_unit == 1);
    assert(m * one_unit == m) by (nonlinear_arith)
        requires
            one_unit == 1,
    ;
}

/// Brought to a larger scale, a number between 0 and 1 stays within the units of that scale.
proof fn lemma_rescaled_share(d: Decimal, scale: int)
    requires
        is_between_zero_and_one(d),
        0 <= d.scale_of() <= scale <= MAX_SCALE,
    ensures
        0 <= d.mantissa_of() * pow10((scale - d.scale_of()) as nat) <= pow10(scale as nat),
{
    let own = pow10(d.scale_of() as nat);
    let rest = pow10((scale - d.scale_of()) as nat);
    lemma_is_whole_number(d, 0);
    lemma_is_whole_number(d, 1);
    lemma_pow10_grows(0, (scale - d.scale_of()) as nat);
    lemma_pow10_adds(d.scale_of() as nat, (scale - d.scale_of()) as nat);
    assert(0 * own == 0 && 1 * own == own);
    assert(0 <= d.mantissa_of() * rest <= own * rest) by (nonlinear_arith)
        requires
            0 <= d.mantissa_of() <= own,
            rest >= 1,
    ;
}

/// The difference of two numbers between 0 and 1 is exact, and between -1 and 1.
proof fn lemma_difference_within_one(a: Decimal, b: Decimal)
    requires
        is_between_zero_and_one(a),
        is_between_zero_and_one(b),
        fits(a.mantissa_of(), a.scale_of()),
        fits(b.mantissa_of(), b.scale_of()),
    ensures
        ({
            let d = exact_sum(a, b, -1);
            d is Some && at_most(dec(-1, 0), d->0) && at_most(d->0, one())
        }),
{
    let scale = if a.scale_of() >= b.scale_of() {
        a.scale_of()
    } else {
        b.scale_of()
    };
    let am = a.mantissa_of() * pow10((scale - a.scale_of()) as nat);
    let bm = b.mantissa_of() * pow10((scale - b.scale_of()) as nat);
    lemma_rescaled_share(a, scale);
    lemma_rescaled_share(b, scale);
    lemma_is_whole_number(a, 0);
    lemma_is_whole_number(b, 0);
    lemma_is_whole_number(b, 1);
    lemma_pow10_in_range(scale as nat);
    lemma_pow10_in_range(b.scale_of() as nat);
    let d = exact_sum(a, b, -1)->0;
    let pa = pow10(a.scale_of() as nat);
    let pb = pow10(b.scale_of() as nat);
    let pd = pow10(d.scale_of() as nat);
    assert(0 * pa == 0 && 1 * pa == pa && 0 * pb == 0 && 1 * pb == pb)
        by (nonlinear_arith);
    assert(-1 * pd == -pd && 1 * pd == pd && -1 * bm == -bm) by (nonlinear_arith);
    lemma_is_whole_number(d, -1);
    lemma_is_whole_number(d, 1);
    if a.mantissa_of() == 0 {
        lemma_dec_parts(-b.mantissa_of(), b.scale_of());
    } else if b.mantissa_of() == 0 {
        lemma_is_whole_number(a, 1);
    } else {
        lemma_dec_parts(am - bm, scale);
    }
}

/// Every decimal fits with up to two fractional digits.
proof fn lemma_short_texts_fit(scale: nat, places: nat)
    requires
        places <= 2,
    ensures
        MAX_MANTISSA < pow10((scale + 31 - places) as nat),
{
    reveal_with_fuel(pow10, 30);
    assert(pow10(29) == 10 * pow10(28));
    lemma_pow10_grows(29, (scale + 31 - places) as nat);
}

/// `a <= b` and `b <= c` give `a <= c`; strictly where one of the two is strict.
pub proof fn at_most_is_transitive(a: Decimal, b: Decimal, c: Decimal)
    requires
        at_most(a, b),
        at_most(b, c),
    ensures
        at_most(a, c),
        less(a, b) || less(b, c) ==> less(a, c),
{
    let (pa, pb, pc) = (
        pow10(a.scale_of() as nat),
        pow10(b.scale_of() as nat),
        pow10(c.scale_of() as nat),
    );
    lemma_pow10_grows(0, a.scale_of() as nat);
    lemma_pow10_grows(0, b.scale_of() as nat);
    lemma_pow10_grows(0, c.scale_of() as nat);
    let (x, y, z) = (a.mantissa_of(), b.mantissa_of(), c.mantissa_of());
    assert((x * pc) * pb <= (z * pa) * pb && ((x * pb < y * pa || y * pc < z * pb) ==> (x * pc) * pb
        < (z * pa) * pb)) by (nonlinear_arith)
        requires
            x * pb <= y * pa,
            y * pc <= z * pb,
            pa > 0,
            pb > 0,
            pc > 0,
    {
        assert((x * pb) * pc <= (y * pa) * pc);
        assert((y * pc) * pa <= (z * pb) * pa);
        assert((x * pc) * pb == (x * pb) * pc);
        assert((z * pa) * pb == (z * pb) * pa);
        assert((y * pa) * pc == (y * pc) * pa);
        if x * pb < y * pa {
            assert((x * pb) * pc < (y * pa) * pc);
        }
        if y * pc < z * pb {
            assert((y * pc) * pa < (z * pb) * pa);
        }
    }
    assert(x * pc <= z * pa && ((x * pb < y * pa || y * pc < z * pb) ==> x * pc < z * pa))
        by (nonlinear_arith)
        requires
            (x * pc) * pb <= (z * pa) * pb,
            (x * pb < y * pa || y * pc < z * pb) ==> (x * pc) * pb < (z * pa) * pb,
            pb > 0,
    ;
}

/// The parts of the decimal made of a mantissa and a scale that fit are those two.
pub proof fn lemma_dec_parts(mantissa: int, scale: int)
    requires
        fits(mantissa, scale),
    ensures
        dec(mantissa, scale).mantissa_of() == mantissa,
        dec(mantissa, scale).scale_of() == scale,
{
}

impl Decimal {
    /// The integer whose `scale` last digits are fractional.
    pub closed spec fn mantissa_of(self) -> int {
        self.mantissa as int
    }

    /// The number of fractional digits.
    pub closed spec fn scale_of(self) -> int {
        self.scale as int
    }

    #[verifier::type_invariant]
    spec fn in_range(self) -> bool {
        fits(self.mantissa as int, self.scale as int)
    }

    /// The decimal `num * 10^-scale`.
    pub fn new(num: i64, scale: u32) -> (r: Decimal)
        requires
            scale <= MAX_SCALE,
        ensures
            r == dec(num as int, scale as int),
    {
        Decimal { mantissa: num as i128, scale }
    }

    /// The decimal `mantissa * 10^-scale`, when the two are in range.
    pub fn from_parts(mantissa: i128, scale: u32) -> (r: Option<Decimal>)
        ensures
            r is Some <==> fits(mantissa as int, scale as int),
            r is Some ==> r->0 == dec(mantissa as int, scale as int),
    {
        if -MAX_MANTISSA <= mantissa && mantissa <= MAX_MANTISSA && scale <= MAX_SCALE {
            Some(Decimal { mantissa, scale })
        } else {
            None
        }
    }

    /// The mantissa.
    pub fn mantissa(&self) -> (r: i128)
        ensures
            r == self.mantissa_of(),
    {
        self.mantissa
    }

    /// The scale.
    pub fn scale(&self) -> (r: u32)
        ensures
            r == self.scale_of(),
    {
        self.scale
    }

    /// Zero.
    pub fn zero() -> (r: Decimal)
        ensures
            r == zero(),
    {
        Decimal { mantissa: 0, scale: 0 }
    }

    /// One.
    pub fn one() -> (r: Decimal)
        ensures
            r == one(),
    {
        Decimal { mantissa: 1, scale: 0 }
    }

    /// The decimal of an integer.
    pub fn from_int(n: i64) -> (r: Decimal)
        ensures
            r == dec(n as int, 0),
    {
        Decimal { mantissa: n as i128, scale: 0 }
    }

    /// Whether this is the number zero.
    pub fn is_zero(&self) -> (r: bool)
        ensures
            r == (self.mantissa_of() == 0),
    {
        self.mantissa == 0
    }

    /// `-self`.
    pub fn neg(self) -> (r: Decimal)
        ensures
            r == negated(self),
    {
        proof {
            use_type_invariant(&self);
        }
        Decimal { mantissa: -self.mantissa, scale: self.scale }
    }

    /// The magnitude of `self`.
    pub fn abs(self) -> (r: Decimal)
        ensures
            r == magnitude(self),
            r.mantissa_of() >= 0,
    {
        proof {
            use_type_invariant(&self);
        }
        if self.mantissa < 0 {
            Decimal { mantissa: -self.mantissa, scale: self.scale }
        } else {
            self
        }
    }

    /// Addition: `rust_decimal::Decimal::checked_add` on the two values. Claims that the
    /// result depends on the operands alone, and that it is the exact sum, at the larger
    /// scale, wherever the aligned mantissas and their sum are within 96 bits; a zero
    /// operand gives back the other one.
    #[verifier::external_body]
    pub(crate) fn checked_add(self, other: Decimal) -> (r: Option<Decimal>)
        ensures
            r == decimal_sum(self, other),
            exact_sum(self, other, 1) is Some ==> r == exact_sum(self, other, 1),
    {
        rust_decimal::Decimal::from_i128_with_scale(self.mantissa, self.scale)
            .checked_add(rust_decimal::Decimal::from_i128_with_scale(other.mantissa, other.scale))
            .map(|d| Decimal { mantissa: d.mantissa(), scale: d.scale() })
    }

    /// Subtraction: `rust_decimal::Decimal::checked_sub` on the two values. Claims of the
    /// difference what `checked_add` claims of the sum.
    #[verifier::external_body]
    pub(crate) fn checked_sub(self, other: Decimal) -> (r: Option<Decimal>)
        ensures
            r == decimal_difference(self, other),
            exact_sum(self, other, -1) is Some ==> r == exact_sum(self, other, -1),
    {
        rust_decimal::Decimal::from_i128_with_scale(self.mantissa, self.scale)
            .checked_sub(rust_decimal::Decimal::from_i128_with_scale(other.mantissa, other.scale))
            .map(|d| Decimal { mantissa: d.mantissa(), scale: d.scale() })
    }

    /// Multiplication: `rust_decimal::Decimal::checked_mul` on the two values. Claims that
    /// the result depends on the operands alone, and that it is the exact product, at the
    /// sum of the scales, wherever that product is within 96 bits and 28 places; a zero
    /// operand gives zero at scale 0. Claims that two operands that are not negative give a
    /// product that is not, that one between 0 and 1 gives a product no larger than it where
    /// the other is at most 1, and that operands of which the first is not positive and the
    /// second not negative give a product that is not positive; where the first is at least -1
    /// and the second at most 1, its magnitude is no larger than the second.
    #[verifier::external_body]
    pub(crate) fn checked_mul(self, other: Decimal) -> (r: Option<Decimal>)
        ensures
            r == decimal_product(self, other),
            exact_product(self, other) is Some ==> r == exact_product(self, other),
            r is Some && self.mantissa_of() >= 0 && other.mantissa_of() >= 0
                ==> r->0.mantissa_of() >= 0 && (at_most(self, one()) && at_most(other, one())
                ==> at_most(r->0, other)),
            r is Some && self.mantissa_of() <= 0 && other.mantissa_of() >= 0
                ==> r->0.mantissa_of() <= 0 && (at_most(dec(-1, 0), self) && at_most(
                other,
                one(),
            ) ==> at_most(negated(other), r->0)),
    {
        rust_decimal::Decimal::from_i128_with_scale(self.mantissa, self.scale)
            .checked_mul(rust_decimal::Decimal::from_i128_with_scale(other.mantissa, other.scale))
            .map(|d| Decimal { mantissa: d.mantissa(), scale: d.scale() })
    }

    /// Division: `rust_decimal::Decimal::checked_div` on the two values. Claims that the
    /// result depends on the operands alone, that a zero divisor gives none, and that the
    /// result is the exact quotient where the mantissas divide without a remainder, or do so
    /// with nine more places; in the last case without its trailing zeros, of which up to
    /// seven are taken off. Of other quotients it claims that they are right to 28 digits, with
    /// the sign of a quotient: a dividend that is not negative over a positive divisor gives a
    /// quotient that is not negative, and one no larger than the divisor gives a quotient of at
    /// most 1. Which way the last digit is rounded is left unsaid.
    #[verifier::external_body]
    pub(crate) fn checked_div(self, other: Decimal) -> (r: Option<Decimal>)
        ensures
            r == decimal_quotient(self, other),
            other.mantissa_of() == 0 ==> r is None,
            exact_quotient(self, other) is Some ==> r == exact_quotient(self, other),
            r is Some && self.mantissa_of() >= 0 && other.mantissa_of() > 0
                ==> r->0.mantissa_of() >= 0 && (at_most(self, other) ==> at_most(r->0, one())),
            r is Some ==> is_quotient(self, other, r->0),
    {
        rust_decimal::Decimal::from_i128_with_scale(self.mantissa, self.scale)
            .checked_div(rust_decimal::Decimal::from_i128_with_scale(other.mantissa, other.scale))
            .map(|d| Decimal { mantissa: d.mantissa(), scale: d.scale() })
    }

    /// Reading: `str::parse` into `rust_decimal::Decimal`. Claims that what is read depends on
    /// the text alone. Which texts are read, and how long fractions are rounded, is left
    /// unsaid.
    #[verifier::external_body]
    pub(crate) fn parse(s: &str) -> (r: Option<Decimal>)
        ensures
            r == decimal_value(s@),
    {
        s.parse::<rust_decimal::Decimal>()
            .ok()
            .map(|d| Decimal { mantissa: d.mantissa(), scale: d.scale() })
    }

    /// Comparison: `<` of `rust_decimal::Decimal`. Claims that it compares the two numbers
    /// exactly, whatever their scales.
    #[verifier::external_body]
    pub(crate) fn lt(self, other: Decimal) -> (r: bool)
        ensures
            r == less(self, other),
    {
        rust_decimal::Decimal::from_i128_with_scale(self.mantissa, self.scale)
            < rust_decimal::Decimal::from_i128_with_scale(other.mantissa, other.scale)
    }

    /// Rounding: `rust_decimal::Decimal::round_dp`. Claims that it keeps a number with no
    /// more than `places` fractional digits and else rounds half to even.
    #[verifier::external_body]
    pub(crate) fn round_dp(self, places: u32) -> (r: Decimal)
        ensures
            r == rounded(self, places as nat),
    {
        let d = rust_decimal::Decimal::from_i128_with_scale(self.mantissa, self.scale).round_dp(places);
        Decimal { mantissa: d.mantissa(), scale: d.scale() }
    }

    /// Truncation: `rust_decimal::Decimal::round_dp_with_strategy` with `ToZero`. Claims
    /// that it keeps a number with no more than `places` fractional digits and else drops
    /// the digits after those.
    #[verifier::external_body]
    pub(crate) fn trunc_dp(self, places: u32) -> (r: Decimal)
        ensures
            r == truncated(self, places as nat),
    {
        let d = rust_decimal::Decimal::from_i128_with_scale(self.mantissa, self.scale)
            .round_dp_with_strategy(places, rust_decimal::RoundingStrategy::ToZero);
        Decimal { mantissa: d.mantissa(), scale: d.scale() }
    }

    /// Text: the `Display` of `rust_decimal::Decimal`. Claims that it writes a sign for a
    /// negative number, the whole digits, and all fractional digits after a point.
    #[verifier::external_body]
    pub(crate) fn to_string(&self) -> (r: String)
        ensures
            r@ == decimal_text(*self),
    {
        format!("{}", rust_decimal::Decimal::from_i128_with_scale(self.mantissa, self.scale))
    }

    /// Text with `places` fractional digits: the `Display` of `rust_decimal::Decimal` with
    /// a precision. Claims that it writes what `to_string` does with `places` fractional
    /// digits, cutting off those beyond and filling up with zeros, and that the text is
    /// ASCII. A text of more than 32 characters without its sign panics.
    #[verifier::external_body]
    pub(crate) fn to_fixed(&self, places: usize) -> (r: String)
        requires
            fixed_fits(*self, places as nat),
        ensures
            r@ == decimal_fixed_text(*self, places as nat),
            r.is_ascii(),
    {
        format!("{:.*}", places, rust_decimal::Decimal::from_i128_with_scale(self.mantissa, self.scale))
    }

    /// Text with one or two fractional digits; it always fits.
    pub(crate) fn to_short(&self, places: usize) -> (r: String)
        requires
            places <= 2,
        ensures
            r@ == decimal_fixed_text(*self, places as nat),
            r.is_ascii(),
    {
        proof {
            use_type_invariant(self);
            lemma_short_texts_fit(self.scale as nat, places as nat);
        }
        self.to_fixed(places)
    }

    /// Text with `places` fractional digits, unless it is too long.
    pub(crate) fn to_places(&self, places: usize) -> (r: Result<String, Overflow>)
        ensures
            match r {
                Ok(t) => fixed_text_of(*self, places as nat) == Some(t@),
                Err(_) => fixed_text_of(*self, places as nat) is None,
            },
    {
        proof {
            use_type_invariant(self);
        }
        if places > 28 {
            return Err(Overflow);
        }
        let digits: usize = self.scale as usize + 31 - places;
        let m: i128 = if self.mantissa < 0 {
            -self.mantissa
        } else {
            self.mantissa
        };
        let mut limit: i128 = 1;
        let mut i: usize = 0;
        while i < digits && limit <= m
            invariant
                i <= digits,
                limit == pow10(i as nat),
                m <= MAX_MANTISSA,
                1 <= limit <= 10 * MAX_MANTISSA,
            decreases digits - i,
        {
            limit = limit * 10;
            i += 1;
        }
        proof {
            lemma_pow10_grows(i as nat, digits as nat);
        }
        if m < limit {
            Ok(self.to_fixed(places))
        } else {
            Err(Overflow)
        }
    }

    /// `self + other`.
    pub fn plus(self, other: Decimal) -> (r: Result<Decimal, Overflow>)
        ensures
            ok_of(r) == sum_of(self, other),
    {
        proof {
            reveal(sum_of);
        }
        match self.checked_add(other) {
            Some(d) => Ok(d),
            None => Err(Overflow),
        }
    }

    /// `self - other`.
    pub fn minus(self, other: Decimal) -> (r: Result<Decimal, Overflow>)
        ensures
            ok_of(r) == difference_of(self, other),
            is_between_zero_and_one(self) && is_between_zero_and_one(other) ==> r is Ok && at_most(
                dec(-1, 0),
                r->Ok_0,
            ) && at_most(r->Ok_0, one()),
    {
        proof {
            reveal(difference_of);
            use_type_invariant(&self);
            use_type_invariant(&other);
            if is_between_zero_and_one(self) && is_between_zero_and_one(other) {
                lemma_difference_within_one(self, other);
            }
        }
        match self.checked_sub(other) {
            Some(d) => Ok(d),
            None => Err(Overflow),
        }
    }

    /// `self * other`.
    pub fn times(self, other: Decimal) -> (r: Result<Decimal, Overflow>)
        ensures
            ok_of(r) == product_of(self, other),
            r is Ok ==> fits(r->Ok_0.mantissa_of(), r->Ok_0.scale_of()),
            r is Ok && self.mantissa_of() >= 0 && other.mantissa_of() >= 0
                ==> r->Ok_0.mantissa_of() >= 0 && (at_most(self, one()) && at_most(
                other,
                one(),
            ) ==> at_most(r->Ok_0, other)),
            r is Ok && self.mantissa_of() <= 0 && other.mantissa_of() >= 0
                ==> r->Ok_0.mantissa_of() <= 0 && (at_most(dec(-1, 0), self) && at_most(
                other,
                one(),
            ) ==> at_most(negated(other), r->Ok_0)),
    {
        proof {
            reveal(product_of);
        }
        match self.checked_mul(other) {
            Some(d) => {
                proof {
                    use_type_invariant(&d);
                }
                Ok(d)
            },
            None => Err(Overflow),
        }
    }

    /// `self / other`.
    pub fn over(self, other: Decimal) -> (r: Result<Decimal, Overflow>)
        ensures
            ok_of(r) == quotient_of(self, other),
            r is Ok && self.mantissa_of() >= 0 && other.mantissa_of() > 0
                ==> r->Ok_0.mantissa_of() >= 0 && (at_most(self, other) ==> at_most(
                r->Ok_0,
                one(),
            )),
    {
        proof {
            reveal(quotient_of);
            use_type_invariant(&self);
            use_type_invariant(&other);
        }
        match self.checked_div(other) {
            Some(d) => {
                proof {
                    use_type_invariant(&d);
                }
                Ok(d)
            },
            None => Err(Overflow),
        }
    }

    /// The decimal of a natural number.
    pub fn from_u64(n: u64) -> (r: Decimal)
        ensures
            r == dec(n as int, 0),
    {
        Decimal { mantissa: n as i128, scale: 0 }
    }

    /// `self <= other`.
    pub fn le(self, other: Decimal) -> (r: bool)
        ensures
            r == at_most(self, other),
    {
        !other.lt(self)
    }

    /// `self > other`.
    pub fn gt(self, other: Decimal) -> (r: bool)
        ensures
            r == less(other, self),
    {
        other.lt(self)
    }

    /// `self >= other`.
    pub fn ge(self, other: Decimal) -> (r: bool)
        ensures
            r == at_most(other, self),
    {
        !self.lt(other)
    }

    /// Whether the two are the same number.
    pub fn same_as(self, other: Decimal) -> (r: bool)
        ensures
            r == same(self, other),
    {
        !self.lt(other) && !other.lt(self)
    }

    /// The larger of the two.
    pub fn max(self, other: Decimal) -> (r: Decimal)
        ensures
            r == larger(self, other),
    {
        if self.lt(other) {
            other
        } else {
            self
        }
    }

    /// The smaller of the two.
    pub fn min(self, other: Decimal) -> (r: Decimal)
        ensures
            r == smaller(self, other),
    {
        if other.lt(self) {
            other
        } else {
            self
        }
    }
}

impl View for Decimal {
    type V = Decimal;

    open spec fn view(&self) -> Decimal {
        *self
    }
}

impl PartialEq for Decimal {
    fn eq(&self, other: &Decimal) -> (r: bool) {
        self.same_as(*other)
    }
}

impl vstd::std_specs::cmp::PartialEqSpecImpl for Decimal {
    open spec fn obeys_eq_spec() -> bool {
        true
    }

    open spec fn eq_spec(&self, other: &Decimal) -> bool {
        same(*self, *other)
    }
}

} // verus!
