//! Exact rational scores.
//!
//! Hit chances, special bonus multipliers and DPS values are ratios of
//! integers.  Keeping them as ratios makes every comparison exact: two
//! scores are ordered by cross-multiplying, so the optimizer's choice never
//! depends on rounding.
use vstd::prelude::*;

verus! {

/// Mathematical value of a [`Ratio`]: a fraction of unbounded integers.
pub struct Rat {
    pub num: int,
    pub den: int,
}

/// A well-formed fraction has a positive denominator.
pub open spec fn rat_wf(r: Rat) -> bool {
    r.den > 0
}

/// `a <= b` on fractions, by cross-multiplication.
pub open spec fn rat_le(a: Rat, b: Rat) -> bool
    recommends
        rat_wf(a),
        rat_wf(b),
{
    a.num * b.den <= b.num * a.den
}

/// `a < b` on fractions, by cross-multiplication.
pub open spec fn rat_lt(a: Rat, b: Rat) -> bool
    recommends
        rat_wf(a),
        rat_wf(b),
{
    a.num * b.den < b.num * a.den
}

/// An exact fraction of machine integers.  The denominator is positive
/// wherever the library hands one out.
#[derive(Clone, Copy, Debug, PartialEq, Eq, Structural)]
pub struct Ratio {
    pub num: i64,
    pub den: i64,
}

impl View for Ratio {
    type V = Rat;

    open spec fn view(&self) -> Rat {
        Rat { num: self.num as int, den: self.den as int }
    }
}

impl Ratio {
    pub open spec fn wf(self) -> bool {
        self.den > 0
    }
}

proof fn lemma_i64_product_in_i128(x: int, y: int)
    by (nonlinear_arith)
    requires
        -0x8000_0000_0000_0000 <= x <= 0x7fff_ffff_ffff_ffff,
        -0x8000_0000_0000_0000 <= y <= 0x7fff_ffff_ffff_ffff,
    ensures
        -0x8000_0000_0000_0000_0000_0000_0000_0000 <= x * y
            <= 0x7fff_ffff_ffff_ffff_ffff_ffff_ffff_ffff,
{
}

/// Exact `a <= b` on fractions of machine integers.
pub fn ratio_le(a: &Ratio, b: &Ratio) -> (r: bool)
    requires
        a.wf(),
        b.wf(),
    ensures
        r == rat_le(a@, b@),
{
    proof {
        lemma_i64_product_in_i128(a.num as int, b.den as int);
        lemma_i64_product_in_i128(b.num as int, a.den as int);
    }
    (a.num as i128) * (b.den as i128) <= (b.num as i128) * (a.den as i128)
}

/// Exact `a < b` on fractions of machine integers.
pub fn ratio_lt(a: &Ratio, b: &Ratio) -> (r: bool)
    requires
        a.wf(),
        b.wf(),
    ensures
        r == rat_lt(a@, b@),
{
    proof {
        lemma_i64_product_in_i128(a.num as int, b.den as int);
        lemma_i64_product_in_i128(b.num as int, a.den as int);
    }
    (a.num as i128) * (b.den as i128) < (b.num as i128) * (a.den as i128)
}

/// Floor division with a positive divisor, also for negative dividends.
/// Machine division truncates towards zero, so the negative case is
/// computed as the negated ceiling of the magnitude.
pub fn div_floor(a: i64, b: i64) -> (q: i64)
    requires
        1 <= b <= 1_000_000,
        -0x4000_0000_0000_0000 <= a <= 0x4000_0000_0000_0000,
    ensures
        q == a as int / b as int,
{
    if a >= 0 {
        ((a as u64) / (b as u64)) as i64
    } else {
        let n = (-a) as u64;
        let d = b as u64;
        let q0 = (n + (d - 1)) / d;
        proof {
            let ni = -(a as int);
            let bi = b as int;
            vstd::arithmetic::div_mod::lemma_fundamental_div_mod(ni - 1, bi);
            let k = (ni - 1) / bi;
            let r = (ni - 1) % bi;
            assert(bi * (k + 1) == bi * k + bi) by (nonlinear_arith);
            assert(bi * (-(k + 1)) == -(bi * k) - bi) by (nonlinear_arith);
            vstd::arithmetic::div_mod::lemma_fundamental_div_mod_converse_div(
                ni + bi - 1,
                bi,
                k + 1,
                r,
            );
            vstd::arithmetic::div_mod::lemma_fundamental_div_mod_converse_div(
                -ni,
                bi,
                -(k + 1),
                bi - 1 - r,
            );
            vstd::arithmetic::div_mod::lemma_div_nonincreasing(ni - 1, bi);
        }
        -(q0 as i64)
    }
}

/// Applying a bonus multiplier `m` with `1 <= m <= 2` and flooring keeps
/// the value between `x` and `2 * x` (reversed when `x` is negative).
pub proof fn lemma_mult_floor_bounds(x: int, m: Rat)
    requires
        rat_wf(m),
        m.den <= m.num <= 2 * m.den,
    ensures
        x >= 0 ==> x <= (x * m.num) / m.den <= 2 * x,
        x < 0 ==> 2 * x <= (x * m.num) / m.den <= x,
{
    if x >= 0 {
        vstd::arithmetic::mul::lemma_mul_inequality(m.den, m.num, x);
        vstd::arithmetic::mul::lemma_mul_inequality(m.num, 2 * m.den, x);
        vstd::arithmetic::div_mod::lemma_div_is_ordered(x * m.den, x * m.num, m.den);
        vstd::arithmetic::div_mod::lemma_div_is_ordered(x * m.num, x * (2 * m.den), m.den);
        vstd::arithmetic::div_mod::lemma_div_multiples_vanish(x, m.den);
        vstd::arithmetic::div_mod::lemma_div_multiples_vanish(2 * x, m.den);
        assert(x * m.den == m.den * x) by (nonlinear_arith);
        assert(x * (2 * m.den) == m.den * (2 * x)) by (nonlinear_arith);
    } else {
        vstd::arithmetic::mul::lemma_mul_inequality(m.den, m.num, -x);
        vstd::arithmetic::mul::lemma_mul_inequality(m.num, 2 * m.den, -x);
        assert((-x) * m.den == -(x * m.den)) by (nonlinear_arith);
        assert((-x) * m.num == -(x * m.num)) by (nonlinear_arith);
        assert((-x) * (2 * m.den) == -(x * (2 * m.den))) by (nonlinear_arith);
        vstd::arithmetic::div_mod::lemma_div_is_ordered(x * (2 * m.den), x * m.num, m.den);
        vstd::arithmetic::div_mod::lemma_div_is_ordered(x * m.num, x * m.den, m.den);
        vstd::arithmetic::div_mod::lemma_div_multiples_vanish(x, m.den);
        vstd::arithmetic::div_mod::lemma_div_multiples_vanish(2 * x, m.den);
        assert(x * m.den == m.den * x) by (nonlinear_arith);
        assert(x * (2 * m.den) == m.den * (2 * x)) by (nonlinear_arith);
    }
}

/// A product of bounded factors is bounded by the product of the bounds.
pub proof fn lemma_abs_mul_bound(x: int, y: int, xb: int, yb: int)
    by (nonlinear_arith)
    requires
        -xb <= x <= xb,
        -yb <= y <= yb,
        0 <= xb,
        0 <= yb,
    ensures
        -(xb * yb) <= x * y <= xb * yb,
{
}

/// A multiplier equal to one leaves the value unchanged.
pub proof fn lemma_mult_floor_identity(x: int, m: Rat)
    requires
        rat_wf(m),
        m.num == m.den,
    ensures
        (x * m.num) / m.den == x,
{
    vstd::arithmetic::div_mod::lemma_div_multiples_vanish(x, m.den);
    assert(x * m.den == m.den * x) by (nonlinear_arith);
}

/// The fraction order is total: of two well-formed fractions one is `<=`
/// the other.
pub proof fn lemma_rat_le_total(a: Rat, b: Rat)
    requires
        rat_wf(a),
        rat_wf(b),
    ensures
        rat_le(a, b) || rat_le(b, a),
{
}

/// The fraction order is transitive.
pub proof fn lemma_rat_le_trans(a: Rat, b: Rat, c: Rat)
    by (nonlinear_arith)
    requires
        rat_wf(a),
        rat_wf(b),
        rat_wf(c),
        rat_le(a, b),
        rat_le(b, c),
    ensures
        rat_le(a, c),
{
}

/// A `<=` bound below a strict comparison stays strict.
pub proof fn lemma_rat_le_lt_trans(a: Rat, b: Rat, c: Rat)
    by (nonlinear_arith)
    requires
        rat_wf(a),
        rat_wf(b),
        rat_wf(c),
        rat_le(a, b),
        rat_lt(b, c),
    ensures
        rat_lt(a, c),
{
}

} // verus!
