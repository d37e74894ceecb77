//! Fixed-point world coordinates.

use vstd::prelude::*;

verus! {

/// Number of fixed-point units in one grid cell (and in the number one).
pub const UNIT: i64 = 65536;

/// Index of the grid line at or below the coordinate `v`: the floor of `v / UNIT`.
pub open spec fn cell_of(v: int) -> int {
    v / (UNIT as int)
}

/// Offset of the coordinate `v` above the grid line `cell_of(v)`, in `[0, UNIT)`.
pub open spec fn frac_of(v: int) -> int {
    v % (UNIT as int)
}

/// Quotient of `n` by a positive `d`, rounded toward zero, so that the
/// quotient of `-n` is the quotient of `n`, negated.
pub open spec fn toward_zero(n: int, d: int) -> int {
    if n >= 0 {
        n / d
    } else {
        -((-n) / d)
    }
}

/// Product of two fixed-point numbers, rounded toward zero.
pub open spec fn fixed_mul(a: int, b: int) -> int {
    toward_zero(a * b, UNIT as int)
}

/// Rounding toward zero commutes with negation.
pub proof fn lemma_toward_zero_odd(n: int, d: int)
    requires
        d > 0,
    ensures
        toward_zero(-n, d) == -toward_zero(n, d),
{
    if n == 0 {
        assert(0int / d == 0) by (nonlinear_arith)
            requires
                d > 0,
        ;
    }
}

/// The product with a negated factor is the product, negated.
pub proof fn lemma_fixed_mul_odd(a: int, b: int)
    ensures
        fixed_mul(a, -b) == -fixed_mul(a, b),
        fixed_mul(-a, b) == -fixed_mul(a, b),
        fixed_mul(a, 0) == 0,
        fixed_mul(0, b) == 0,
{
    assert(a * (-b) == -(a * b) && (-a) * b == -(a * b) && a * 0 == 0 && 0 * b == 0)
        by (nonlinear_arith);
    lemma_toward_zero_odd(a * b, UNIT as int);
}

/// The coordinate `v` splits into its cell and its offset within the cell.
pub proof fn lemma_cell_bounds(v: int)
    ensures
        cell_of(v) * UNIT <= v < (cell_of(v) + 1) * UNIT,
        v == cell_of(v) * UNIT + frac_of(v),
        0 <= frac_of(v) < UNIT,
{
}

/// The cell index of a coordinate.
pub fn cell_index(v: i64) -> (c: i64)
    ensures
        c == cell_of(v as int),
{
    if v >= 0 {
        v / UNIT
    } else {
        let q: i64 = (v + 1) / UNIT;
        q - 1
    }
}

/// Floor of `n / d` for a positive divisor.
pub fn floor_div(n: i128, d: i128) -> (q: i128)
    requires
        d > 0,
        n > i128::MIN,
    ensures
        q == n as int / d as int,
{
    if n >= 0 {
        n / d
    } else {
        let m: i128 = -n;
        let t: i128 = (m - 1) / d;
        proof {
            lemma_floor_of_negative(m as int, d as int);
        }
        -t - 1
    }
}

/// Floor division of a negative number in terms of division of a positive one.
proof fn lemma_floor_of_negative(m: int, d: int)
    requires
        m > 0,
        d > 0,
    ensures
        (-m) / d == -((m - 1) / d) - 1,
{
    let t = (m - 1) / d;
    let r = (m - 1) % d;
    vstd::arithmetic::div_mod::lemma_fundamental_div_mod(m - 1, d);
    assert(m - 1 == d * t + r);
    assert(0 <= r < d) by {
        vstd::arithmetic::div_mod::lemma_mod_pos_bound(m - 1, d);
    }
    // -m == d * (-t - 1) + (d - 1 - r)
    assert(-m == d * (-t - 1) + (d - 1 - r)) by (nonlinear_arith)
        requires
            m - 1 == d * t + r,
    ;
    vstd::arithmetic::div_mod::lemma_fundamental_div_mod_converse_div(-m, d, -t - 1, d - 1 - r);
}

/// Quotient of `n` by a positive `d`, rounded toward zero.
pub fn div_toward_zero(n: i128, d: i128) -> (q: i128)
    requires
        d > 0,
        n > i128::MIN,
    ensures
        q == toward_zero(n as int, d as int),
{
    if n >= 0 {
        n / d
    } else {
        let m: i128 = -n;
        assert(0 <= (m as int) / (d as int) <= m) by (nonlinear_arith)
            requires
                m >= 0,
                d > 0,
        ;
        -(m / d)
    }
}

} // verus!
