use vstd::prelude::*;
use vstd::arithmetic::div_mod::*;
use vstd::std_specs::cmp::{PartialOrdIs, PartialOrdSpec};

verus! {

/// Absolute value of an integer.
pub open spec fn iabs(a: int) -> int {
    if a < 0 {
        -a
    } else {
        a
    }
}

/// Quotient of Rust's integer division `/`, which rounds toward zero.
pub open spec fn tdiv(a: int, b: int) -> int {
    if (a >= 0) == (b > 0) {
        iabs(a) / iabs(b)
    } else {
        -(iabs(a) / iabs(b))
    }
}

/// Remainder of Rust's integer `%`: it has the sign of the dividend.
pub open spec fn trem(a: int, b: int) -> int {
    if a >= 0 {
        a % b
    } else {
        -((-a) % b)
    }
}

/// Rust's division and remainder fit together, the remainder is smaller
/// than the divisor in magnitude and has the sign of the dividend, and the
/// quotient is no larger in magnitude than the dividend.
pub proof fn lemma_trunc_div_rem(a: int, b: int)
    requires
        b != 0,
    ensures
        a == tdiv(a, b) * b + trem(a, b),
        iabs(trem(a, b)) < iabs(b),
        iabs(a) == iabs(tdiv(a, b)) * iabs(b) + iabs(trem(a, b)),
        a >= 0 ==> trem(a, b) >= 0,
        a <= 0 ==> trem(a, b) <= 0,
        iabs(tdiv(a, b)) <= iabs(a),
{
    let q = iabs(a) / iabs(b);
    let r = iabs(a) % iabs(b);
    lemma_fundamental_div_mod(iabs(a), iabs(b));
    lemma_mod_pos_bound(iabs(a), iabs(b));
    lemma_div_pos_is_pos(iabs(a), iabs(b));
    if b < 0 {
        let x = iabs(a);
        let nb = -b;
        assert(x % b == x % nb) by (nonlinear_arith)
            requires
                b < 0,
                nb == -b,
                x >= 0,
        ;
    }
    assert(trem(a, b) == if a >= 0 {
        r
    } else {
        -r
    });
    assert(q * iabs(b) >= q) by (nonlinear_arith)
        requires
            q >= 0,
            iabs(b) >= 1,
    ;
    let t = tdiv(a, b);
    assert(a == t * b + trem(a, b)) by (nonlinear_arith)
        requires
            iabs(a) == iabs(b) * q + r,
            t == (if (a >= 0) == (b > 0) {
                q
            } else {
                -q
            }),
            trem(a, b) == (if a >= 0 {
                r
            } else {
                -r
            }),
            iabs(a) == (if a < 0 {
                -a
            } else {
                a
            }),
            iabs(b) == (if b < 0 {
                -b
            } else {
                b
            }),
    ;
}

/// Magnitude of a product is monotone in the magnitude of one factor.
pub proof fn lemma_mul_abs_le(d: int, y: int, b: int)
    requires
        iabs(y) <= iabs(b),
    ensures
        iabs(d * y) <= iabs(d) * iabs(b),
        iabs(d * y) == iabs(d) * iabs(y),
{
    let ad = iabs(d);
    let ay = iabs(y);
    let ab = iabs(b);
    assert(iabs(d * y) == ad * ay) by (nonlinear_arith)
        requires
            ad == (if d < 0 { -d } else { d }),
            ay == (if y < 0 { -y } else { y }),
    ;
    assert(ad * ay <= ad * ab) by (nonlinear_arith)
        requires
            ay <= ab,
            ad >= 0,
    ;
}

/// `x` limited to `[low, high]` by `<` and `>`.
pub open spec fn clamp_of<T: PartialOrd>(x: T, low: T, high: T) -> T {
    if x.is_lt(&low) {
        low
    } else if x.is_gt(&high) {
        high
    } else {
        x
    }
}

/// `x` limited to the range `[low, high]`, which must not be empty.
pub fn clamp<T>(x: T, low: T, high: T) -> (r: T) where T: PartialOrd
    requires
        T::obeys_partial_cmp_spec() ==> low.is_le(&high),
    ensures
        r == x || r == low || r == high,
        T::obeys_partial_cmp_spec() ==> r == clamp_of(x, low, high),
{
    if x < low {
        return low;
    } else if x > high {
        return high;
    } else {
        return x;
    }
}

/// On integers, clamping lands in the range, leaves values of the range
/// alone, and clamping twice is clamping once.
pub proof fn lemma_clamp_i64(x: i64, low: i64, high: i64)
    requires
        low <= high,
    ensures
        low <= clamp_of(x, low, high) <= high,
        low <= x <= high ==> clamp_of(x, low, high) == x,
        clamp_of(clamp_of(x, low, high), low, high) == clamp_of(x, low, high),
{
}

} // verus!
