use rand::Rng;
use vstd::prelude::*;
use vstd::arithmetic::div_mod::*;
use vstd::arithmetic::power::*;

use crate::primes::{prime, prime_at};
use crate::vector::Point2;
use crate::common::{iabs, lemma_mul_abs_le, lemma_trunc_div_rem, tdiv, trem};

verus! {

/// The pair that the extended Euclidean algorithm computes, following the
/// recursion `(a, b) -> (b, a % b)` with Rust's rounding toward zero.
pub open spec fn egcd(a: int, b: int) -> (int, int)
    decreases iabs(b),
{
    if b == 0 {
        (1, 0)
    } else {
        proof {
            lemma_trunc_div_rem(a, b);
        }
        let (xp, yp) = egcd(b, trem(a, b));
        (yp, xp - tdiv(a, b) * yp)
    }
}

/// The last nonzero remainder of the Euclidean algorithm on `(a, b)`.
pub open spec fn euclid(a: int, b: int) -> int
    decreases iabs(b),
{
    if b == 0 {
        a
    } else {
        proof {
            lemma_trunc_div_rem(a, b);
        }
        euclid(b, trem(a, b))
    }
}

/// The coefficients are bounded by the other argument:
/// `|x| <= max(|b|, 1)` and `|y| <= max(|a|, 1)`.
pub proof fn lemma_egcd_bounds(a: int, b: int)
    ensures
        iabs(egcd(a, b).0) <= if iabs(b) < 1 { 1 } else { iabs(b) },
        iabs(egcd(a, b).1) <= if iabs(a) < 1 { 1 } else { iabs(a) },
    decreases iabs(b),
{
    if b != 0 {
        lemma_trunc_div_rem(a, b);
        let r = trem(a, b);
        let d = tdiv(a, b);
        lemma_egcd_bounds(b, r);
        let (xp, yp) = egcd(b, r);
        assert(egcd(a, b) == (yp, xp - d * yp));
        if r == 0 {
            assert(egcd(b, r) == (1int, 0int));
            assert(d * yp == 0) by (nonlinear_arith)
                requires
                    yp == 0,
            ;
        } else {
            lemma_mul_abs_le(d, yp, b);
            assert(iabs(xp - d * yp) <= iabs(xp) + iabs(d * yp));
        }
    }
}

/// `ExtendedGCD(a, b)` runs without overflow: at every step of the
/// recursion the quotient `a / b`, and the product and the difference that
/// make the new second coefficient, are `i64`s.
pub open spec fn egcd_fits(a: int, b: int) -> bool
    decreases iabs(b),
{
    if b == 0 {
        true
    } else {
        proof {
            lemma_trunc_div_rem(a, b);
        }
        let d = tdiv(a, b);
        let (xp, yp) = egcd(b, trem(a, b));
        &&& i64::MIN <= d <= i64::MAX
        &&& egcd_fits(b, trem(a, b))
        &&& i64::MIN <= d * yp <= i64::MAX
        &&& i64::MIN <= xp - d * yp <= i64::MAX
    }
}

/// `ExtendedGCD` runs without overflow on every pair of `i64`s other than
/// `i64::MIN`: the coefficients are bounded by the arguments.
pub proof fn lemma_egcd_fits(a: int, b: int)
    requires
        i64::MIN < a <= i64::MAX,
        i64::MIN < b <= i64::MAX,
    ensures
        egcd_fits(a, b),
    decreases iabs(b),
{
    if b != 0 {
        lemma_trunc_div_rem(a, b);
        let r = trem(a, b);
        let d = tdiv(a, b);
        lemma_egcd_fits(b, r);
        lemma_egcd_bounds(b, r);
        let (xp, yp) = egcd(b, r);
        if r != 0 {
            lemma_mul_abs_le(d, yp, b);
            assert(iabs(d) * iabs(yp) <= iabs(d) * iabs(b)) by (nonlinear_arith)
                requires
                    iabs(yp) <= iabs(b),
                    iabs(d) >= 0,
            ;
            assert(iabs(xp - d * yp) <= iabs(xp) + iabs(d * yp));
        } else {
            assert(egcd(b, r) == (1int, 0int));
            assert(d * yp == 0) by (nonlinear_arith)
                requires
                    yp == 0,
            ;
        }
    }
}

/// Extended Euclidean algorithm:
/// `ExtendedGCD(a, b) -> (x, y)` where `GCD(a, b) = xa + yb`.
pub fn ExtendedGCD(a: i64, b: i64) -> (r: (i64, i64))
    requires
        egcd_fits(a as int, b as int),
    ensures
        r.0 == egcd(a as int, b as int).0,
        r.1 == egcd(a as int, b as int).1,
    decreases iabs(b as int),
{
    if b == 0 {
        return (1, 0);
    }
    proof {
        lemma_trunc_div_rem(a as int, b as int);
    }
    let d = a.checked_div(b).unwrap();
    let (xp, yp) = ExtendedGCD(b, a % b);
    (yp, xp - (d * yp))
}

/// `k` copies of `d`.
pub open spec fn scaled(k: int, d: int) -> int {
    k * d
}

/// `d` divides `n`.
pub open spec fn divides(d: int, n: int) -> bool {
    exists|k: int| #[trigger] scaled(k, d) == n
}

/// `g` is the greatest common divisor of `a` and `b`: it is not negative, it
/// divides both, and every common divisor of `a` and `b` divides it.
pub open spec fn is_gcd(g: int, a: int, b: int) -> bool {
    &&& g >= 0
    &&& divides(g, a)
    &&& divides(g, b)
    &&& forall|c: int| divides(c, a) && divides(c, b) ==> #[trigger] divides(c, g)
}

/// `x*a + y*b` is the last nonzero remainder of the Euclidean algorithm.
proof fn lemma_egcd_combination(a: int, b: int)
    ensures
        egcd(a, b).0 * a + egcd(a, b).1 * b == euclid(a, b),
    decreases iabs(b),
{
    if b != 0 {
        lemma_trunc_div_rem(a, b);
        let r = trem(a, b);
        let d = tdiv(a, b);
        lemma_egcd_combination(b, r);
        let (xp, yp) = egcd(b, r);
        assert(yp * a + (xp - d * yp) * b == xp * b + yp * r) by (nonlinear_arith)
            requires
                a == d * b + r,
        ;
    }
}

/// The last nonzero remainder divides both arguments, and every common
/// divisor of the arguments divides it; it is not negative when both
/// arguments are not negative.
proof fn lemma_euclid_divides(a: int, b: int)
    ensures
        divides(euclid(a, b), a),
        divides(euclid(a, b), b),
        forall|c: int| divides(c, a) && divides(c, b) ==> #[trigger] divides(c, euclid(a, b)),
        a >= 0 && b >= 0 ==> euclid(a, b) >= 0,
    decreases iabs(b),
{
    let g = euclid(a, b);
    if b == 0 {
        assert(scaled(1, a) == a);
        assert(scaled(0, a) == 0);
    } else {
        lemma_trunc_div_rem(a, b);
        let r = trem(a, b);
        let d = tdiv(a, b);
        lemma_euclid_divides(b, r);
        let k1 = choose|k: int| #[trigger] scaled(k, g) == b;
        let k2 = choose|k: int| #[trigger] scaled(k, g) == r;
        assert(scaled(d * k1 + k2, g) == a) by (nonlinear_arith)
            requires
                a == d * b + r,
                b == k1 * g,
                r == k2 * g,
        ;
        assert forall|c: int| divides(c, a) && divides(c, b) implies #[trigger] divides(c, g) by {
            let k3 = choose|k: int| #[trigger] scaled(k, c) == a;
            let k4 = choose|k: int| #[trigger] scaled(k, c) == b;
            assert(scaled(k3 - d * k4, c) == r) by (nonlinear_arith)
                requires
                    a == d * b + r,
                    a == k3 * c,
                    b == k4 * c,
            ;
        }
    }
}

/// The divisors of `g` and of `-g` are the same.
proof fn lemma_divides_neg(g: int, n: int)
    ensures
        divides(g, n) == divides(-g, n),
        divides(n, g) == divides(n, -g),
{
    if divides(g, n) {
        let k = choose|k: int| #[trigger] scaled(k, g) == n;
        assert(scaled(-k, -g) == n) by (nonlinear_arith)
            requires
                n == k * g,
        ;
    }
    if divides(-g, n) {
        let k = choose|k: int| #[trigger] scaled(k, -g) == n;
        assert(scaled(-k, g) == n) by (nonlinear_arith)
            requires
                n == k * -g,
        ;
    }
    if divides(n, g) {
        let k = choose|k: int| #[trigger] scaled(k, n) == g;
        assert(scaled(-k, n) == -g) by (nonlinear_arith)
            requires
                g == k * n,
        ;
    }
    if divides(n, -g) {
        let k = choose|k: int| #[trigger] scaled(k, n) == -g;
        assert(scaled(-k, n) == g) by (nonlinear_arith)
            requires
                -g == k * n,
        ;
    }
}

/// Bezout's identity for `ExtendedGCD`: the pair `(x, y)` it computes gives
/// `GCD(a, b) = xa + yb` up to sign, and exactly when `a` and `b` are not
/// negative.
pub proof fn lemma_extended_gcd_bezout(a: int, b: int)
    ensures
        is_gcd(iabs(egcd(a, b).0 * a + egcd(a, b).1 * b), a, b),
        a >= 0 && b >= 0 ==> is_gcd(egcd(a, b).0 * a + egcd(a, b).1 * b, a, b),
{
    lemma_egcd_combination(a, b);
    lemma_euclid_divides(a, b);
    let g = euclid(a, b);
    lemma_divides_neg(g, a);
    lemma_divides_neg(g, b);
    assert forall|c: int| divides(c, a) && divides(c, b) implies #[trigger] divides(c, iabs(g)) by {
        assert(divides(c, g));
        lemma_divides_neg(g, c);
    }
}

/// Number of base-`base` digits of `a` (none for zero).
pub open spec fn num_digits(base: nat, a: nat) -> nat
    decreases a,
{
    if base < 2 || a == 0 {
        0
    } else {
        proof {
            lemma_div_decreases(a as int, base as int);
        }
        1 + num_digits(base, a / base)
    }
}

/// The base-`base` digits of `a`, least significant first, appended to `x`
/// as its new least significant digits: the digits of `a` read in reverse.
pub open spec fn reverse_digits(base: nat, a: nat, x: nat) -> nat
    decreases a,
{
    if base < 2 || a == 0 {
        x
    } else {
        proof {
            lemma_div_decreases(a as int, base as int);
        }
        reverse_digits(base, a / base, x * base + a % base)
    }
}

/// The `n` least significant base-`base` digits of `a` appended to `x` in
/// reverse order.
pub open spec fn reverse_low_digits(base: nat, a: nat, n: nat, x: nat) -> nat
    decreases n,
{
    if n == 0 {
        x
    } else {
        reverse_low_digits(base, a / base, (n - 1) as nat, x * base + a % base)
    }
}

/// `base` to the power of the number of digits of `a`.
pub open spec fn digit_scale(base: nat, a: nat) -> nat {
    pow(base as int, num_digits(base, a)) as nat
}

proof fn lemma_pow_step(b: nat, k: nat)
    requires
        b >= 1,
    ensures
        pow(b as int, k) >= 1,
        pow(b as int, k + 1) == b * pow(b as int, k),
        pow(b as int, k + 1) >= pow(b as int, k),
{
    lemma_pow_positive(b as int, k);
    reveal(pow);
    assert(pow(b as int, (k + 1) as nat) == b * pow(b as int, k));
    assert(b * pow(b as int, k) >= pow(b as int, k)) by (nonlinear_arith)
        requires
            b >= 1,
            pow(b as int, k) >= 1,
    ;
}

/// Radical inverse of `a` in base `base`: the digits of `a` mirrored about
/// the radix point, returned as the exact fraction `(numerator,
/// denominator)` whose denominator is `base` to the number of digits of `a`.
pub fn radicalInverse(base: u32, a: u32) -> (r: (u32, u32))
    requires
        a == 0 || (base >= 2 && digit_scale(base as nat, a as nat) <= u32::MAX),
    ensures
        r.0 == reverse_digits(base as nat, a as nat, 0),
        r.1 == digit_scale(base as nat, a as nat),
        r.0 < r.1,
{
    let ghost a0 = a as nat;
    let ghost b = base as nat;
    let mut a = a;
    let mut x: u32 = 0;
    let mut baseN: u32 = 1;
    while a > 0
        invariant
            a0 == 0 || (b >= 2 && digit_scale(b, a0) <= u32::MAX),
            b == base,
            reverse_digits(b, a0, 0) == reverse_digits(b, a as nat, x as nat),
            baseN * pow(b as int, num_digits(b, a as nat)) == pow(b as int, num_digits(b, a0)),
            x < baseN,
            a0 == 0 ==> a == 0,
        decreases a,
    {
        let ghost k = num_digits(b, (a / base) as nat);
        proof {
            assert(num_digits(b, a as nat) == k + 1);
            lemma_pow_step(b, k);
            lemma_pow_positive(b as int, k);
            assert(x * base + a % base < baseN * base) by (nonlinear_arith)
                requires
                    x < baseN,
                    a % base < base,
            ;
            assert(baseN * base <= baseN * (base * pow(b as int, k))) by (nonlinear_arith)
                requires
                    pow(b as int, k) >= 1,
                    baseN >= 1,
                    base >= 1,
            ;
            assert(baseN * (base * pow(b as int, k)) == (baseN * base) * pow(b as int, k))
                by (nonlinear_arith);
        }
        x = x * base + a % base;
        a /= base;
        baseN *= base;
    }
    proof {
        assert(num_digits(b, 0) == 0);
        lemma_pow0(b as int);
    }
    (x, baseN)
}


/// Radical inverse of `a` in the base that is the prime number
/// `PRIMES[baseIndex]`.
pub fn RadicalInverse(baseIndex: u32, a: u32) -> (r: (u32, u32))
    requires
        baseIndex < 1024,
        a == 0 || digit_scale(prime_at(baseIndex as int), a as nat) <= u32::MAX,
    ensures
        r.0 == reverse_digits(prime_at(baseIndex as int), a as nat, 0),
        r.1 == digit_scale(prime_at(baseIndex as int), a as nat),
{
    let base = prime(baseIndex);
    radicalInverse(base, a)
}

/// Appending digits never makes the accumulated number smaller.
proof fn lemma_reverse_low_digits_grows(base: nat, a: nat, n: nat, x: nat)
    requires
        n == 0 || base >= 1,
    ensures
        reverse_low_digits(base, a, n, x) >= x,
    decreases n,
{
    if n > 0 {
        assert(x * base + a % base >= x) by (nonlinear_arith)
            requires
                base >= 1,
                a % base >= 0,
        ;
        lemma_reverse_low_digits_grows(base, a / base, (n - 1) as nat, x * base + a % base);
    }
}

/// Inverse of the radical inverse: reverses the `nDigits` least significant
/// base-`base` digits of `a`.
pub fn InverseRadicalInverse(base: u32, a: u32, nDigits: u32) -> (r: usize)
    requires
        nDigits == 0 || base >= 1,
        reverse_low_digits(base as nat, a as nat, nDigits as nat, 0) <= u32::MAX,
    ensures
        r == reverse_low_digits(base as nat, a as nat, nDigits as nat, 0),
{
    let ghost total = reverse_low_digits(base as nat, a as nat, nDigits as nat, 0);
    let mut a = a;
    let mut x: u32 = 0;
    for i in 0..nDigits
        invariant
            nDigits == 0 || base >= 1,
            total <= u32::MAX,
            total == reverse_low_digits(base as nat, a as nat, (nDigits - i) as nat, x as nat),
    {
        let digit = a % base;
        proof {
            lemma_reverse_low_digits_grows(
                base as nat,
                (a / base) as nat,
                (nDigits - i - 1) as nat,
                (x * base + digit) as nat,
            );
            assert(x * base <= x * base + digit);
        }
        a /= base;
        x = x * base + digit;
    }
    x as usize
}

/// Reading the digits of `a` in reverse after `x` shifts `x` up by as many
/// digits as `a` has.
proof fn lemma_reverse_digits_acc(b: nat, a: nat, x: nat)
    requires
        b >= 2,
    ensures
        reverse_digits(b, a, x) == x * pow(b as int, num_digits(b, a)) + reverse_digits(b, a, 0),
        reverse_digits(b, a, 0) < pow(b as int, num_digits(b, a)),
    decreases a,
{
    if a == 0 {
        lemma_pow0(b as int);
    } else {
        lemma_div_decreases(a as int, b as int);
        let a1 = a / b;
        let d0 = a % b;
        let k1 = num_digits(b, a1);
        let p = pow(b as int, k1);
        lemma_reverse_digits_acc(b, a1, x * b + d0);
        lemma_reverse_digits_acc(b, a1, d0);
        lemma_pow_step(b, k1);
        assert(num_digits(b, a) == k1 + 1);
        assert((x * b + d0) * p + reverse_digits(b, a1, 0) == x * (b * p) + (d0 * p
            + reverse_digits(b, a1, 0))) by (nonlinear_arith);
        assert(d0 * p + reverse_digits(b, a1, 0) < b * p) by (nonlinear_arith)
            requires
                d0 < b,
                reverse_digits(b, a1, 0) < p,
        ;
    }
}

/// Reversing `j + i` digits is reversing `j` digits and then `i` more of
/// what is left.
proof fn lemma_reverse_low_digits_split(b: nat, m: nat, j: nat, i: nat, x: nat)
    requires
        b >= 2,
    ensures
        reverse_low_digits(b, m, j + i, x) == reverse_low_digits(
            b,
            (m / (pow(b as int, j) as nat)) as nat,
            i,
            reverse_low_digits(b, m, j, x),
        ),
    decreases j,
{
    if j == 0 {
        lemma_pow0(b as int);
    } else {
        let j1 = (j - 1) as nat;
        let y = x * b + m % b;
        lemma_reverse_low_digits_split(b, m / b, j1, i, y);
        lemma_pow_step(b, j1);
        let p = pow(b as int, j1);
        lemma_div_denominator(m as int, b as int, p);
        assert(pow(b as int, j) == b * p);
        assert((m / b) as int / p == m as int / pow(b as int, j));
        assert(reverse_low_digits(b, m, j + i, x) == reverse_low_digits(b, m / b, j1 + i, y));
        assert(reverse_low_digits(b, m, j, x) == reverse_low_digits(b, m / b, j1, y));
    }
}

/// Reversing the `j` least significant digits only reads those digits.
proof fn lemma_reverse_low_digits_mod(b: nat, m: nat, j: nat, x: nat)
    requires
        b >= 2,
    ensures
        reverse_low_digits(b, m, j, x) == reverse_low_digits(
            b,
            (m % (pow(b as int, j) as nat)) as nat,
            j,
            x,
        ),
    decreases j,
{
    if j > 0 {
        let j1 = (j - 1) as nat;
        let bi = b as int;
        let mi = m as int;
        let p = pow(bi, j1);
        lemma_pow_step(b, j1);
        let mm = mi % (bi * p);
        lemma_mod_mod(mi, bi, p);
        lemma_mod_breakdown(mi, bi, p);
        lemma_mod_bound(mi / bi, p);
        lemma_mod_bound(mi, bi);
        assert(mm / bi == (mi / bi) % p) by {
            lemma_fundamental_div_mod_converse(mm, bi, (mi / bi) % p, mi % bi);
        }
        lemma_mod_bound(mm / bi, p);
        lemma_small_mod(((mi / bi) % p) as nat, p as nat);
        let y = x * b + m % b;
        lemma_reverse_low_digits_mod(b, m / b, j1, y);
        lemma_reverse_low_digits_mod(b, (mm / bi) as nat, j1, y);
        // Both numbers have the same lowest digit, and the digits above it
        // agree modulo `base^(j - 1)`.
        let mn = (m % (pow(b as int, j) as nat)) as nat;
        assert(pow(bi, j) == bi * p);
        assert(mn as int == mm);
        assert(mn % b == m % b);
        assert(mn / b == (mm / bi) as nat);
        assert(((m / b) % (p as nat)) as int == mm / bi);
    } else {
        lemma_pow0(b as int);
    }
}

/// `InverseRadicalInverse` undoes `radicalInverse`: reversing, as many
/// digits as `a` has, the numerator of the radical inverse of `a` gives `a`
/// back.
pub proof fn lemma_inverse_radical_inverse(b: nat, a: nat)
    requires
        b >= 2,
    ensures
        reverse_low_digits(b, reverse_digits(b, a, 0), num_digits(b, a), 0) == a,
    decreases a,
{
    if a > 0 {
        lemma_div_decreases(a as int, b as int);
        let a1 = a / b;
        let d0 = a % b;
        let k1 = num_digits(b, a1);
        let p = pow(b as int, k1);
        let ra = reverse_digits(b, a, 0);
        let ra1 = reverse_digits(b, a1, 0);
        lemma_reverse_digits_acc(b, a1, d0);
        lemma_pow_positive(b as int, k1);
        assert(ra == d0 * p + ra1);
        assert(ra / (p as nat) == d0 && ra % (p as nat) == ra1) by {
            lemma_fundamental_div_mod_converse(ra as int, p, d0 as int, ra1 as int);
        }
        lemma_reverse_low_digits_split(b, ra, k1, 1, 0);
        lemma_reverse_low_digits_mod(b, ra, k1, 0);
        lemma_inverse_radical_inverse(b, a1);
        assert(num_digits(b, a) == k1 + 1);
        lemma_small_mod(d0, b);
        lemma_fundamental_div_mod(a as int, b as int);
        assert(reverse_low_digits(b, d0, 1, a1) == reverse_low_digits(b, d0 / b, 0, a1 * b + d0 % b));
    }
}

/// Reversing `n` digits after an accumulator `x` shifts `x` up by `n`
/// digits, and the reversed digits alone stay below `base^n`.
proof fn lemma_reverse_low_digits_acc(b: nat, a: nat, n: nat, x: nat)
    requires
        b >= 2,
    ensures
        reverse_low_digits(b, a, n, x) == x * pow(b as int, n) + reverse_low_digits(b, a, n, 0),
        reverse_low_digits(b, a, n, 0) < pow(b as int, n),
    decreases n,
{
    if n == 0 {
        lemma_pow0(b as int);
    } else {
        let n1 = (n - 1) as nat;
        let p = pow(b as int, n1);
        lemma_pow_step(b, n1);
        let d0 = a % b;
        lemma_mod_bound(a as int, b as int);
        lemma_reverse_low_digits_acc(b, a / b, n1, x * b + d0);
        lemma_reverse_low_digits_acc(b, a / b, n1, d0);
        let rest = reverse_low_digits(b, a / b, n1, 0);
        assert((x * b + d0) * p + rest == x * (b * p) + (d0 * p + rest)) by (nonlinear_arith);
        assert(d0 * p + rest < b * p) by (nonlinear_arith)
            requires
                d0 < b,
                rest < p,
                p >= 1,
        ;
    }
}

/// `InverseRadicalInverse` undoes itself: reversing the `n` low digits of
/// a number below `base^n` gives a number below `base^n`, and reversing
/// those `n` digits again gives the number back.
pub proof fn lemma_reverse_low_digits_involution(b: nat, a: nat, n: nat)
    requires
        b >= 2,
        a < pow(b as int, n),
    ensures
        reverse_low_digits(b, a, n, 0) < pow(b as int, n),
        reverse_low_digits(b, reverse_low_digits(b, a, n, 0), n, 0) == a,
    decreases n,
{
    lemma_reverse_low_digits_acc(b, a, n, 0);
    if n == 0 {
        lemma_pow0(b as int);
    } else {
        let n1 = (n - 1) as nat;
        let bi = b as int;
        let p = pow(bi, n1);
        lemma_pow_step(b, n1);
        let d0 = a % b;
        let a1 = a / b;
        lemma_mod_bound(a as int, bi);
        lemma_fundamental_div_mod(a as int, bi);
        assert(a1 < p) by (nonlinear_arith)
            requires
                a == bi * a1 + d0,
                d0 >= 0,
                a < bi * p,
                bi >= 2,
        ;
        lemma_reverse_low_digits_involution(b, a1, n1);
        let y1 = reverse_low_digits(b, a1, n1, 0);
        lemma_reverse_low_digits_acc(b, a1, n1, d0);
        let y = reverse_low_digits(b, a, n, 0);
        assert(y == d0 * p + y1);
        // The low n - 1 digits of y are those of y1; the top digit is d0.
        lemma_fundamental_div_mod_converse(y as int, p, d0 as int, y1 as int);
        lemma_reverse_low_digits_split(b, y, n1, 1, 0);
        lemma_reverse_low_digits_mod(b, y, n1, 0);
        assert(y % (p as nat) == y1);
        assert(y / (p as nat) == d0);
        lemma_small_mod(d0, b);
        assert(reverse_low_digits(b, d0, 1, a1) == reverse_low_digits(b, d0 / b, 0, a1 * b + d0 % b));
        assert(a1 * b + d0 == a) by (nonlinear_arith)
            requires
                a == bi * a1 + d0,
                bi == b,
        ;
    }
}

/// Multiplicative inverse of `a` modulo `n`, as the magnitude of the
/// remainder of the first Bezout coefficient of `ExtendedGCD(a, n)`.
pub fn MultiplicativeInverse(a: i64, n: i64) -> (r: u64)
    requires
        egcd_fits(a as int, n as int),
        n != 0,
        !(egcd(a as int, n as int).0 == i64::MIN && n == -1),
    ensures
        r == iabs(trem(egcd(a as int, n as int).0, n as int)),
{
    let (x, _) = ExtendedGCD(a, n);
    proof {
        lemma_trunc_div_rem(x as int, n as int);
    }
    let m = x % n;
    let m = if m < 0 {
        -m
    } else {
        m
    };
    m as u64
}

/// Two greatest common divisors of the same numbers are equal.
proof fn lemma_gcd_unique(g1: int, g2: int, a: int, b: int)
    requires
        is_gcd(g1, a, b),
        is_gcd(g2, a, b),
    ensures
        g1 == g2,
{
    assert(divides(g1, g2));
    assert(divides(g2, g1));
    let k = choose|k: int| #[trigger] scaled(k, g1) == g2;
    let m = choose|k: int| #[trigger] scaled(k, g2) == g1;
    assert(g1 == g2) by (nonlinear_arith)
        requires
            g2 == k * g1,
            g1 == m * g2,
            g1 >= 0,
            g2 >= 0,
    ;
}

/// For `a >= 0` coprime to `n > 1`, `MultiplicativeInverse(a, n)` is an
/// inverse of `a` up to sign: `a * r` is `1` or `-1` modulo `n`. It is `1`
/// exactly when the Bezout coefficient `x` has a remainder modulo `n` that
/// is not negative; otherwise `a * r` is `n - 1` modulo `n`.
pub proof fn lemma_multiplicative_inverse(a: int, n: int)
    requires
        a >= 0,
        n > 1,
        is_gcd(1, a, n),
    ensures
        ({
            let x = egcd(a, n).0;
            let r = iabs(trem(x, n));
            &&& trem(x, n) >= 0 ==> (a * r) % n == 1
            &&& trem(x, n) < 0 ==> (a * r) % n == n - 1
        }),
{
    let (x, y) = egcd(a, n);
    lemma_extended_gcd_bezout(a, n);
    lemma_gcd_unique(x * a + y * n, 1, a, n);
    lemma_trunc_div_rem(x, n);
    let q = tdiv(x, n);
    let t = trem(x, n);
    if t >= 0 {
        assert(a * t == n * (-(y + a * q)) + 1) by (nonlinear_arith)
            requires
                x * a + y * n == 1,
                x == q * n + t,
        ;
        lemma_fundamental_div_mod_converse(a * t, n, -(y + a * q), 1);
    } else {
        assert(a * (-t) == n * (y + a * q - 1) + (n - 1)) by (nonlinear_arith)
            requires
                x * a + y * n == 1,
                x == q * n + t,
        ;
        lemma_fundamental_div_mod_converse(a * (-t), n, y + a * q - 1, n - 1);
    }
}

#[verifier::external_type_specification]
#[verifier::external_body]
pub struct ExThreadRng(rand::ThreadRng);

/// `rand::thread_rng`: the thread's random number generator, seeded from the
/// operating system. Nothing is stated of its state; it panics when the
/// operating system offers no entropy at all.
#[verifier::external_body]
fn thread_rng() -> rand::ThreadRng {
    rand::thread_rng()
}

/// `Rng::gen_range` on `usize`: a number drawn from `[low, high)`. Which one
/// is drawn is left open; `gen_range` panics when `low >= high`.
#[verifier::external_body]
fn gen_range(rng: &mut rand::ThreadRng, low: usize, high: usize) -> (r: usize)
    requires
        low < high,
    ensures
        low <= r < high,
{
    rng.gen_range(low, high)
}

/// Index of element `j` of block `k`, blocks being `n_dim` long and the first
/// one starting at `start`.
pub open spec fn blk(start: int, n_dim: int, k: int, j: int) -> int {
    start + n_dim * k + j
}

/// `perm` is a permutation of `0..count`.
pub open spec fn is_perm(perm: Seq<int>, count: int) -> bool {
    &&& perm.len() == count
    &&& forall|k: int| 0 <= k < count ==> 0 <= #[trigger] perm[k] < count
    &&& forall|k1: int, k2: int|
        0 <= k1 < count && 0 <= k2 < count && k1 != k2 ==> #[trigger] perm[k1] != #[trigger] perm[k2]
}

/// `new` is `old` with the `count` blocks of `n_dim` elements that start at
/// `start` rearranged by `perm` (block `k` of `new` is block `perm[k]` of
/// `old`), and every element outside those blocks left in place.
pub open spec fn blocks_permuted(
    old: Seq<usize>,
    new: Seq<usize>,
    start: int,
    count: int,
    n_dim: int,
    perm: Seq<int>,
) -> bool {
    &&& new.len() == old.len()
    &&& is_perm(perm, count)
    &&& forall|k: int, j: int|
        0 <= k < count && 0 <= j < n_dim ==> #[trigger] new[blk(start, n_dim, k, j)] == old[blk(
            start,
            n_dim,
            perm[k],
            j,
        )]
    &&& forall|t: int|
        0 <= t < new.len() && (t < start || t >= start + n_dim * count) ==> #[trigger] new[t]
            == old[t]
}

/// Blocks that come earlier end no later than later blocks start.
proof fn lemma_blocks_ordered(n: int, k1: int, k2: int)
    requires
        n > 0,
        k1 < k2,
    ensures
        n * k1 + n <= n * k2,
{
    assert(n * k1 + n <= n * k2) by (nonlinear_arith)
        requires
            n > 0,
            k1 + 1 <= k2,
    ;
}

/// Swapping two elements of a sequence keeps the multiset of its elements.
proof fn lemma_swap_keeps_multiset(s: Seq<usize>, a: int, b: int)
    requires
        0 <= a < s.len(),
        0 <= b < s.len(),
    ensures
        s.update(a, s[b]).update(b, s[a]).to_multiset() == s.to_multiset(),
{
    broadcast use vstd::seq_lib::to_multiset_update;
    broadcast use vstd::seq_lib::to_multiset_contains;
    broadcast use vstd::multiset::group_multiset_axioms;

    let m = s.to_multiset();
    assert(s.contains(s[a]));
    assert(s.contains(s[b]));
    assert(m.count(s[a]) > 0);
    let s1 = s.update(a, s[b]);
    assert(s1.to_multiset() == s.to_multiset().insert(s[b]).remove(s[a]));
    assert(s1[b] == s[b]);
    assert(s1.update(b, s[a]).to_multiset() == s1.to_multiset().insert(s[a]).remove(s[b]));
    assert forall|v: usize| #[trigger] s1.update(b, s[a]).to_multiset().count(v) == m.count(v) by {}
    assert(s1.update(b, s[a]).to_multiset() =~= s.to_multiset());
}

/// `s` with two blocks of `n_dim` elements exchanged, element by element:
/// block `k1` and block `k2`, blocks being numbered from `start`.
pub open spec fn swap_blocks(s: Seq<usize>, start: int, n_dim: int, k1: int, k2: int) -> Seq<usize> {
    Seq::new(
        s.len(),
        |t: int|
            if start + n_dim * k1 <= t < start + n_dim * k1 + n_dim {
                s[t - n_dim * k1 + n_dim * k2]
            } else if start + n_dim * k2 <= t < start + n_dim * k2 + n_dim {
                s[t - n_dim * k2 + n_dim * k1]
            } else {
                s[t]
            },
    )
}

/// `s` after the first `i` steps of a block shuffle: step `k` exchanges
/// block `k` with block `others[k]`.
pub open spec fn shuffled(s: Seq<usize>, start: int, n_dim: int, others: Seq<usize>, i: int) -> Seq<usize>
    decreases i,
{
    if i <= 0 {
        s
    } else {
        swap_blocks(shuffled(s, start, n_dim, others, i - 1), start, n_dim, i - 1, others[i - 1] as int)
    }
}

/// The block shuffle for given draws: for `i` from `0` to `count - 1`, the
/// block `i` is exchanged with the block `others[i]`, blocks being `nDim`
/// long and the first starting at `start`.
pub fn shuffle_blocks_with(s: &mut [usize], start: usize, count: usize, nDim: usize, others: &Vec<usize>)
    requires
        nDim > 0,
        count == 0 || start + nDim * count <= old(s)@.len(),
        others@.len() == count,
        forall|k: int| 0 <= k < count ==> #[trigger] others@[k] < count,
    ensures
        final(s)@ == shuffled(old(s)@, start as int, nDim as int, others@, count as int),
        exists|perm: Seq<int>|
            blocks_permuted(old(s)@, final(s)@, start as int, count as int, nDim as int, perm),
        final(s)@.to_multiset() == old(s)@.to_multiset(),
{
    let ghost s0 = s@;
    let ghost st = start as int;
    let ghost n = nDim as int;
    let ghost cnt = count as int;
    let len = s.len();
    let ghost mut perm: Seq<int> = Seq::new(count as nat, |k: int| k);
    assert(blocks_permuted(s0, s@, st, cnt, n, perm));
    for i in 0..count
        invariant
            s0 == old(s)@,
            nDim > 0,
            count == 0 || start + nDim * count <= s0.len(),
            blocks_permuted(s0, s@, st, cnt, n, perm),
            s@.to_multiset() == s0.to_multiset(),
            s@ == shuffled(s0, st, n, others@, i as int),
            others@.len() == count,
            forall|k: int| 0 <= k < count ==> #[trigger] others@[k] < count,
            st == start,
            n == nDim,
            cnt == count,
            s@.len() == len,
    {
        let other = others[i];
        let ghost pre = s@;
        let ghost bi = st + n * i;
        let ghost bo = st + n * other;
        proof {
            if i + 1 < count {
                lemma_blocks_ordered(n, i as int, cnt - 1);
            }
            if other + 1 < count {
                lemma_blocks_ordered(n, other as int, cnt - 1);
            }
            assert(bi + n <= st + n * cnt && bo + n <= st + n * cnt) by (nonlinear_arith)
                requires
                    bi == st + n * i,
                    bo == st + n * other,
                    i < cnt,
                    other < cnt,
                    n > 0,
            ;
            if i < other {
                lemma_blocks_ordered(n, i as int, other as int);
            }
            if other < i {
                lemma_blocks_ordered(n, other as int, i as int);
            }
        }
        for j in 0..nDim
            invariant
                s@.len() == pre.len(),
                pre.len() == s0.len(),
                s@.len() == len,
                bi == start + nDim * i,
                bo == start + nDim * other,
                st == start,
                n == nDim,
                bi + nDim <= s0.len(),
                bo + nDim <= s0.len(),
                forall|jj: int|
                    #![trigger blk(st, n, i as int, jj)]
                    #![trigger blk(st, n, other as int, jj)]
                    0 <= jj < j ==> s@[blk(st, n, i as int, jj)] == pre[blk(st, n, other as int, jj)]
                        && s@[blk(st, n, other as int, jj)] == pre[blk(st, n, i as int, jj)],
                forall|t: int|
                    0 <= t < s@.len() && !(bi <= t < bi + j) && !(bo <= t < bo + j) ==> s@[t]
                        == pre[t],
                i == other || bi + nDim <= bo || bo + nDim <= bi,
                s@.to_multiset() == s0.to_multiset(),
        {
            let a = start + nDim * i + j;
            let b = start + nDim * other + j;
            proof {
                lemma_swap_keeps_multiset(s@, a as int, b as int);
            }
            let t = s[a];
            s[a] = s[b];
            s[b] = t;
        }
        proof {
            assert(s@ =~= swap_blocks(pre, st, n, i as int, other as int)) by {
                assert forall|t: int| 0 <= t < s@.len() implies #[trigger] s@[t] == swap_blocks(
                    pre,
                    st,
                    n,
                    i as int,
                    other as int,
                )[t] by {
                    if bi <= t < bi + n {
                        assert(blk(st, n, i as int, t - bi) == t);
                        assert(blk(st, n, other as int, t - bi) == t - n * i + n * other);
                    } else if bo <= t < bo + n {
                        assert(blk(st, n, other as int, t - bo) == t);
                        assert(blk(st, n, i as int, t - bo) == t - n * other + n * i);
                    }
                }
            }
            assert(shuffled(s0, st, n, others@, i + 1) == swap_blocks(
                shuffled(s0, st, n, others@, i as int),
                st,
                n,
                i as int,
                others@[i as int] as int,
            ));
            let new_perm = perm.update(i as int, perm[other as int]).update(
                other as int,
                perm[i as int],
            );
            assert forall|k: int, j: int| 0 <= k < cnt && 0 <= j < n implies #[trigger] s@[blk(
                st,
                n,
                k,
                j,
            )] == s0[blk(st, n, new_perm[k], j)] by {
                if k == i {
                    assert(s@[blk(st, n, i as int, j)] == pre[blk(st, n, other as int, j)]);
                    assert(pre[blk(st, n, other as int, j)] == s0[blk(st, n, perm[other as int], j)]);
                    assert(new_perm[k] == perm[other as int]);
                } else if k == other {
                    assert(s@[blk(st, n, other as int, j)] == pre[blk(st, n, i as int, j)]);
                    assert(pre[blk(st, n, i as int, j)] == s0[blk(st, n, perm[i as int], j)]);
                    assert(new_perm[k] == perm[i as int]);
                } else {
                    if k < i {
                        lemma_blocks_ordered(n, k, i as int);
                    } else {
                        lemma_blocks_ordered(n, i as int, k);
                    }
                    if k < other {
                        lemma_blocks_ordered(n, k, other as int);
                    } else {
                        lemma_blocks_ordered(n, other as int, k);
                    }
                    if k + 1 < cnt {
                        lemma_blocks_ordered(n, k, cnt - 1);
                    }
                    assert(n * k + n <= n * cnt) by (nonlinear_arith)
                        requires
                            n > 0,
                            k < cnt,
                    ;
                    let t = blk(st, n, k, j);
                    assert(0 <= t < s@.len());
                    assert(!(bi <= t < bi + n) && !(bo <= t < bo + n));
                    assert(s@[t] == pre[t]);
                    assert(pre[blk(st, n, k, j)] == s0[blk(st, n, perm[k], j)]);
                    assert(new_perm[k] == perm[k]);
                }
            }
            assert(is_perm(new_perm, cnt));
            assert(n * i >= 0 && n * other >= 0) by (nonlinear_arith)
                requires
                    n > 0,
                    i >= 0,
                    other >= 0,
            ;
            assert forall|t: int|
                0 <= t < s@.len() && (t < st || t >= st + n * cnt) implies #[trigger] s@[t]
                == s0[t] by {
                assert(s@[t] == pre[t]);
            }
            perm = new_perm;
        }
    }
}

/// Shuffle blocks of values of size `nDim`: the `count` blocks starting at
/// index `start` are rearranged in a random order; nothing else moves. Step
/// `i` exchanges block `i` with a block drawn at random from `i` to
/// `count - 1`.
pub fn Shuffle(s: &mut [usize], start: usize, count: usize, nDim: usize)
    requires
        nDim > 0,
        start % nDim == 0,
        count == 0 || start + nDim * count <= old(s)@.len(),
    ensures
        exists|others: Seq<usize>|
            {
                &&& others.len() == count
                &&& forall|k: int| 0 <= k < count ==> k <= #[trigger] others[k] < count
                &&& final(s)@ == shuffled(old(s)@, start as int, nDim as int, others, count as int)
            },
        exists|perm: Seq<int>|
            blocks_permuted(old(s)@, final(s)@, start as int, count as int, nDim as int, perm),
        final(s)@.to_multiset() == old(s)@.to_multiset(),
{
    let mut rng = thread_rng();
    let mut others: Vec<usize> = Vec::new();
    for i in 0..count
        invariant
            others@.len() == i,
            forall|k: int| 0 <= k < i ==> k <= #[trigger] others@[k] < count,
    {
        let other = gen_range(&mut rng, i, count);
        others.push(other);
    }
    shuffle_blocks_with(s, start, count, nDim, &others);
}

/// Max resolution of one tile.
pub const K_MAX_RESOLUTION: u32 = 128;

/// Index of the first dimension that sample arrays take: dimensions 0 to 3
/// are the film position and the lens position.
pub const ARRAY_START_DIM: usize = 4;

/// State of a Halton sampler: which pixel and sample it is at, the sample
/// arrays requested of it, the dimensions it has handed out, and the scales
/// that map a pixel to the indices of its samples in the Halton sequence.
/// Every sample value is held as the exact fraction `(numerator,
/// denominator)` of its radical inverse.
pub struct HaltonSampler {
    pub samplesPerPixel: usize,
    pub currentPixel: Point2<u32>,
    pub currentPixelSampleIndex: usize,
    pub sampleArray1D: Vec<Vec<(u32, u32)>>,
    pub sampleArray2D: Vec<Vec<((u32, u32), (u32, u32))>>,
    // Next 1d array to be returned
    pub array1DOffset: usize,
    // Next 2d array to be returned
    pub array2DOffset: usize,
    // Next dimension
    pub dimension: usize,
    // Index of sample in current pixel
    pub intervalSampleIndex: usize,
    pub arrayEndDim: usize,
    pub baseScale: Point2<u32>,
    pub baseExp: Point2<u32>,
    pub sampleStride: usize,
    pub pixelForOffset: Point2<u32>,
    // First sample in the currentPixel
    pub offsetForCurrentPixel: usize,
    pub multiInverse: [usize; 2],
}

/// Digits of a pixel coordinate reversed, as `GetIndexForSample` uses them:
/// the coordinate modulo the tile resolution, reversed in `n` digits of
/// `base`.
pub open spec fn pixel_digits(base: nat, coordinate: u32, n: u32) -> nat {
    reverse_low_digits(base, (coordinate % 128) as nat, n as nat, 0)
}

/// The two terms that `GetIndexForSample` adds up for the current pixel.
pub open spec fn offset_terms(h: HaltonSampler) -> (int, int) {
    (
        pixel_digits(2, h.currentPixel.x, h.baseExp.x) * (h.sampleStride as int / (h.baseExp.x as int))
            * h.multiInverse[0],
        pixel_digits(3, h.currentPixel.y, h.baseExp.y) * (h.sampleStride as int / (h.baseExp.y as int))
            * h.multiInverse[1],
    )
}

/// Index in the Halton sequence of the first sample of the current pixel.
pub open spec fn pixel_offset(h: HaltonSampler) -> int {
    if h.sampleStride > 1 {
        (offset_terms(h).0 + offset_terms(h).1) % (h.sampleStride as int)
    } else {
        0
    }
}

/// The arithmetic of `GetIndexForSample` for the current pixel fits in the
/// machine integers: the exponents are not zero, the reversed digits fit in
/// `u32`, and the products and their sum fit in `usize`.
pub open spec fn pixel_offset_fits(h: HaltonSampler) -> bool {
    h.sampleStride > 1 ==> {
        &&& h.baseExp.x >= 1
        &&& h.baseExp.y >= 1
        &&& pixel_digits(2, h.currentPixel.x, h.baseExp.x) <= u32::MAX
        &&& pixel_digits(3, h.currentPixel.y, h.baseExp.y) <= u32::MAX
        &&& pixel_digits(2, h.currentPixel.x, h.baseExp.x) * (h.sampleStride as int / (h.baseExp.x as int))
            <= usize::MAX
        &&& pixel_digits(3, h.currentPixel.y, h.baseExp.y) * (h.sampleStride as int / (h.baseExp.y as int))
            <= usize::MAX
        &&& offset_terms(h).0 <= usize::MAX
        &&& offset_terms(h).1 <= usize::MAX
        &&& offset_terms(h).0 + offset_terms(h).1 <= usize::MAX
    }
}

/// The pixel whose offset is cached is the current pixel.
pub open spec fn same_pixel(a: Point2<u32>, b: Point2<u32>) -> bool {
    a.x == b.x && a.y == b.y
}

/// The offset that `GetIndexForSample` uses: the cached one when it was
/// computed for the current pixel, else the current pixel's.
pub open spec fn offset_in_use(h: HaltonSampler) -> int {
    if same_pixel(h.pixelForOffset, h.currentPixel) {
        h.offsetForCurrentPixel as int
    } else {
        pixel_offset(h)
    }
}

/// The cached offset, when it belongs to the current pixel, is that pixel's
/// offset.
pub open spec fn cache_valid(h: HaltonSampler) -> bool {
    same_pixel(h.pixelForOffset, h.currentPixel) ==> h.offsetForCurrentPixel == pixel_offset(h)
}

/// Argument of the radical inverse that gives dimension `d` of the sample
/// with Halton index `index`: the first two dimensions undo the scaling of
/// the pixel grid.
pub open spec fn sample_arg(h: HaltonSampler, index: usize, d: usize) -> u32 {
    let index = index as u32;
    let d = d as u32;
    if d == 0 {
        index >> h.baseExp.x
    } else if d == 1 {
        (index / h.baseScale.y) as u32
    } else {
        index
    }
}

/// `SampleDimension(index, d)` does not panic: the dimension has a prime
/// base, the shift and the division are defined, and the radical inverse
/// fits in `u32`.
pub open spec fn sample_dimension_ok(h: HaltonSampler, index: usize, d: usize) -> bool {
    &&& (d as u32) < 1024
    &&& (d as u32) == 0 ==> h.baseExp.x < 32
    &&& (d as u32) == 1 ==> h.baseScale.y > 0
    &&& sample_arg(h, index, d) == 0 || digit_scale(prime_at((d as u32) as int), sample_arg(h, index, d) as nat)
        <= u32::MAX
}

/// Dimension `d` of the sample with Halton index `index`, as the exact
/// fraction `(numerator, denominator)` of a radical inverse.
pub open spec fn dim_fraction(h: HaltonSampler, index: usize, d: usize) -> (nat, nat) {
    (
        reverse_digits(prime_at((d as u32) as int), sample_arg(h, index, d) as nat, 0),
        digit_scale(prime_at((d as u32) as int), sample_arg(h, index, d) as nat),
    )
}

/// The dimension that `Get1D` samples: the dimensions that sample arrays
/// use are skipped.
pub open spec fn next_1d_dim(h: HaltonSampler) -> int {
    (if ARRAY_START_DIM <= h.dimension <= h.arrayEndDim {
        h.arrayEndDim
    } else {
        h.dimension
    }) + 1
}

/// The first of the two dimensions that `Get2D` samples.
pub open spec fn next_2d_dim(h: HaltonSampler) -> int {
    if ARRAY_START_DIM <= h.dimension + 1 <= h.arrayEndDim {
        h.arrayEndDim as int
    } else {
        h.dimension as int
    }
}

impl HaltonSampler {
    /// Dimension `d` of the sample with Halton index `index`, as the exact
    /// fraction of its radical inverse.
    pub fn SampleDimension(&self, index: usize, d: usize) -> (r: (u32, u32))
        requires
            sample_dimension_ok(*self, index, d),
        ensures
            r.0 == dim_fraction(*self, index, d).0,
            r.1 == dim_fraction(*self, index, d).1,
    {
        let index = index as u32;
        let d = d as u32;
        match d {
            0 => RadicalInverse(0, index >> self.baseExp.x),
            1 => RadicalInverse(1, index / self.baseScale.y),
            _ => RadicalInverse(d, index),
        }
    }

    /// Start next sample of current pixel.
    /// Return false if requested samples per pixel have been generated.
    pub fn StartNextSample(&mut self) -> (r: bool)
        requires
            old(self).currentPixelSampleIndex + 2 <= usize::MAX,
            same_pixel(old(self).pixelForOffset, old(self).currentPixel) || pixel_offset_fits(*old(self)),
            offset_in_use(*old(self)) + (old(self).currentPixelSampleIndex + 2) * old(self).sampleStride
                <= usize::MAX,
        ensures
            final(self).currentPixelSampleIndex == old(self).currentPixelSampleIndex + 1,
            final(self).array1DOffset == 0,
            final(self).array2DOffset == 0,
            final(self).dimension == 0,
            final(self).intervalSampleIndex == offset_in_use(*old(self)) + (
            old(self).currentPixelSampleIndex + 2) * old(self).sampleStride,
            final(self).offsetForCurrentPixel == offset_in_use(*old(self)),
            same_pixel(final(self).pixelForOffset, final(self).currentPixel),
            r == (final(self).currentPixelSampleIndex < final(self).samplesPerPixel),
            *final(self) == (HaltonSampler {
                currentPixelSampleIndex: final(self).currentPixelSampleIndex,
                array1DOffset: 0,
                array2DOffset: 0,
                dimension: 0,
                intervalSampleIndex: final(self).intervalSampleIndex,
                offsetForCurrentPixel: final(self).offsetForCurrentPixel,
                pixelForOffset: final(self).pixelForOffset,
                ..*old(self)
            }),
    {
        self.currentPixelSampleIndex += 1;
        self.array1DOffset = 0;
        self.array2DOffset = 0;

        self.dimension = 0;
        self.intervalSampleIndex = {
            let nextPixelSampleIndex = self.currentPixelSampleIndex + 1;
            self.GetIndexForSample(nextPixelSampleIndex)
        };

        return self.currentPixelSampleIndex < self.samplesPerPixel;
    }

    /// Next dimension of the current sample, skipping the dimensions that
    /// sample arrays use.
    pub fn Get1D(&mut self) -> (r: (u32, u32))
        requires
            next_1d_dim(*old(self)) <= usize::MAX,
            sample_dimension_ok(*old(self), old(self).intervalSampleIndex, next_1d_dim(*old(self)) as usize),
        ensures
            final(self).dimension == next_1d_dim(*old(self)),
            *final(self) == (HaltonSampler { dimension: final(self).dimension, ..*old(self) }),
            r.0 == dim_fraction(*old(self), old(self).intervalSampleIndex, final(self).dimension).0,
            r.1 == dim_fraction(*old(self), old(self).intervalSampleIndex, final(self).dimension).1,
    {
        if ARRAY_START_DIM <= self.dimension && self.dimension <= self.arrayEndDim {
            self.dimension = self.arrayEndDim;
        }
        self.dimension += 1;
        return self.SampleDimension(self.intervalSampleIndex, self.dimension);
    }

    /// Next two dimensions of the current sample, skipping the dimensions
    /// that sample arrays use.
    pub fn Get2D(&mut self) -> (r: ((u32, u32), (u32, u32)))
        requires
            next_2d_dim(*old(self)) + 2 <= usize::MAX,
            sample_dimension_ok(*old(self), old(self).intervalSampleIndex, next_2d_dim(*old(self)) as usize),
            sample_dimension_ok(
                *old(self),
                old(self).intervalSampleIndex,
                (next_2d_dim(*old(self)) + 1) as usize,
            ),
        ensures
            final(self).dimension == next_2d_dim(*old(self)) + 2,
            *final(self) == (HaltonSampler { dimension: final(self).dimension, ..*old(self) }),
            ({
                let d = next_2d_dim(*old(self)) as usize;
                let i = old(self).intervalSampleIndex;
                &&& r.0.0 == dim_fraction(*old(self), i, d).0
                &&& r.0.1 == dim_fraction(*old(self), i, d).1
                &&& r.1.0 == dim_fraction(*old(self), i, (d + 1) as usize).0
                &&& r.1.1 == dim_fraction(*old(self), i, (d + 1) as usize).1
            }),
    {
        if ARRAY_START_DIM <= self.dimension + 1 && self.dimension + 1 <= self.arrayEndDim {
            self.dimension = self.arrayEndDim;
        }
        let p = (
            self.SampleDimension(self.intervalSampleIndex, self.dimension),
            self.SampleDimension(self.intervalSampleIndex, self.dimension + 1),
        );
        self.dimension += 2;
        return p;
    }

    /// Index in the Halton sequence of sample `sampleNum` of the current
    /// pixel; the first sample's index is computed once per pixel and
    /// cached.
    pub fn GetIndexForSample(&mut self, sampleNum: usize) -> (r: usize)
        requires
            same_pixel(old(self).pixelForOffset, old(self).currentPixel) || pixel_offset_fits(*old(self)),
            offset_in_use(*old(self)) + sampleNum * old(self).sampleStride <= usize::MAX,
        ensures
            final(self).offsetForCurrentPixel == offset_in_use(*old(self)),
            same_pixel(final(self).pixelForOffset, final(self).currentPixel),
            r == offset_in_use(*old(self)) + sampleNum * old(self).sampleStride,
            cache_valid(*old(self)) ==> cache_valid(*final(self)) && r == pixel_offset(*old(self))
                + sampleNum * old(self).sampleStride,
            *final(self) == (HaltonSampler {
                offsetForCurrentPixel: final(self).offsetForCurrentPixel,
                pixelForOffset: final(self).pixelForOffset,
                ..*old(self)
            }),
    {
        if self.pixelForOffset.x != self.currentPixel.x || self.pixelForOffset.y != self.currentPixel.y {
            self.offsetForCurrentPixel = 0;
            if self.sampleStride > 1 {
                let pm = Point2::new(
                    self.currentPixel.x % K_MAX_RESOLUTION,
                    self.currentPixel.y % K_MAX_RESOLUTION,
                );
                self.offsetForCurrentPixel = self.offsetForCurrentPixel + {
                    let dimOffset = InverseRadicalInverse(2, pm.x, self.baseExp.x);
                    dimOffset * (self.sampleStride / self.baseExp.x as usize) * self.multiInverse[0]
                };
                self.offsetForCurrentPixel = self.offsetForCurrentPixel + {
                    let dimOffset = InverseRadicalInverse(3, pm.y, self.baseExp.y);
                    dimOffset * (self.sampleStride / self.baseExp.y as usize) * self.multiInverse[1]
                };
                self.offsetForCurrentPixel = self.offsetForCurrentPixel % self.sampleStride;
            }
            self.pixelForOffset = self.currentPixel;
        }
        proof {
            assert(self.offsetForCurrentPixel == offset_in_use(*old(self)));
            assert(sampleNum * self.sampleStride <= usize::MAX) by (nonlinear_arith)
                requires
                    self.offsetForCurrentPixel + sampleNum * self.sampleStride <= usize::MAX,
                    self.offsetForCurrentPixel >= 0,
            ;
        }
        return self.offsetForCurrentPixel + sampleNum * self.sampleStride;
    }
}

/// Dimension `d` of the sample with Halton index `index`, as the pair of
/// machine integers that `SampleDimension` returns.
pub open spec fn dim_value(h: HaltonSampler, index: usize, d: usize) -> (u32, u32) {
    (dim_fraction(h, index, d).0 as u32, dim_fraction(h, index, d).1 as u32)
}

/// The sampler moved to pixel `p`, with nothing else changed.
pub open spec fn at_pixel(h: HaltonSampler, p: Point2<u32>) -> HaltonSampler {
    HaltonSampler { currentPixel: p, ..h }
}

/// The last dimension that the sample arrays take, plus one: each 1D array
/// takes one dimension and each 2D array two, after the first four.
pub open spec fn array_end_dim(h: HaltonSampler) -> int {
    ARRAY_START_DIM + h.sampleArray1D@.len() + 2 * h.sampleArray2D@.len()
}

/// Number of values that `StartPixel` computes for a 1D array of length `len`.
pub open spec fn n_filled(h: HaltonSampler, len: int) -> int {
    len * h.samplesPerPixel
}

/// Halton index of the `j`-th sample of a pixel whose first sample has
/// index `o`.
pub open spec fn index_of(h: HaltonSampler, o: int, j: int) -> int {
    o + j * h.sampleStride
}

/// Dimension of the `i`-th 2D array's first value.
pub open spec fn dim_2d(h: HaltonSampler, i: int) -> int {
    ARRAY_START_DIM + h.sampleArray1D@.len() + 2 * i
}

/// `StartPixel` can fill the sample arrays of `h` when the first sample of
/// the pixel has index `o`: the values it computes fit in each array, and
/// every index and dimension it asks for is defined.
pub open spec fn arrays_fillable(h: HaltonSampler, o: int) -> bool {
    &&& array_end_dim(h) <= usize::MAX
    &&& forall|i: int|
        0 <= i < h.sampleArray1D@.len() ==> {
            let len = #[trigger] h.sampleArray1D@[i]@.len() as int;
            &&& n_filled(h, len) <= len
            &&& forall|j: int|
                0 <= j < n_filled(h, len) ==> {
                    &&& #[trigger] index_of(h, o, j) <= usize::MAX
                    &&& sample_dimension_ok(h, index_of(h, o, j) as usize, (ARRAY_START_DIM + i) as usize)
                }
        }
    &&& forall|i: int|
        0 <= i < h.sampleArray2D@.len() ==> {
            let len = #[trigger] h.sampleArray2D@[i]@.len() as int;
            &&& n_filled(h, len) <= len
            &&& forall|j: int|
                0 <= j < n_filled(h, len) ==> {
                    &&& #[trigger] index_of(h, o, j) <= usize::MAX
                    &&& sample_dimension_ok(h, index_of(h, o, j) as usize, dim_2d(h, i) as usize)
                    &&& sample_dimension_ok(h, index_of(h, o, j) as usize, (dim_2d(h, i) + 1) as usize)
                }
        }
}

/// The 1D arrays of `after` hold the values of the pixel whose first sample
/// has index `o` where `StartPixel` computes them, up to entry `jdone` of
/// array `upto`, and the values of `before` elsewhere.
pub open spec fn filled_1d(before: HaltonSampler, after: HaltonSampler, o: int, upto: int, jdone: int) -> bool {
    &&& after.sampleArray1D@.len() == before.sampleArray1D@.len()
    &&& forall|i: int|
        0 <= i < before.sampleArray1D@.len() ==> {
            let row = #[trigger] after.sampleArray1D@[i]@;
            let old_row = before.sampleArray1D@[i]@;
            &&& row.len() == old_row.len()
            &&& forall|j: int|
                0 <= j < row.len() ==> #[trigger] row[j] == if (i < upto && j < n_filled(before, old_row.len() as int))
                    || (i == upto && j < jdone) {
                    dim_value(before, index_of(before, o, j) as usize, (ARRAY_START_DIM + i) as usize)
                } else {
                    old_row[j]
                }
        }
}

/// The 2D arrays of `after` hold the values of the pixel whose first sample
/// has index `o` where `StartPixel` computes them, up to entry `jdone` of
/// array `upto`, and the values of `before` elsewhere.
pub open spec fn filled_2d(before: HaltonSampler, after: HaltonSampler, o: int, upto: int, jdone: int) -> bool {
    &&& after.sampleArray2D@.len() == before.sampleArray2D@.len()
    &&& forall|i: int|
        0 <= i < before.sampleArray2D@.len() ==> {
            let row = #[trigger] after.sampleArray2D@[i]@;
            let old_row = before.sampleArray2D@[i]@;
            &&& row.len() == old_row.len()
            &&& forall|j: int|
                0 <= j < row.len() ==> #[trigger] row[j] == if (i < upto && j < n_filled(before, old_row.len() as int))
                    || (i == upto && j < jdone) {
                    (
                        dim_value(before, index_of(before, o, j) as usize, dim_2d(before, i) as usize),
                        dim_value(before, index_of(before, o, j) as usize, (dim_2d(before, i) + 1) as usize),
                    )
                } else {
                    old_row[j]
                }
        }
}

/// The state that `StartPixel` works in while it fills the arrays: the
/// sampler at pixel `p`, with the sample number and the array offsets reset;
/// only the arrays and the cached offset change from it.
pub open spec fn filling_state(
    before: HaltonSampler,
    p: Point2<u32>,
    h: HaltonSampler,
) -> bool {
    &&& h == (HaltonSampler {
        sampleArray1D: h.sampleArray1D,
        sampleArray2D: h.sampleArray2D,
        pixelForOffset: h.pixelForOffset,
        offsetForCurrentPixel: h.offsetForCurrentPixel,
        currentPixelSampleIndex: 0,
        array1DOffset: 0,
        array2DOffset: 0,
        ..at_pixel(before, p)
    })
    &&& same_pixel(h.pixelForOffset, p) || pixel_offset_fits(h)
    &&& offset_in_use(h) == offset_in_use(at_pixel(before, p))
}

impl HaltonSampler {
    /// Move to pixel `p`: reset the sample number, the dimensions and the
    /// array offsets, and compute the values of the sample arrays for the
    /// pixel.
    pub fn StartPixel(&mut self, p: Point2<u32>)
        requires
            same_pixel(old(self).pixelForOffset, p) || pixel_offset_fits(at_pixel(*old(self), p)),
            arrays_fillable(*old(self), offset_in_use(at_pixel(*old(self), p))),
        ensures
            ({
                let o = offset_in_use(at_pixel(*old(self), p));
                &&& final(self).intervalSampleIndex == o
                &&& final(self).offsetForCurrentPixel == o
                &&& same_pixel(final(self).pixelForOffset, p)
                &&& final(self).arrayEndDim == array_end_dim(*old(self))
                &&& filled_1d(*old(self), *final(self), o, old(self).sampleArray1D@.len() as int, 0)
                &&& filled_2d(*old(self), *final(self), o, old(self).sampleArray2D@.len() as int, 0)
                &&& *final(self) == (HaltonSampler {
                    currentPixel: p,
                    currentPixelSampleIndex: 0,
                    array1DOffset: 0,
                    array2DOffset: 0,
                    dimension: 0,
                    intervalSampleIndex: final(self).intervalSampleIndex,
                    arrayEndDim: final(self).arrayEndDim,
                    offsetForCurrentPixel: final(self).offsetForCurrentPixel,
                    pixelForOffset: final(self).pixelForOffset,
                    sampleArray1D: final(self).sampleArray1D,
                    sampleArray2D: final(self).sampleArray2D,
                    ..*old(self)
                })
            }),
    {
        let ghost before = *old(self);
        let ghost o = offset_in_use(at_pixel(before, p));
        // General sampler
        self.currentPixel = p;
        self.currentPixelSampleIndex = 0;
        self.array1DOffset = 0;
        self.array2DOffset = 0;
        assert(filled_1d(before, *self, o, 0, 0));

        // Compute 1D array samples
        let n1 = self.sampleArray1D.len();
        let mut i: usize = 0;
        while i < n1
            invariant
                0 <= i <= n1,
                n1 == before.sampleArray1D@.len(),
                o == offset_in_use(at_pixel(before, p)),
                arrays_fillable(before, o),
                filling_state(before, p, *self),
                self.sampleArray2D == before.sampleArray2D,
                filled_1d(before, *self, o, i as int, 0),
            decreases n1 - i,
        {
            let ghost len = before.sampleArray1D@[i as int]@.len() as int;
            assert(self.sampleArray1D@[i as int]@.len() == len);
            let n_sample = self.sampleArray1D[i].len() * self.samplesPerPixel;
            let mut j: usize = 0;
            while j < n_sample
                invariant
                    0 <= i < n1,
                    0 <= j <= n_sample,
                    n1 == before.sampleArray1D@.len(),
                    len == before.sampleArray1D@[i as int]@.len(),
                    n_sample == n_filled(before, len),
                    n_sample <= len,
                    o == offset_in_use(at_pixel(before, p)),
                    arrays_fillable(before, o),
                    filling_state(before, p, *self),
                    self.sampleArray2D == before.sampleArray2D,
                    filled_1d(before, *self, o, i as int, j as int),
                decreases n_sample - j,
            {
                assert(index_of(before, o, j as int) <= usize::MAX);
                let index = self.GetIndexForSample(j);
                let v = self.SampleDimension(index, ARRAY_START_DIM + i);
                let ghost prev = *self;
                self.sampleArray1D[i][j] = v;
                assert(filled_1d(before, *self, o, i as int, j + 1)) by {
                    assert forall|k: int| 0 <= k < before.sampleArray1D@.len() implies {
                        let row = #[trigger] self.sampleArray1D@[k]@;
                        let old_row = before.sampleArray1D@[k]@;
                        &&& row.len() == old_row.len()
                        &&& forall|jj: int|
                            0 <= jj < row.len() ==> #[trigger] row[jj] == if (k < i && jj < n_filled(before, old_row.len() as int))
                                || (k == i && jj < j + 1) {
                                dim_value(before, index_of(before, o, jj) as usize, (ARRAY_START_DIM + k) as usize)
                            } else {
                                old_row[jj]
                            }
                    } by {
                        assert(prev.sampleArray1D@[k]@.len() == before.sampleArray1D@[k]@.len());
                    }
                }
                j += 1;
            }
            assert(filled_1d(before, *self, o, i + 1, 0)) by {
                assert forall|k: int| 0 <= k < before.sampleArray1D@.len() implies {
                    let row = #[trigger] self.sampleArray1D@[k]@;
                    let old_row = before.sampleArray1D@[k]@;
                    forall|jj: int|
                        0 <= jj < row.len() ==> #[trigger] row[jj] == if (k < i + 1 && jj < n_filled(before, old_row.len() as int))
                            || (k == i + 1 && jj < 0) {
                            dim_value(before, index_of(before, o, jj) as usize, (ARRAY_START_DIM + k) as usize)
                        } else {
                            old_row[jj]
                        }
                } by {
                    let row = self.sampleArray1D@[k]@;
                    assert(row.len() == before.sampleArray1D@[k]@.len());
                }
            }
            i += 1;
        }
        assert(filled_1d(before, *self, o, n1 as int, 0));

        // Compute 2D array samples
        let n2 = self.sampleArray2D.len();
        let mut dim = ARRAY_START_DIM + n1;
        let mut i: usize = 0;
        while i < n2
            invariant
                0 <= i <= n2,
                n1 == before.sampleArray1D@.len(),
                n2 == before.sampleArray2D@.len(),
                dim == dim_2d(before, i as int),
                o == offset_in_use(at_pixel(before, p)),
                arrays_fillable(before, o),
                filling_state(before, p, *self),
                filled_1d(before, *self, o, n1 as int, 0),
                filled_2d(before, *self, o, i as int, 0),
            decreases n2 - i,
        {
            let ghost len = before.sampleArray2D@[i as int]@.len() as int;
            assert(self.sampleArray2D@[i as int]@.len() == len);
            let n_sample = self.sampleArray2D[i].len() * self.samplesPerPixel;
            let mut j: usize = 0;
            while j < n_sample
                invariant
                    0 <= i < n2,
                    0 <= j <= n_sample,
                    n1 == before.sampleArray1D@.len(),
                    n2 == before.sampleArray2D@.len(),
                    dim == dim_2d(before, i as int),
                    len == before.sampleArray2D@[i as int]@.len(),
                    n_sample == n_filled(before, len),
                    n_sample <= len,
                    o == offset_in_use(at_pixel(before, p)),
                    arrays_fillable(before, o),
                    filling_state(before, p, *self),
                    filled_1d(before, *self, o, n1 as int, 0),
                    filled_2d(before, *self, o, i as int, j as int),
                decreases n_sample - j,
            {
                assert(index_of(before, o, j as int) <= usize::MAX);
                let index = self.GetIndexForSample(j);
                let a = self.SampleDimension(index, dim);
                let b = self.SampleDimension(index, dim + 1);
                let ghost prev = *self;
                self.sampleArray2D[i][j] = (a, b);
                assert(filled_2d(before, *self, o, i as int, j + 1)) by {
                    assert forall|k: int| 0 <= k < before.sampleArray2D@.len() implies {
                        let row = #[trigger] self.sampleArray2D@[k]@;
                        let old_row = before.sampleArray2D@[k]@;
                        &&& row.len() == old_row.len()
                        &&& forall|jj: int|
                            0 <= jj < row.len() ==> #[trigger] row[jj] == if (k < i && jj < n_filled(before, old_row.len() as int))
                                || (k == i && jj < j + 1) {
                                (
                                    dim_value(before, index_of(before, o, jj) as usize, dim_2d(before, k) as usize),
                                    dim_value(before, index_of(before, o, jj) as usize, (dim_2d(before, k) + 1) as usize),
                                )
                            } else {
                                old_row[jj]
                            }
                    } by {
                        assert(prev.sampleArray2D@[k]@.len() == before.sampleArray2D@[k]@.len());
                    }
                }
                j += 1;
            }
            assert(filled_2d(before, *self, o, i + 1, 0)) by {
                assert forall|k: int| 0 <= k < before.sampleArray2D@.len() implies {
                    let row = #[trigger] self.sampleArray2D@[k]@;
                    let old_row = before.sampleArray2D@[k]@;
                    forall|jj: int|
                        0 <= jj < row.len() ==> #[trigger] row[jj] == if (k < i + 1 && jj < n_filled(before, old_row.len() as int))
                            || (k == i + 1 && jj < 0) {
                            (
                                dim_value(before, index_of(before, o, jj) as usize, dim_2d(before, k) as usize),
                                dim_value(before, index_of(before, o, jj) as usize, (dim_2d(before, k) + 1) as usize),
                            )
                        } else {
                            old_row[jj]
                        }
                } by {
                    let row = self.sampleArray2D@[k]@;
                    assert(row.len() == before.sampleArray2D@[k]@.len());
                }
            }
            dim += 2;
            i += 1;
        }

        // Global sampler
        self.dimension = 0;
        self.intervalSampleIndex = self.GetIndexForSample(0);
        self.arrayEndDim = ARRAY_START_DIM + n1 + n2 * 2;
    }
}

impl HaltonSampler {
    /// Request an array of `n` 1D samples for each sample of a pixel. The
    /// array that is added is empty: its storage is only reserved.
    pub fn Req1DArray(&mut self, n: usize)
        requires
            n * old(self).samplesPerPixel <= usize::MAX,
        ensures
            final(self).sampleArray1D@.len() == old(self).sampleArray1D@.len() + 1,
            forall|k: int|
                0 <= k < old(self).sampleArray1D@.len() ==> #[trigger] final(self).sampleArray1D@[k]
                    == old(self).sampleArray1D@[k],
            final(self).sampleArray1D@.last()@.len() == 0,
            *final(self) == (HaltonSampler { sampleArray1D: final(self).sampleArray1D, ..*old(self) }),
    {
        self.sampleArray1D.push(Vec::with_capacity(n * self.samplesPerPixel));
    }

    /// Request an array of `n` 2D samples for each sample of a pixel. The
    /// array that is added is empty: its storage is only reserved.
    pub fn Req2DArray(&mut self, n: usize)
        requires
            n * old(self).samplesPerPixel <= usize::MAX,
        ensures
            final(self).sampleArray2D@.len() == old(self).sampleArray2D@.len() + 1,
            forall|k: int|
                0 <= k < old(self).sampleArray2D@.len() ==> #[trigger] final(self).sampleArray2D@[k]
                    == old(self).sampleArray2D@[k],
            final(self).sampleArray2D@.last()@.len() == 0,
            *final(self) == (HaltonSampler { sampleArray2D: final(self).sampleArray2D, ..*old(self) }),
    {
        self.sampleArray2D.push(Vec::with_capacity(n * self.samplesPerPixel));
    }

    /// The next requested 1D array's `n` values for the current sample, or
    /// `None` when every requested array has been handed out.
    pub fn Get1DArray(&mut self, n: usize) -> (r: Option<&[(u32, u32)]>)
        requires
            old(self).array1DOffset <= old(self).sampleArray1D@.len(),
            old(self).array1DOffset < old(self).sampleArray1D@.len() ==> {
                let row = old(self).sampleArray1D@[old(self).array1DOffset as int]@;
                &&& row.len() == n
                &&& old(self).currentPixelSampleIndex < old(self).samplesPerPixel
                &&& old(self).currentPixelSampleIndex * n + n <= row.len()
            },
        ensures
            old(self).array1DOffset == old(self).sampleArray1D@.len() ==> r is None && *final(self)
                == *old(self),
            old(self).array1DOffset < old(self).sampleArray1D@.len() ==> {
                let row = old(self).sampleArray1D@[old(self).array1DOffset as int]@;
                let i0 = old(self).currentPixelSampleIndex * n;
                &&& r is Some
                &&& r->0@ == row.subrange(i0 as int, i0 + n)
                &&& *final(self) == (HaltonSampler {
                    array1DOffset: (old(self).array1DOffset + 1) as usize,
                    ..*old(self)
                })
            },
    {
        if self.array1DOffset == self.sampleArray1D.len() {
            return None;
        }
        let ret = {
            let i0 = self.currentPixelSampleIndex * n;
            let i1 = i0 + n;
            Some(&self.sampleArray1D[self.array1DOffset][i0..i1])
        };
        self.array1DOffset += 1;
        return ret;
    }
    /// The next requested 2D array's `n` values for the current sample, or
    /// `None` when every requested array has been handed out.
    pub fn Get2DArray(&mut self, n: usize) -> (r: Option<&[((u32, u32), (u32, u32))]>)
        requires
            old(self).array2DOffset <= old(self).sampleArray2D@.len(),
            old(self).array2DOffset < old(self).sampleArray2D@.len() ==> {
                let row = old(self).sampleArray2D@[old(self).array2DOffset as int]@;
                &&& row.len() == n
                &&& old(self).currentPixelSampleIndex < old(self).samplesPerPixel
                &&& old(self).currentPixelSampleIndex * n + n <= row.len()
            },
        ensures
            old(self).array2DOffset == old(self).sampleArray2D@.len() ==> r is None && *final(self)
                == *old(self),
            old(self).array2DOffset < old(self).sampleArray2D@.len() ==> {
                let row = old(self).sampleArray2D@[old(self).array2DOffset as int]@;
                let i0 = old(self).currentPixelSampleIndex * n;
                &&& r is Some
                &&& r->0@ == row.subrange(i0 as int, i0 + n)
                &&& *final(self) == (HaltonSampler {
                    array2DOffset: (old(self).array2DOffset + 1) as usize,
                    ..*old(self)
                })
            },
    {
        if self.array2DOffset == self.sampleArray2D.len() {
            return None;
        }
        let ret = {
            let i0 = self.currentPixelSampleIndex * n;
            let i1 = i0 + n;
            Some(&self.sampleArray2D[self.array2DOffset][i0..i1])
        };
        self.array2DOffset += 1;
        return ret;
    }
}

/// Reversing the digits that `GetIndexForSample` takes for a pixel
/// coordinate gives back the coordinate within its tile, that is modulo
/// `K_MAX_RESOLUTION`, to as many digits as the scale has; the digits stay
/// below `base^n`.
pub proof fn lemma_pixel_digits_recover(base: nat, coordinate: u32, n: u32)
    requires
        base >= 2,
    ensures
        pixel_digits(base, coordinate, n) < pow(base as int, n as nat),
        reverse_low_digits(base, pixel_digits(base, coordinate, n), n as nat, 0) == (coordinate
            % K_MAX_RESOLUTION) as int % pow(base as int, n as nat),
{
    let c = (coordinate % K_MAX_RESOLUTION) as nat;
    let p = pow(base as int, n as nat);
    lemma_pow_positive(base as int, n as nat);
    lemma_reverse_low_digits_mod(base, c, n as nat, 0);
    lemma_mod_bound(c as int, p);
    let a = (c % (p as nat)) as nat;
    lemma_reverse_low_digits_involution(base, a, n as nat);
}

/// Two coordinates get the same digits in `GetIndexForSample` exactly when
/// they agree modulo `K_MAX_RESOLUTION` and then modulo `base^n`: pixels of
/// one tile that the scale tells apart get different first samples, and
/// pixels a tile apart get the same.
pub proof fn lemma_pixel_digits_identify(base: nat, c1: u32, c2: u32, n: u32)
    requires
        base >= 2,
    ensures
        pixel_digits(base, c1, n) == pixel_digits(base, c2, n) <==> (c1 % K_MAX_RESOLUTION) as int
            % pow(base as int, n as nat) == (c2 % K_MAX_RESOLUTION) as int % pow(base as int, n as nat),
{
    let p = pow(base as int, n as nat);
    lemma_pow_positive(base as int, n as nat);
    lemma_pixel_digits_recover(base, c1, n);
    lemma_pixel_digits_recover(base, c2, n);
    lemma_reverse_low_digits_mod(base, (c1 % K_MAX_RESOLUTION) as nat, n as nat, 0);
    lemma_reverse_low_digits_mod(base, (c2 % K_MAX_RESOLUTION) as nat, n as nat, 0);
}

/// The two terms of the first sample's index of the current pixel: each is
/// a number below `2^baseExp.x` (resp. `3^baseExp.y`) times the stride over
/// the exponent times the multiplicative inverse, and reversing the digits of
/// that number gives back the pixel's coordinate within its tile, modulo
/// `2^baseExp.x` (resp. `3^baseExp.y`).
pub proof fn lemma_offset_terms_locate_pixel(h: HaltonSampler)
    ensures
        exists|dx: nat, dy: nat|
            #![trigger reverse_low_digits(2, dx, h.baseExp.x as nat, 0), reverse_low_digits(3, dy, h.baseExp.y as nat, 0)]
            {
                &&& offset_terms(h).0 == dx * (h.sampleStride as int / (h.baseExp.x as int)) * h.multiInverse[0]
                &&& offset_terms(h).1 == dy * (h.sampleStride as int / (h.baseExp.y as int)) * h.multiInverse[1]
                &&& dx < pow(2, h.baseExp.x as nat)
                &&& dy < pow(3, h.baseExp.y as nat)
                &&& reverse_low_digits(2, dx, h.baseExp.x as nat, 0) == (h.currentPixel.x % K_MAX_RESOLUTION) as int
                    % pow(2, h.baseExp.x as nat)
                &&& reverse_low_digits(3, dy, h.baseExp.y as nat, 0) == (h.currentPixel.y % K_MAX_RESOLUTION) as int
                    % pow(3, h.baseExp.y as nat)
            },
{
    let dx = pixel_digits(2, h.currentPixel.x, h.baseExp.x);
    let dy = pixel_digits(3, h.currentPixel.y, h.baseExp.y);
    lemma_pixel_digits_recover(2, h.currentPixel.x, h.baseExp.x);
    lemma_pixel_digits_recover(3, h.currentPixel.y, h.baseExp.y);
    assert(reverse_low_digits(2, dx, h.baseExp.x as nat, 0) == reverse_low_digits(2, dx, h.baseExp.x as nat, 0));
    assert(reverse_low_digits(3, dy, h.baseExp.y as nat, 0) == reverse_low_digits(3, dy, h.baseExp.y as nat, 0));
}

/// Two consecutive dimensions starting at `d` reach into those that the
/// sample arrays take, `[ARRAY_START_DIM, arrayEndDim)`.
pub open spec fn pair_meets_arrays(h: HaltonSampler, d: int) -> bool {
    ARRAY_START_DIM <= d + 1 && d < h.arrayEndDim
}

/// `Get2D` samples two dimensions that no sample array takes, and the first
/// such pair from the current dimension on: every pair it passes over
/// reaches into the arrays' dimensions. In particular, from
/// `ARRAY_START_DIM - 1` it samples `arrayEndDim` and the one after.
pub proof fn lemma_get_2d_skips_arrays(h: HaltonSampler)
    ensures
        h.dimension <= next_2d_dim(h),
        !pair_meets_arrays(h, next_2d_dim(h)),
        forall|e: int| h.dimension <= e < next_2d_dim(h) ==> #[trigger] pair_meets_arrays(h, e),
        h.dimension + 1 == ARRAY_START_DIM && ARRAY_START_DIM <= h.arrayEndDim ==> next_2d_dim(h)
            == h.arrayEndDim,
{
}

/// Dimension `d` is one that the sample arrays take.
pub open spec fn is_array_dim(h: HaltonSampler, d: int) -> bool {
    ARRAY_START_DIM <= d < h.arrayEndDim
}

/// `Get1D` moves the dimension counter to the first dimension from the
/// current one on that no sample array takes, and samples the dimension
/// after it. So from a counter in `[ARRAY_START_DIM, arrayEndDim]` it samples
/// `arrayEndDim + 1`, and from a counter at or past `ARRAY_START_DIM` it never
/// samples a dimension that an array takes.
pub proof fn lemma_get_1d_skips_arrays(h: HaltonSampler)
    ensures
        next_1d_dim(h) > h.dimension,
        !is_array_dim(h, next_1d_dim(h) - 1),
        forall|e: int| h.dimension <= e < next_1d_dim(h) - 1 ==> #[trigger] is_array_dim(h, e),
        ARRAY_START_DIM <= h.dimension <= h.arrayEndDim ==> next_1d_dim(h) == h.arrayEndDim + 1,
        ARRAY_START_DIM <= h.dimension ==> !is_array_dim(h, next_1d_dim(h)),
{
}

/// Dimension `e` lies in the range of dimensions that the sample arrays of
/// `h` take.
pub open spec fn in_array_range(h: HaltonSampler, e: int) -> bool {
    ARRAY_START_DIM <= e < array_end_dim(h)
}

/// The dimensions that `StartPixel` fills the sample arrays from: 1D array
/// `i` takes `ARRAY_START_DIM + i`, and the 2D arrays take pairwise
/// different pairs of dimensions after all of those; every dimension in
/// `[ARRAY_START_DIM, array_end_dim)` is taken by exactly one array, and none
/// outside it.
pub proof fn lemma_array_dims_partition(h: HaltonSampler)
    ensures
        forall|i: int|
            0 <= i < h.sampleArray2D@.len() ==> ARRAY_START_DIM + h.sampleArray1D@.len() <= #[trigger] dim_2d(h, i)
                && dim_2d(h, i) + 2 <= array_end_dim(h),
        forall|i: int, j: int|
            0 <= i < j < h.sampleArray2D@.len() ==> #[trigger] dim_2d(h, i) + 1 < #[trigger] dim_2d(h, j),
        forall|e: int|
            #[trigger] in_array_range(h, e) ==> e < ARRAY_START_DIM + h.sampleArray1D@.len() || exists|i: int|
                0 <= i < h.sampleArray2D@.len() && (e == #[trigger] dim_2d(h, i) || e == dim_2d(h, i) + 1),
{
    assert forall|e: int| #[trigger] in_array_range(h, e) implies e < ARRAY_START_DIM + h.sampleArray1D@.len()
        || exists|i: int| 0 <= i < h.sampleArray2D@.len() && (e == #[trigger] dim_2d(h, i) || e == dim_2d(h, i) + 1) by {
        if e >= ARRAY_START_DIM + h.sampleArray1D@.len() {
            let i = (e - ARRAY_START_DIM - h.sampleArray1D@.len()) / 2;
            assert(e == dim_2d(h, i) || e == dim_2d(h, i) + 1);
        }
    }
}


} // verus!
