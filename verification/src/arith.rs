//! Machine arithmetic helpers: the 64-bit range model and the greatest
//! common divisor used to put fractions in standard form.

use vstd::prelude::*;

verus! {

/// Whether a mathematical integer is representable in 64 bits.
pub open spec fn fits_i64(x: int) -> bool {
    i64::MIN <= x <= i64::MAX
}

/// The absolute value of a mathematical integer.
pub open spec fn abs_int(x: int) -> int {
    if x >= 0 {
        x
    } else {
        -x
    }
}

/// The greatest common divisor, by Euclid's recursion; zero for (0, 0).
pub open spec fn gcd_nat(a: nat, b: nat) -> nat
    decreases b,
{
    if b == 0 {
        a
    } else {
        gcd_nat(b, a % b)
    }
}

/// Euclid's algorithm on machine words.
pub fn gcd_u64(a: u64, b: u64) -> (r: u64)
    ensures
        r as nat == gcd_nat(a as nat, b as nat),
    decreases b,
{
    if b == 0 {
        a
    } else {
        gcd_u64(b, a % b)
    }
}

/// A number divided by a positive divisor with remainder zero is that
/// divisor times the quotient.
proof fn lemma_exact_div(a: int, g: int)
    requires
        g > 0,
        a % g == 0,
    ensures
        a == g * (a / g),
{
    vstd::arithmetic::div_mod::lemma_fundamental_div_mod(a, g);
}

/// A multiple of a positive number leaves remainder zero by it.
proof fn lemma_multiple_mod_zero(a: int, g: int, k: int)
    requires
        g > 0,
        a == g * k,
    ensures
        a % g == 0,
{
    vstd::arithmetic::div_mod::lemma_mod_multiples_basic(k, g);
    assert(k * g == g * k) by (nonlinear_arith);
}

/// The gcd divides both arguments; it is positive when either is.
pub proof fn lemma_gcd_properties(a: nat, b: nat)
    ensures
        gcd_nat(a, b) > 0 ==> a % gcd_nat(a, b) == 0 && b % gcd_nat(a, b) == 0,
        gcd_nat(a, b) == 0 ==> a == 0 && b == 0,
        a > 0 || b > 0 ==> gcd_nat(a, b) > 0,
    decreases b,
{
    if b == 0 {
        if a != 0 {
            vstd::arithmetic::div_mod::lemma_mod_self_0(a as int);
        }
    } else {
        lemma_gcd_properties(b, a % b);
        let g = gcd_nat(a, b);
        assert(g == gcd_nat(b, a % b));
        assert(g > 0);
        let q = a as int / b as int;
        let r = a as int % b as int;
        vstd::arithmetic::div_mod::lemma_fundamental_div_mod(a as int, b as int);
        assert(a as int == b as int * q + r);
        lemma_exact_div(b as int, g as int);
        lemma_exact_div(r, g as int);
        let k1 = b as int / g as int;
        let k2 = r / g as int;
        assert(a as int == g as int * (k1 * q + k2)) by (nonlinear_arith)
            requires
                a as int == b as int * q + r,
                b as int == g as int * k1,
                r == g as int * k2,
        ;
        lemma_multiple_mod_zero(a as int, g as int, k1 * q + k2);
    }
}

/// Any common divisor of `a` and `b` divides their gcd.
pub proof fn lemma_gcd_greatest(a: nat, b: nat, c: nat)
    requires
        c > 0,
        a % c == 0,
        b % c == 0,
    ensures
        gcd_nat(a, b) % c == 0,
    decreases b,
{
    if b == 0 {
    } else {
        let q = a as int / b as int;
        let r = a as int % b as int;
        vstd::arithmetic::div_mod::lemma_fundamental_div_mod(a as int, b as int);
        lemma_exact_div(a as int, c as int);
        lemma_exact_div(b as int, c as int);
        let j1 = a as int / c as int;
        let j2 = b as int / c as int;
        assert(r == c as int * (j1 - j2 * q)) by (nonlinear_arith)
            requires
                a as int == b as int * q + r,
                a as int == c as int * j1,
                b as int == c as int * j2,
        ;
        lemma_multiple_mod_zero(r, c as int, j1 - j2 * q);
        lemma_gcd_greatest(b, (a % b) as nat, c);
    }
}

/// Dividing two numbers by their gcd leaves them coprime.
pub proof fn lemma_gcd_coprime(a: nat, b: nat)
    requires
        b > 0,
    ensures
        gcd_nat((a / gcd_nat(a, b)) as nat, (b / gcd_nat(a, b)) as nat) == 1,
{
    let g = gcd_nat(a, b);
    lemma_gcd_properties(a, b);
    let a1 = a / g;
    let b1 = b / g;
    lemma_exact_div(a as int, g as int);
    lemma_exact_div(b as int, g as int);
    let g1 = gcd_nat(a1, b1);
    lemma_gcd_properties(a1, b1);
    if g1 == 0 {
        assert(b1 == 0);
        assert(b as int == g as int * b1);
        assert(false);
    } else {
        if g1 != 1 {
            lemma_exact_div(a1 as int, g1 as int);
            lemma_exact_div(b1 as int, g1 as int);
            let a2 = a1 as int / g1 as int;
            let b2 = b1 as int / g1 as int;
            assert(a as int == (g1 * g) as int * a2 && b as int == (g1 * g) as int
                * b2) by (nonlinear_arith)
                requires
                    a as int == g as int * a1,
                    b as int == g as int * b1,
                    a1 as int == g1 as int * a2,
                    b1 as int == g1 as int * b2,
            ;
            lemma_multiple_mod_zero(a as int, (g1 * g) as int, a2);
            lemma_multiple_mod_zero(b as int, (g1 * g) as int, b2);
            lemma_gcd_greatest(a, b, g1 * g);
            lemma_exact_div(g as int, (g1 * g) as int);
            let t = g as int / (g1 * g) as int;
            assert(false) by (nonlinear_arith)
                requires
                    g > 0,
                    g1 > 1,
                    g as int == (g1 * g) as int * t,
            ;
        }
    }
}

/// The magnitude of a 64-bit integer, as an unsigned word.
pub fn abs_u64(x: i64) -> (r: u64)
    ensures
        r as int == abs_int(x as int),
{
    if x >= 0 {
        x as u64
    } else {
        (-(x as i128)) as u64
    }
}

} // verus!

verus! {

/// A mathematical integer clamped into the 64-bit range.
pub open spec fn sat_i64(x: int) -> int {
    if x > i64::MAX {
        i64::MAX as int
    } else if x < i64::MIN {
        i64::MIN as int
    } else {
        x
    }
}

/// Saturating 64-bit addition.
pub fn sat_add_i64(a: i64, b: i64) -> (r: i64)
    ensures
        r as int == sat_i64(a as int + b as int),
{
    let w: i128 = (a as i128) + (b as i128);
    if w > i64::MAX as i128 {
        i64::MAX
    } else if w < i64::MIN as i128 {
        i64::MIN
    } else {
        w as i64
    }
}

/// Saturating 64-bit subtraction.
pub fn sat_sub_i64(a: i64, b: i64) -> (r: i64)
    ensures
        r as int == sat_i64(a as int - b as int),
{
    let w: i128 = (a as i128) - (b as i128);
    if w > i64::MAX as i128 {
        i64::MAX
    } else if w < i64::MIN as i128 {
        i64::MIN
    } else {
        w as i64
    }
}

} // verus!
