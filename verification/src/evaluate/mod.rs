//! Closed-form arithmetic over rational atoms: sum, difference, product,
//! quotient and integer powers. Results are unsimplified fractions; a result
//! whose parts do not fit in 64 bits is the undefined value.

use vstd::prelude::*;

use crate::arith::{abs_int, fits_i64};
use crate::expression::{denom_v, lemma_atom_view, numer_v, Expr, ExprKind, Exv};

pub mod function;
pub mod gaussian;

verus! {

/// A fraction view, or undefined where a part does not fit in 64 bits.
pub open spec fn mk_frac_v(n: int, d: int) -> Exv {
    if fits_i64(n) && fits_i64(d) {
        Exv::frac_v(n, d)
    } else {
        Exv::undef()
    }
}

/// The sum of two rational atom views, by cross-multiplication.
pub open spec fn eval_sum_v(v: Exv, w: Exv) -> Exv
    recommends
        v.is_rational(),
        w.is_rational(),
{
    mk_frac_v(numer_v(v) * denom_v(w) + numer_v(w) * denom_v(v), denom_v(v) * denom_v(w))
}

/// The difference of two rational atom views.
pub open spec fn eval_diff_v(v: Exv, w: Exv) -> Exv
    recommends
        v.is_rational(),
        w.is_rational(),
{
    mk_frac_v(numer_v(v) * denom_v(w) - numer_v(w) * denom_v(v), denom_v(v) * denom_v(w))
}

/// The product of two rational atom views.
pub open spec fn eval_prod_v(v: Exv, w: Exv) -> Exv
    recommends
        v.is_rational(),
        w.is_rational(),
{
    mk_frac_v(numer_v(v) * numer_v(w), denom_v(v) * denom_v(w))
}

/// The quotient of two rational atom views; undefined for a zero divisor.
pub open spec fn eval_quot_v(v: Exv, w: Exv) -> Exv
    recommends
        v.is_rational(),
        w.is_rational(),
{
    if numer_v(w) == 0 {
        Exv::undef()
    } else {
        mk_frac_v(numer_v(v) * denom_v(w), denom_v(v) * numer_v(w))
    }
}

/// An integer power of a rational atom view, by iterated multiplication;
/// zero to a non-positive power is undefined.
pub open spec fn eval_pow_v(v: Exv, n: int) -> Exv
    recommends
        v.is_rational(),
    decreases abs_int(n), (if n < 0 { 1int } else { 0int }),
{
    if numer_v(v) != 0 {
        if n > 0 {
            let s = eval_pow_v(v, n - 1);
            if s.is_undef() {
                Exv::undef()
            } else {
                eval_prod_v(s, v)
            }
        } else if n == 0 {
            Exv::int_v(1)
        } else if n == -1 {
            mk_frac_v(denom_v(v), numer_v(v))
        } else if n == i64::MIN as int {
            Exv::undef()
        } else {
            eval_pow_v(mk_frac_v(denom_v(v), numer_v(v)), -n)
        }
    } else {
        if n >= 1 {
            Exv::int_v(0)
        } else {
            Exv::undef()
        }
    }
}

/// A power of a rational atom is rational or undefined.
pub proof fn lemma_eval_pow_shape(v: Exv, n: int)
    requires
        v.is_rational(),
    ensures
        eval_pow_v(v, n).is_rational() || eval_pow_v(v, n).is_undef(),
    decreases abs_int(n), (if n < 0 { 1int } else { 0int }),
{
    if numer_v(v) != 0 {
        if n > 0 {
            lemma_eval_pow_shape(v, n - 1);
        } else if n == 0 || n == -1 || n == i64::MIN as int {
        } else if n < -1 {
            let s = mk_frac_v(denom_v(v), numer_v(v));
            if s.is_rational() {
                lemma_eval_pow_shape(s, -n);
            }
        }
    }
}

/// The product of two 64-bit values fits in 128 bits.
proof fn lemma_i64_mul_fits(a: int, b: int)
    requires
        i64::MIN <= a <= i64::MAX,
        i64::MIN <= b <= i64::MAX,
    ensures
        i128::MIN < a * b < i128::MAX,
{
    assert(i128::MIN < a * b < i128::MAX) by (nonlinear_arith)
        requires
            i64::MIN <= a <= i64::MAX,
            i64::MIN <= b <= i64::MAX,
    ;
}

/// A fraction from wide parts, or undefined where one does not fit.
fn make_frac(n: i128, d: i128) -> (r: Expr)
    ensures
        r@ == mk_frac_v(n as int, d as int),
{
    if n >= i64::MIN as i128 && n <= i64::MAX as i128 && d >= i64::MIN as i128 && d <= i64::MAX
        as i128 {
        Expr::frac(n as i64, d as i64)
    } else {
        Expr::undefined()
    }
}

/// Evaluates `v + w` where both are integer or fraction atoms.
pub fn evaluate_sum(v: &Expr, w: &Expr) -> (r: Expr)
    requires
        v@.is_rational(),
        w@.is_rational(),
    ensures
        r@ == eval_sum_v(v@, w@),
{
    let n1 = v.numerator_rne();
    let d1 = v.denominator_rne();
    let n2 = w.numerator_rne();
    let d2 = w.denominator_rne();
    proof {
        lemma_i64_mul_fits(n1 as int, d2 as int);
        lemma_i64_mul_fits(n2 as int, d1 as int);
        lemma_i64_mul_fits(d1 as int, d2 as int);
    }
    let p1: i128 = (n1 as i128) * (d2 as i128);
    let p2: i128 = (n2 as i128) * (d1 as i128);
    let dd: i128 = (d1 as i128) * (d2 as i128);
    if p1 > 0 && p2 > i128::MAX - p1 {
        Expr::undefined()
    } else if p1 < 0 && p2 < i128::MIN - p1 {
        Expr::undefined()
    } else {
        make_frac(p1 + p2, dd)
    }
}

/// Evaluates `v - w` where both are integer or fraction atoms.
pub fn evaluate_difference(v: &Expr, w: &Expr) -> (r: Expr)
    requires
        v@.is_rational(),
        w@.is_rational(),
    ensures
        r@ == eval_diff_v(v@, w@),
{
    let n1 = v.numerator_rne();
    let d1 = v.denominator_rne();
    let n2 = w.numerator_rne();
    let d2 = w.denominator_rne();
    proof {
        lemma_i64_mul_fits(n1 as int, d2 as int);
        lemma_i64_mul_fits(n2 as int, d1 as int);
        lemma_i64_mul_fits(d1 as int, d2 as int);
    }
    let p1: i128 = (n1 as i128) * (d2 as i128);
    let p2: i128 = (n2 as i128) * (d1 as i128);
    let dd: i128 = (d1 as i128) * (d2 as i128);
    if p1 >= 0 && p2 < 0 && p1 > i128::MAX + p2 {
        Expr::undefined()
    } else if p1 < 0 && p2 > 0 && p1 < i128::MIN + p2 {
        Expr::undefined()
    } else {
        make_frac(p1 - p2, dd)
    }
}

/// Evaluates `v * w` where both are integer or fraction atoms.
pub fn evaluate_product(v: &Expr, w: &Expr) -> (r: Expr)
    requires
        v@.is_rational(),
        w@.is_rational(),
    ensures
        r@ == eval_prod_v(v@, w@),
{
    let n1 = v.numerator_rne();
    let d1 = v.denominator_rne();
    let n2 = w.numerator_rne();
    let d2 = w.denominator_rne();
    proof {
        lemma_i64_mul_fits(n1 as int, n2 as int);
        lemma_i64_mul_fits(d1 as int, d2 as int);
    }
    make_frac((n1 as i128) * (n2 as i128), (d1 as i128) * (d2 as i128))
}

/// Evaluates `v / w` where both are integer or fraction atoms; a zero
/// divisor gives the undefined value.
pub fn evaluate_quotient(v: &Expr, w: &Expr) -> (r: Expr)
    requires
        v@.is_rational(),
        w@.is_rational(),
    ensures
        r@ == eval_quot_v(v@, w@),
{
    let n2 = w.numerator_rne();
    if n2 == 0 {
        Expr::undefined()
    } else {
        let n1 = v.numerator_rne();
        let d1 = v.denominator_rne();
        let d2 = w.denominator_rne();
        proof {
            lemma_i64_mul_fits(n1 as int, d2 as int);
            lemma_i64_mul_fits(d1 as int, n2 as int);
        }
        make_frac((n1 as i128) * (d2 as i128), (d1 as i128) * (n2 as i128))
    }
}

/// Evaluates `v ^ n` where `v` is an integer or fraction atom.
pub fn evaluate_power(v: &Expr, n: i64) -> (r: Expr)
    requires
        v@.is_rational(),
    ensures
        r@ == eval_pow_v(v@, n as int),
    decreases abs_int(n as int), (if n < 0 { 1int } else { 0int }),
{
    let nv = v.numerator_rne();
    let dv = v.denominator_rne();
    if nv != 0 {
        if n > 0 {
            let s = evaluate_power(v, n - 1);
            if s.is_undefined() {
                Expr::undefined()
            } else {
                proof {
                    lemma_eval_pow_shape(v@, n as int - 1);
                }
                evaluate_product(&s, v)
            }
        } else if n == 0 {
            Expr::integer(1)
        } else if n == -1 {
            Expr::frac(dv, nv)
        } else if n == i64::MIN {
            Expr::undefined()
        } else {
            let s = Expr::frac(dv, nv);
            evaluate_power(&s, -n)
        }
    } else {
        if n >= 1 {
            Expr::integer(0)
        } else {
            Expr::undefined()
        }
    }
}

} // verus!
