//! Reduction of rational numbers and rational number expressions to
//! standard form: an integer, a reduced fraction with positive denominator,
//! or the undefined value.

use vstd::prelude::*;

use crate::arith::{abs_int, abs_u64, fits_i64, gcd_nat, gcd_u64, lemma_gcd_properties};
use crate::evaluate::{
    eval_diff_v, eval_pow_v, eval_prod_v, eval_quot_v, eval_sum_v, evaluate_difference,
    evaluate_power, evaluate_product, evaluate_quotient, evaluate_sum, lemma_eval_pow_shape,
};
use crate::expression::{denom_v, lemma_view_facts, numer_v, Expr, ExprKind, Exv, KindV};

verus! {

broadcast use vstd::std_specs::vec::group_vec_axioms, vstd::seq::group_seq_axioms;

/// The standard form of the rational `n / d`: undefined for a zero
/// denominator, the exact integer where `d` divides `n`, and otherwise the
/// fraction reduced by the gcd with a positive denominator. A part that does
/// not fit in 64 bits is undefined.
pub open spec fn canon_rat_v(n: int, d: int) -> Exv {
    if d == 0 {
        Exv::undef()
    } else {
        let na = abs_int(n);
        let da = abs_int(d);
        let neg = (n < 0) != (d < 0);
        if na % da == 0 {
            let q = na / da;
            if neg {
                if fits_i64(-q) {
                    Exv::int_v(-q)
                } else {
                    Exv::undef()
                }
            } else {
                if fits_i64(q) {
                    Exv::int_v(q)
                } else {
                    Exv::undef()
                }
            }
        } else {
            let g = gcd_nat(na as nat, da as nat) as int;
            let nr = na / g;
            let dr = da / g;
            if neg {
                if fits_i64(-nr) && fits_i64(dr) {
                    Exv::frac_v(-nr, dr)
                } else {
                    Exv::undef()
                }
            } else {
                if fits_i64(nr) && fits_i64(dr) {
                    Exv::frac_v(nr, dr)
                } else {
                    Exv::undef()
                }
            }
        }
    }
}

/// The standard form of a rational atom view; any other view is unchanged.
pub open spec fn srn_v(e: Exv) -> Exv {
    match e.kind {
        KindV::Integer(_) => e,
        KindV::Fraction(n, d) => canon_rat_v(n, d),
        _ => e,
    }
}

/// Recursive reduction of a rational number expression view: integers and
/// nonzero fractions stand; sums, differences, products, quotients and
/// integer powers evaluate; anything else, a zero denominator, or overflow
/// is undefined.
pub open spec fn rne_rec_v(e: Exv) -> Exv
    decreases e,
{
    match e.kind {
        KindV::Integer(_) => e,
        KindV::Fraction(n, d) => if d == 0 {
            Exv::undef()
        } else {
            e
        },
        _ => {
            if e.ops.len() == 1 && (e.kind is Sum || e.kind is Difference) {
                let v = rne_rec_v(e.ops[0]);
                if v.is_undef() {
                    Exv::undef()
                } else if e.kind is Sum {
                    v
                } else {
                    eval_prod_v(Exv::int_v(-1), v)
                }
            } else if e.ops.len() == 2 && (e.kind is Sum || e.kind is Difference
                || e.kind is Product || e.kind is Quotient) {
                let v = rne_rec_v(e.ops[0]);
                let w = rne_rec_v(e.ops[1]);
                if v.is_undef() || w.is_undef() {
                    Exv::undef()
                } else {
                    match e.kind {
                        KindV::Sum => eval_sum_v(v, w),
                        KindV::Difference => eval_diff_v(v, w),
                        KindV::Product => eval_prod_v(v, w),
                        _ => eval_quot_v(v, w),
                    }
                }
            } else if e.ops.len() == 2 && e.kind is Power {
                let v = rne_rec_v(e.ops[0]);
                if v.is_undef() {
                    Exv::undef()
                } else if e.ops[1].is_rational() {
                    eval_pow_v(v, numer_v(e.ops[1]))
                } else {
                    Exv::undef()
                }
            } else {
                Exv::undef()
            }
        }
    }
}

/// The reduction of a rational number expression view: the recursive
/// evaluation put into standard form.
pub open spec fn rne_v(e: Exv) -> Exv {
    let v = rne_rec_v(e);
    if v.is_undef() {
        Exv::undef()
    } else {
        srn_v(v)
    }
}

/// The recursive reduction yields a rational atom or the undefined value.
pub proof fn lemma_rne_rec_shape(e: Exv)
    ensures
        rne_rec_v(e).is_rational() || rne_rec_v(e).is_undef(),
    decreases e,
{
    match e.kind {
        KindV::Integer(_) => {}
        KindV::Fraction(n, d) => {}
        _ => {
            if e.ops.len() == 1 && (e.kind is Sum || e.kind is Difference) {
                lemma_rne_rec_shape(e.ops[0]);
            } else if e.ops.len() == 2 && (e.kind is Sum || e.kind is Difference
                || e.kind is Product || e.kind is Quotient) {
                lemma_rne_rec_shape(e.ops[0]);
                lemma_rne_rec_shape(e.ops[1]);
            } else if e.ops.len() == 2 && e.kind is Power {
                lemma_rne_rec_shape(e.ops[0]);
                let v = rne_rec_v(e.ops[0]);
                if !v.is_undef() && e.ops[1].is_rational() {
                    lemma_eval_pow_shape(v, numer_v(e.ops[1]));
                }
            }
        }
    }
}

/// Simplifies a rational number to standard form: an integer stands, a
/// fraction reduces to an integer or a reduced fraction with positive
/// denominator, and a zero denominator or an unrepresentable part is
/// undefined. Any other expression is unchanged.
pub fn simplify_rational_number(u: &Expr) -> (r: Expr)
    ensures
        r@ == srn_v(u@),
{
    proof {
        lemma_view_facts(*u);
    }
    match u.kind {
        ExprKind::Fraction(n, d) => {
            if d == 0 {
                Expr::undefined()
            } else {
                let na = abs_u64(n);
                let da = abs_u64(d);
                let neg = (n < 0) != (d < 0);
                if na % da == 0 {
                    let q = na / da;
                    if neg {
                        if q <= 9223372036854775808u64 {
                            Expr::integer((-(q as i128)) as i64)
                        } else {
                            Expr::undefined()
                        }
                    } else {
                        if q <= i64::MAX as u64 {
                            Expr::integer(q as i64)
                        } else {
                            Expr::undefined()
                        }
                    }
                } else {
                    proof {
                        lemma_gcd_properties(na as nat, da as nat);
                    }
                    let g = gcd_u64(na, da);
                    let nr = na / g;
                    let dr = da / g;
                    if neg {
                        if nr <= 9223372036854775808u64 && dr <= i64::MAX as u64 {
                            Expr::frac((-(nr as i128)) as i64, dr as i64)
                        } else {
                            Expr::undefined()
                        }
                    } else {
                        if nr <= i64::MAX as u64 && dr <= i64::MAX as u64 {
                            Expr::frac(nr as i64, dr as i64)
                        } else {
                            Expr::undefined()
                        }
                    }
                }
            }
        }
        _ => u.duplicate(),
    }
}

/// Simplifies a rational number expression to an integer, a fraction in
/// standard form, or the undefined value; an expression of another shape,
/// a division by zero, or overflow gives the undefined value.
pub fn simplify_rne(u: &Expr) -> (r: Expr)
    ensures
        r@ == rne_v(u@),
{
    let v = simplify_rne_recursive(u);
    if v.is_undefined() {
        Expr::undefined()
    } else {
        simplify_rational_number(&v)
    }
}

/// The recursive part of rational number expression reduction.
fn simplify_rne_recursive(u: &Expr) -> (r: Expr)
    ensures
        r@ == rne_rec_v(u@),
    decreases *u,
{
    proof {
        lemma_view_facts(*u);
        if u.operands@.len() >= 1 {
            lemma_view_facts(u.operands@[0]);
        }
        if u.operands@.len() >= 2 {
            lemma_view_facts(u.operands@[1]);
        }
    }
    match u.kind {
        ExprKind::Integer(_) => u.duplicate(),
        ExprKind::Fraction(_, 0) => Expr::undefined(),
        ExprKind::Fraction(_, _) => u.duplicate(),
        _ => {
            let is_sum = matches!(u.kind, ExprKind::Sum);
            let is_diff = matches!(u.kind, ExprKind::Difference);
            let is_prod = matches!(u.kind, ExprKind::Product);
            let is_quot = matches!(u.kind, ExprKind::Quotient);
            let is_pow = matches!(u.kind, ExprKind::Power);
            if u.operands.len() == 1 && (is_sum || is_diff) {
                let v = simplify_rne_recursive(&u.operands[0]);
                proof {
                    lemma_rne_rec_shape(u@.ops[0]);
                }
                if v.is_undefined() {
                    Expr::undefined()
                } else if is_sum {
                    v
                } else {
                    let m = Expr::integer(-1);
                    evaluate_product(&m, &v)
                }
            } else if u.operands.len() == 2 && (is_sum || is_diff || is_prod || is_quot) {
                let v = simplify_rne_recursive(&u.operands[0]);
                let w = simplify_rne_recursive(&u.operands[1]);
                proof {
                    lemma_rne_rec_shape(u@.ops[0]);
                    lemma_rne_rec_shape(u@.ops[1]);
                }
                if v.is_undefined() || w.is_undefined() {
                    Expr::undefined()
                } else if is_sum {
                    evaluate_sum(&v, &w)
                } else if is_diff {
                    evaluate_difference(&v, &w)
                } else if is_prod {
                    evaluate_product(&v, &w)
                } else {
                    evaluate_quotient(&v, &w)
                }
            } else if u.operands.len() == 2 && is_pow {
                let v = simplify_rne_recursive(&u.operands[0]);
                proof {
                    lemma_rne_rec_shape(u@.ops[0]);
                }
                if v.is_undefined() {
                    Expr::undefined()
                } else {
                    match u.operands[1].kind {
                        ExprKind::Integer(_) | ExprKind::Fraction(_, _) => {
                            let n = u.operands[1].numerator_rne();
                            evaluate_power(&v, n)
                        }
                        _ => Expr::undefined(),
                    }
                }
            } else {
                Expr::undefined()
            }
        }
    }
}

} // verus!
