//! Reduction of Gaussian rational numbers and Gaussian rational number
//! expressions: both components in standard form, and a Gaussian whose
//! imaginary part is zero collapses to its real part.

use vstd::prelude::*;

use crate::evaluate::gaussian::{
    eval_diff_gaussian_v, eval_pow_gaussian_v, eval_prod_gaussian_v, eval_quot_gaussian_v,
    eval_sum_gaussian_v, evaluate_difference_gaussian, evaluate_power_gaussian,
    evaluate_product_gaussian, evaluate_quotient_gaussian, evaluate_sum_gaussian,
    lemma_eval_pow_gaussian_shape, numeric_wf,
};
use crate::expression::{lemma_view_facts, numer_v, Expr, ExprKind, Exv, KindV};
use super::rational_number::{simplify_rational_number, srn_v};

verus! {

broadcast use vstd::std_specs::vec::group_vec_axioms, vstd::seq::group_seq_axioms;

/// The standard form of a Gaussian number view: both components reduced,
/// and a zero imaginary part collapses the pair to its real part. Rational
/// atoms reduce as rationals; any other view is unchanged.
pub open spec fn sgn_v(e: Exv) -> Exv {
    match e.kind {
        KindV::Integer(_) => e,
        KindV::Fraction(_, _) => srn_v(e),
        KindV::Gaussian => {
            if e.ops.len() == 2 {
                let re = srn_v(e.ops[0]);
                let im = srn_v(e.ops[1]);
                if im.kind == KindV::Integer(0) {
                    re
                } else {
                    Exv::gaussian_v(re, im)
                }
            } else {
                e
            }
        }
        _ => e,
    }
}

/// Recursive reduction of a Gaussian rational number expression view.
pub open spec fn grne_rec_v(e: Exv) -> Exv
    decreases e,
{
    match e.kind {
        KindV::Integer(_) => e,
        KindV::Fraction(n, d) => if d == 0 {
            Exv::undef()
        } else {
            e
        },
        KindV::Gaussian => if numeric_wf(e) {
            e
        } else {
            Exv::undef()
        },
        _ => {
            if e.ops.len() == 1 && (e.kind is Sum || e.kind is Difference) {
                let v = grne_rec_v(e.ops[0]);
                if v.is_undef() {
                    Exv::undef()
                } else if e.kind is Sum {
                    v
                } else {
                    eval_prod_gaussian_v(Exv::int_v(-1), v)
                }
            } else if e.ops.len() == 2 && (e.kind is Sum || e.kind is Difference
                || e.kind is Product || e.kind is Quotient) {
                let v = grne_rec_v(e.ops[0]);
                let w = grne_rec_v(e.ops[1]);
                if v.is_undef() || w.is_undef() {
                    Exv::undef()
                } else {
                    match e.kind {
                        KindV::Sum => eval_sum_gaussian_v(v, w),
                        KindV::Difference => eval_diff_gaussian_v(v, w),
                        KindV::Product => eval_prod_gaussian_v(v, w),
                        _ => eval_quot_gaussian_v(v, w),
                    }
                }
            } else if e.ops.len() == 2 && e.kind is Power {
                let v = grne_rec_v(e.ops[0]);
                if v.is_undef() {
                    Exv::undef()
                } else if e.ops[1].is_rational() {
                    eval_pow_gaussian_v(v, numer_v(e.ops[1]))
                } else {
                    Exv::undef()
                }
            } else {
                Exv::undef()
            }
        }
    }
}

/// The reduction of a Gaussian rational number expression view.
pub open spec fn grne_v(e: Exv) -> Exv {
    let v = grne_rec_v(e);
    if v.is_undef() {
        Exv::undef()
    } else {
        sgn_v(v)
    }
}

/// The recursive reduction yields a working-shape numeric atom or the
/// undefined value. A unary difference keeps a rational rational.
pub proof fn lemma_grne_rec_shape(e: Exv)
    ensures
        numeric_wf(grne_rec_v(e)) || grne_rec_v(e).is_undef(),
    decreases e,
{
    match e.kind {
        KindV::Integer(_) => {}
        KindV::Fraction(n, d) => {}
        KindV::Gaussian => {}
        _ => {
            if e.ops.len() == 1 && (e.kind is Sum || e.kind is Difference) {
                lemma_grne_rec_shape(e.ops[0]);
            } else if e.ops.len() == 2 && (e.kind is Sum || e.kind is Difference
                || e.kind is Product || e.kind is Quotient) {
                lemma_grne_rec_shape(e.ops[0]);
                lemma_grne_rec_shape(e.ops[1]);
            } else if e.ops.len() == 2 && e.kind is Power {
                lemma_grne_rec_shape(e.ops[0]);
                let v = grne_rec_v(e.ops[0]);
                if !v.is_undef() && e.ops[1].is_rational() {
                    lemma_eval_pow_gaussian_shape(v, numer_v(e.ops[1]));
                }
            }
        }
    }
}

/// Simplifies a Gaussian number: both components to standard form, and a
/// zero imaginary part collapses to the real part. Rational atoms reduce
/// as rationals; any other expression is unchanged.
pub fn simplify_gaussian_number(u: &Expr) -> (r: Expr)
    ensures
        r@ == sgn_v(u@),
{
    proof {
        lemma_view_facts(*u);
    }
    match u.kind {
        ExprKind::Integer(_) => u.duplicate(),
        ExprKind::Fraction(_, _) => simplify_rational_number(u),
        ExprKind::Gaussian => {
            if u.operands.len() == 2 {
                let re = simplify_rational_number(&u.operands[0]);
                let im = simplify_rational_number(&u.operands[1]);
                let collapse = match im.kind {
                    ExprKind::Integer(0) => true,
                    _ => false,
                };
                if collapse {
                    re
                } else {
                    Expr::gaussian(re, im)
                }
            } else {
                u.duplicate()
            }
        }
        _ => u.duplicate(),
    }
}

/// Simplifies a Gaussian rational number expression to an integer, a
/// fraction in standard form, a Gaussian pair of such, or the undefined
/// value; an expression of another shape, a division by zero, or overflow
/// gives the undefined value.
pub fn simplify_grne(u: &Expr) -> (r: Expr)
    ensures
        r@ == grne_v(u@),
{
    let v = simplify_grne_recursive(u);
    if v.is_undefined() {
        Expr::undefined()
    } else {
        simplify_gaussian_number(&v)
    }
}

/// The recursive part of Gaussian rational number expression reduction.
fn simplify_grne_recursive(u: &Expr) -> (r: Expr)
    ensures
        r@ == grne_rec_v(u@),
    decreases *u,
{
    proof {
        lemma_view_facts(*u);
        if u.operands@.len() >= 1 {
            lemma_view_facts(u.operands@[0]);
        }
        if u.operands@.len() >= 2 {
            lemma_view_facts(u.operands@[1]);
        }
    }
    match u.kind {
        ExprKind::Integer(_) => u.duplicate(),
        ExprKind::Fraction(_, 0) => Expr::undefined(),
        ExprKind::Fraction(_, _) => u.duplicate(),
        ExprKind::Gaussian => {
            let wf = u.operands.len() == 2 && {
                let a = matches!(u.operands[0].kind, ExprKind::Integer(_) | ExprKind::Fraction(_, _));
                let b = matches!(u.operands[1].kind, ExprKind::Integer(_) | ExprKind::Fraction(_, _));
                a && b
            };
            if wf {
                u.duplicate()
            } else {
                Expr::undefined()
            }
        }
        _ => {
            let is_sum = matches!(u.kind, ExprKind::Sum);
            let is_diff = matches!(u.kind, ExprKind::Difference);
            let is_prod = matches!(u.kind, ExprKind::Product);
            let is_quot = matches!(u.kind, ExprKind::Quotient);
            let is_pow = matches!(u.kind, ExprKind::Power);
            if u.operands.len() == 1 && (is_sum || is_diff) {
                let v = simplify_grne_recursive(&u.operands[0]);
                proof {
                    lemma_grne_rec_shape(u@.ops[0]);
                }
                if v.is_undefined() {
                    Expr::undefined()
                } else if is_sum {
                    v
                } else {
                    let m = Expr::integer(-1);
                    evaluate_product_gaussian(&m, &v)
                }
            } else if u.operands.len() == 2 && (is_sum || is_diff || is_prod || is_quot) {
                let v = simplify_grne_recursive(&u.operands[0]);
                let w = simplify_grne_recursive(&u.operands[1]);
                proof {
                    lemma_grne_rec_shape(u@.ops[0]);
                    lemma_grne_rec_shape(u@.ops[1]);
                }
                if v.is_undefined() || w.is_undefined() {
                    Expr::undefined()
                } else if is_sum {
                    evaluate_sum_gaussian(&v, &w)
                } else if is_diff {
                    evaluate_difference_gaussian(&v, &w)
                } else if is_prod {
                    evaluate_product_gaussian(&v, &w)
                } else {
                    evaluate_quotient_gaussian(&v, &w)
                }
            } else if u.operands.len() == 2 && is_pow {
                let v = simplify_grne_recursive(&u.operands[0]);
                proof {
                    lemma_grne_rec_shape(u@.ops[0]);
                }
                if v.is_undefined() {
                    Expr::undefined()
                } else {
                    match u.operands[1].kind {
                        ExprKind::Integer(_) | ExprKind::Fraction(_, _) => {
                            let n = u.operands[1].numerator_rne();
                            evaluate_power_gaussian(&v, n)
                        }
                        _ => Expr::undefined(),
                    }
                }
            } else {
                Expr::undefined()
            }
        }
    }
}

} // verus!
