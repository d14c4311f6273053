//! Closed-form arithmetic over Gaussian rational atoms, by the standard
//! complex formulae over the rational components. A result with a part that
//! does not fit in 64 bits is the undefined value.

use vstd::prelude::*;

use crate::arith::abs_int;
use crate::expression::{lemma_view_facts, numer_v, Expr, ExprKind, Exv};
use super::{eval_diff_v, eval_pow_v, eval_prod_v, eval_quot_v, eval_sum_v};

verus! {

broadcast use vstd::std_specs::vec::group_vec_axioms, vstd::seq::group_seq_axioms;

/// A numeric atom in working shape: a rational, or a Gaussian whose two
/// parts are rational.
pub open spec fn numeric_wf(e: Exv) -> bool {
    e.is_rational() || (e.kind is Gaussian && e.ops.len() == 2 && e.ops[0].is_rational()
        && e.ops[1].is_rational())
}

/// The real part of a numeric atom view.
pub open spec fn re_num_v(e: Exv) -> Exv {
    if e.kind is Gaussian && e.ops.len() == 2 {
        e.ops[0]
    } else {
        e
    }
}

/// The imaginary part of a numeric atom view; zero for a rational.
pub open spec fn im_num_v(e: Exv) -> Exv {
    if e.kind is Gaussian && e.ops.len() == 2 {
        e.ops[1]
    } else {
        Exv::int_v(0)
    }
}

/// The sum of two numeric atom views as a Gaussian pair.
pub open spec fn eval_sum_gaussian_v(v: Exv, w: Exv) -> Exv
    recommends
        numeric_wf(v),
        numeric_wf(w),
{
    let re = eval_sum_v(re_num_v(v), re_num_v(w));
    let im = eval_sum_v(im_num_v(v), im_num_v(w));
    if re.is_undef() || im.is_undef() {
        Exv::undef()
    } else {
        Exv::gaussian_v(re, im)
    }
}

/// The difference of two numeric atom views as a Gaussian pair.
pub open spec fn eval_diff_gaussian_v(v: Exv, w: Exv) -> Exv
    recommends
        numeric_wf(v),
        numeric_wf(w),
{
    let re = eval_diff_v(re_num_v(v), re_num_v(w));
    let im = eval_diff_v(im_num_v(v), im_num_v(w));
    if re.is_undef() || im.is_undef() {
        Exv::undef()
    } else {
        Exv::gaussian_v(re, im)
    }
}

/// The product of two numeric atom views as a Gaussian pair.
pub open spec fn eval_prod_gaussian_v(v: Exv, w: Exv) -> Exv
    recommends
        numeric_wf(v),
        numeric_wf(w),
{
    let aa = eval_prod_v(re_num_v(v), re_num_v(w));
    let bb = eval_prod_v(im_num_v(v), im_num_v(w));
    let cc = eval_prod_v(re_num_v(v), im_num_v(w));
    let dd = eval_prod_v(im_num_v(v), re_num_v(w));
    if aa.is_undef() || bb.is_undef() || cc.is_undef() || dd.is_undef() {
        Exv::undef()
    } else {
        let re = eval_diff_v(aa, bb);
        let im = eval_sum_v(cc, dd);
        if re.is_undef() || im.is_undef() {
            Exv::undef()
        } else {
            Exv::gaussian_v(re, im)
        }
    }
}

/// The quotient of two numeric atom views as a Gaussian pair; a zero
/// divisor is undefined.
pub open spec fn eval_quot_gaussian_v(v: Exv, w: Exv) -> Exv
    recommends
        numeric_wf(v),
        numeric_wf(w),
{
    if numer_v(re_num_v(w)) == 0 && numer_v(im_num_v(w)) == 0 {
        Exv::undef()
    } else {
        let c2 = eval_pow_v(re_num_v(w), 2);
        let d2 = eval_pow_v(im_num_v(w), 2);
        if c2.is_undef() || d2.is_undef() {
            Exv::undef()
        } else {
            let den = eval_sum_v(c2, d2);
            let ac = eval_prod_v(re_num_v(v), re_num_v(w));
            let bd = eval_prod_v(im_num_v(v), im_num_v(w));
            let bc = eval_prod_v(im_num_v(v), re_num_v(w));
            let ad = eval_prod_v(re_num_v(v), im_num_v(w));
            if den.is_undef() || ac.is_undef() || bd.is_undef() || bc.is_undef()
                || ad.is_undef() {
                Exv::undef()
            } else {
                let ren = eval_sum_v(ac, bd);
                let imn = eval_diff_v(bc, ad);
                if ren.is_undef() || imn.is_undef() {
                    Exv::undef()
                } else {
                    let re = eval_quot_v(ren, den);
                    let im = eval_quot_v(imn, den);
                    if re.is_undef() || im.is_undef() {
                        Exv::undef()
                    } else {
                        Exv::gaussian_v(re, im)
                    }
                }
            }
        }
    }
}

/// An integer power of a numeric atom view, by iterated multiplication;
/// zero to a non-positive power is undefined.
pub open spec fn eval_pow_gaussian_v(v: Exv, n: int) -> Exv
    recommends
        numeric_wf(v),
    decreases abs_int(n), (if n < 0 { 1int } else { 0int }),
{
    if numer_v(re_num_v(v)) != 0 || numer_v(im_num_v(v)) != 0 {
        if n > 0 {
            let s = eval_pow_gaussian_v(v, n - 1);
            if s.is_undef() {
                Exv::undef()
            } else {
                eval_prod_gaussian_v(s, v)
            }
        } else if n == 0 {
            Exv::int_v(1)
        } else if n == -1 {
            eval_quot_gaussian_v(Exv::int_v(1), v)
        } else if n == i64::MIN as int {
            Exv::undef()
        } else {
            let s = eval_quot_gaussian_v(Exv::int_v(1), v);
            if s.is_undef() {
                Exv::undef()
            } else {
                eval_pow_gaussian_v(s, -n)
            }
        }
    } else {
        if n >= 1 {
            Exv::int_v(0)
        } else {
            Exv::undef()
        }
    }
}

/// A Gaussian power result is a working-shape numeric atom or undefined.
pub proof fn lemma_eval_pow_gaussian_shape(v: Exv, n: int)
    requires
        numeric_wf(v),
    ensures
        numeric_wf(eval_pow_gaussian_v(v, n)) || eval_pow_gaussian_v(v, n).is_undef(),
    decreases abs_int(n), (if n < 0 { 1int } else { 0int }),
{
    if numer_v(re_num_v(v)) != 0 || numer_v(im_num_v(v)) != 0 {
        if n > 0 {
            lemma_eval_pow_gaussian_shape(v, n - 1);
        } else if n == 0 || n == -1 || n == i64::MIN as int {
        } else {
            let s = eval_quot_gaussian_v(Exv::int_v(1), v);
            if !s.is_undef() {
                lemma_eval_pow_gaussian_shape(s, -n);
            }
        }
    }
}

/// The real part of a numeric atom.
fn re_part(v: &Expr) -> (r: Expr)
    requires
        numeric_wf(v@),
    ensures
        r@ == re_num_v(v@),
        r@.is_rational(),
{
    proof {
        lemma_view_facts(*v);
    }
    match v.kind {
        ExprKind::Gaussian => v.operands[0].duplicate(),
        _ => v.duplicate(),
    }
}

/// The imaginary part of a numeric atom; zero for a rational.
fn im_part(v: &Expr) -> (r: Expr)
    requires
        numeric_wf(v@),
    ensures
        r@ == im_num_v(v@),
        r@.is_rational(),
{
    proof {
        lemma_view_facts(*v);
    }
    match v.kind {
        ExprKind::Gaussian => v.operands[1].duplicate(),
        _ => Expr::integer(0),
    }
}

/// Evaluates `v + w` where both are numeric atoms.
pub fn evaluate_sum_gaussian(v: &Expr, w: &Expr) -> (r: Expr)
    requires
        numeric_wf(v@),
        numeric_wf(w@),
    ensures
        r@ == eval_sum_gaussian_v(v@, w@),
{
    let re = super::evaluate_sum(&re_part(v), &re_part(w));
    let im = super::evaluate_sum(&im_part(v), &im_part(w));
    if re.is_undefined() || im.is_undefined() {
        Expr::undefined()
    } else {
        Expr::gaussian(re, im)
    }
}

/// Evaluates `v - w` where both are numeric atoms.
pub fn evaluate_difference_gaussian(v: &Expr, w: &Expr) -> (r: Expr)
    requires
        numeric_wf(v@),
        numeric_wf(w@),
    ensures
        r@ == eval_diff_gaussian_v(v@, w@),
{
    let re = super::evaluate_difference(&re_part(v), &re_part(w));
    let im = super::evaluate_difference(&im_part(v), &im_part(w));
    if re.is_undefined() || im.is_undefined() {
        Expr::undefined()
    } else {
        Expr::gaussian(re, im)
    }
}

/// Evaluates `v * w` where both are numeric atoms.
pub fn evaluate_product_gaussian(v: &Expr, w: &Expr) -> (r: Expr)
    requires
        numeric_wf(v@),
        numeric_wf(w@),
    ensures
        r@ == eval_prod_gaussian_v(v@, w@),
{
    let v_re = re_part(v);
    let v_im = im_part(v);
    let w_re = re_part(w);
    let w_im = im_part(w);
    let aa = super::evaluate_product(&v_re, &w_re);
    let bb = super::evaluate_product(&v_im, &w_im);
    let cc = super::evaluate_product(&v_re, &w_im);
    let dd = super::evaluate_product(&v_im, &w_re);
    if aa.is_undefined() || bb.is_undefined() || cc.is_undefined() || dd.is_undefined() {
        Expr::undefined()
    } else {
        let re = super::evaluate_difference(&aa, &bb);
        let im = super::evaluate_sum(&cc, &dd);
        if re.is_undefined() || im.is_undefined() {
            Expr::undefined()
        } else {
            Expr::gaussian(re, im)
        }
    }
}

/// Evaluates `v / w` where both are numeric atoms; a zero divisor gives the
/// undefined value.
pub fn evaluate_quotient_gaussian(v: &Expr, w: &Expr) -> (r: Expr)
    requires
        numeric_wf(v@),
        numeric_wf(w@),
    ensures
        r@ == eval_quot_gaussian_v(v@, w@),
{
    let w_re = re_part(w);
    let w_im = im_part(w);
    if w_re.numerator_rne() == 0 && w_im.numerator_rne() == 0 {
        Expr::undefined()
    } else {
        let v_re = re_part(v);
        let v_im = im_part(v);
        let c2 = super::evaluate_power(&w_re, 2);
        let d2 = super::evaluate_power(&w_im, 2);
        if c2.is_undefined() || d2.is_undefined() {
            Expr::undefined()
        } else {
            proof {
                super::lemma_eval_pow_shape(w_re@, 2);
                super::lemma_eval_pow_shape(w_im@, 2);
            }
            let den = super::evaluate_sum(&c2, &d2);
            let ac = super::evaluate_product(&v_re, &w_re);
            let bd = super::evaluate_product(&v_im, &w_im);
            let bc = super::evaluate_product(&v_im, &w_re);
            let ad = super::evaluate_product(&v_re, &w_im);
            if den.is_undefined() || ac.is_undefined() || bd.is_undefined() || bc.is_undefined()
                || ad.is_undefined() {
                Expr::undefined()
            } else {
                let ren = super::evaluate_sum(&ac, &bd);
                let imn = super::evaluate_difference(&bc, &ad);
                if ren.is_undefined() || imn.is_undefined() {
                    Expr::undefined()
                } else {
                    let re = super::evaluate_quotient(&ren, &den);
                    let im = super::evaluate_quotient(&imn, &den);
                    if re.is_undefined() || im.is_undefined() {
                        Expr::undefined()
                    } else {
                        Expr::gaussian(re, im)
                    }
                }
            }
        }
    }
}

/// Evaluates `v ^ n` where `v` is a numeric atom.
pub fn evaluate_power_gaussian(v: &Expr, n: i64) -> (r: Expr)
    requires
        numeric_wf(v@),
    ensures
        r@ == eval_pow_gaussian_v(v@, n as int),
    decreases abs_int(n as int), (if n < 0 { 1int } else { 0int }),
{
    let v_re = re_part(v);
    let v_im = im_part(v);
    if v_re.numerator_rne() != 0 || v_im.numerator_rne() != 0 {
        if n > 0 {
            let s = evaluate_power_gaussian(v, n - 1);
            if s.is_undefined() {
                Expr::undefined()
            } else {
                proof {
                    lemma_eval_pow_gaussian_shape(v@, n as int - 1);
                }
                evaluate_product_gaussian(&s, v)
            }
        } else if n == 0 {
            Expr::integer(1)
        } else if n == -1 {
            let one = Expr::integer(1);
            evaluate_quotient_gaussian(&one, v)
        } else if n == i64::MIN {
            Expr::undefined()
        } else {
            let one = Expr::integer(1);
            let s = evaluate_quotient_gaussian(&one, v);
            if s.is_undefined() {
                Expr::undefined()
            } else {
                proof {
                    lemma_quot_gaussian_shape(Exv::int_v(1), v@);
                }
                evaluate_power_gaussian(&s, -n)
            }
        }
    } else {
        if n >= 1 {
            Expr::integer(0)
        } else {
            Expr::undefined()
        }
    }
}

/// A Gaussian quotient result is a working-shape numeric atom or undefined.
proof fn lemma_quot_gaussian_shape(v: Exv, w: Exv)
    ensures
        numeric_wf(eval_quot_gaussian_v(v, w)) || eval_quot_gaussian_v(v, w).is_undef(),
{
}

} // verus!
