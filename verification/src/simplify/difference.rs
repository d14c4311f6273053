//! Simplification of differences: `u - v` becomes `u + (-1) * v`.

use vstd::prelude::*;

use crate::expression::{lemma_view_facts, unfuel, Expr, Exv, KindV};
use super::product::{product_fuel, s_product};
use super::sum::{s_sum, sum_fuel};
use super::{opt_view, SIMPLIFY_FUEL};

verus! {

broadcast use vstd::std_specs::vec::group_vec_axioms, vstd::seq::group_seq_axioms;

/// Simplification of a difference view `u - v`: zero minus `v` is the
/// simplified `(-1) * v`, and otherwise the simplified `u + (-1) * v`.
pub open spec fn s_difference(u: Exv, fuel: nat) -> Option<Exv>
    decreases fuel, 0int,
{
    if fuel == 0 {
        Option::None
    } else if u.ops.len() != 2 {
        Option::Some(u)
    } else {
        let a = u.ops[0];
        let b = u.ops[1];
        if a.kind == KindV::Integer(0) {
            s_product(Exv::binary(KindV::Product, Exv::int_v(-1), b), (fuel - 1) as nat)
        } else {
            match s_product(Exv::binary(KindV::Product, Exv::int_v(-1), b), (fuel - 1) as nat) {
                Option::None => Option::None,
                Option::Some(m) => s_sum(Exv::binary(KindV::Sum, a, m), (fuel - 1) as nat),
            }
        }
    }
}

/// The fueled simplification of a difference expression.
pub fn difference_fuel(u: &Expr, fuel: u64) -> (r: Option<Expr>)
    ensures
        opt_view(r) == s_difference(u@, fuel as nat),
    decreases fuel as nat, 0int,
{
    proof {
        lemma_view_facts(*u);
    }
    if fuel == 0 {
        Option::None
    } else if u.operands.len() != 2 {
        Option::Some(u.duplicate())
    } else {
        let a = &u.operands[0];
        let b = &u.operands[1];
        proof {
            lemma_view_facts(*a);
        }
        let neg = Expr::times(Expr::integer(-1), b.duplicate());
        if matches!(a.kind, crate::expression::ExprKind::Integer(0)) {
            product_fuel(&neg, fuel - 1)
        } else {
            match product_fuel(&neg, fuel - 1) {
                Option::None => Option::None,
                Option::Some(m) => {
                    let s = Expr::plus(a.duplicate(), m);
                    sum_fuel(&s, fuel - 1)
                }
            }
        }
    }
}

/// Simplifies a difference expression through the sum and product rules.
pub fn simplify_difference(expr: &Expr) -> (r: Expr)
    ensures
        r@ == unfuel(s_difference(expr@, SIMPLIFY_FUEL as nat)),
{
    match difference_fuel(expr, SIMPLIFY_FUEL) {
        Option::Some(e) => e,
        Option::None => Expr::undefined(),
    }
}

} // verus!
