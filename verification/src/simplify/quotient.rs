//! Simplification of quotients: `n / d` becomes `n * d^(-1)`.

use vstd::prelude::*;

use crate::expression::{lemma_view_facts, unfuel, Expr, Exv, KindV};
use super::power::{power_fuel, s_power};
use super::product::{product_fuel, s_product};
use super::{opt_view, SIMPLIFY_FUEL};

verus! {

broadcast use vstd::std_specs::vec::group_vec_axioms, vstd::seq::group_seq_axioms;

/// Simplification of a quotient view `n / d`: the simplified
/// `n * d^(-1)`.
pub open spec fn s_quotient(u: Exv, fuel: nat) -> Option<Exv>
    decreases fuel, 0int,
{
    if fuel == 0 {
        Option::None
    } else if u.ops.len() != 2 {
        Option::Some(u)
    } else {
        let n = u.ops[0];
        let d = u.ops[1];
        match s_power(Exv::binary(KindV::Power, d, Exv::int_v(-1)), (fuel - 1) as nat) {
            Option::None => Option::None,
            Option::Some(p) => s_product(Exv::binary(KindV::Product, n, p), (fuel - 1) as nat),
        }
    }
}

/// The fueled simplification of a quotient expression.
pub fn quotient_fuel(u: &Expr, fuel: u64) -> (r: Option<Expr>)
    ensures
        opt_view(r) == s_quotient(u@, fuel as nat),
    decreases fuel as nat, 0int,
{
    proof {
        lemma_view_facts(*u);
    }
    if fuel == 0 {
        Option::None
    } else if u.operands.len() != 2 {
        Option::Some(u.duplicate())
    } else {
        let n = &u.operands[0];
        let d = &u.operands[1];
        let pw = Expr::power(d.duplicate(), Expr::integer(-1));
        match power_fuel(&pw, fuel - 1) {
            Option::None => Option::None,
            Option::Some(p) => {
                let pr = Expr::times(n.duplicate(), p);
                product_fuel(&pr, fuel - 1)
            }
        }
    }
}

/// Simplifies a quotient expression through the product and power rules.
pub fn simplify_quotient(expr: &Expr) -> (r: Expr)
    ensures
        r@ == unfuel(s_quotient(expr@, SIMPLIFY_FUEL as nat)),
{
    match quotient_fuel(expr, SIMPLIFY_FUEL) {
        Option::Some(e) => e,
        Option::None => Expr::undefined(),
    }
}

} // verus!
