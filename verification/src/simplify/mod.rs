//! The automatic simplifier: recursive rewriting of expressions into the
//! automatically simplified form. The rewriting carries a recursion budget;
//! a computation that exhausts it yields the undefined value, and the
//! budget is far beyond any input that fits in memory.

use vstd::prelude::*;

use crate::expression::{Expr, Exv};

pub mod difference;
pub mod factorial;
pub mod gaussian_number;
pub mod logic;
pub mod power;
pub mod product;
pub mod quotient;
pub mod rational_number;
pub mod set;
pub mod sum;

verus! {

/// The recursion budget handed to the rewriters by the public entry points.
pub const SIMPLIFY_FUEL: u64 = 1099511627776;

/// The view of an optional expression.
pub open spec fn opt_view(o: Option<Expr>) -> Option<Exv> {
    match o {
        Option::Some(e) => Option::Some(e@),
        Option::None => Option::None,
    }
}

/// The views of an optional operand list.
pub open spec fn opt_views(o: Option<Vec<Expr>>) -> Option<Seq<Exv>> {
    match o {
        Option::Some(v) => Option::Some(crate::expression::views_of(v@)),
        Option::None => Option::None,
    }
}

} // verus!

use crate::expression::{
    lemma_view_facts, unfuel, views_of, ExprKind, KindV,
};

verus! {

/// Simplification of an expression view: atoms stand, numbers reduce to
/// standard form, and every other node first simplifies its operands and
/// then applies the rewrite for its kind.
pub open spec fn s_simplify(e: Exv, fuel: nat) -> Option<Exv>
    decreases fuel, 0int,
{
    if fuel == 0 {
        Option::None
    } else {
        match e.kind {
            KindV::Undefined | KindV::Integer(_) | KindV::Symbol(_) | KindV::Boolean(_) => {
                Option::Some(e)
            }
            KindV::Fraction(_, _) => Option::Some(rational_number::srn_v(e)),
            KindV::Gaussian => Option::Some(gaussian_number::sgn_v(e)),
            _ => match s_simplify_list(e.ops, 0, (fuel - 1) as nat) {
                Option::None => Option::None,
                Option::Some(ops) => {
                    let u = Exv::node(e.kind, ops);
                    let f = (fuel - 1) as nat;
                    match e.kind {
                        KindV::Power => power::s_power(u, f),
                        KindV::Product => product::s_product(u, f),
                        KindV::Sum => sum::s_sum(u, f),
                        KindV::Quotient => quotient::s_quotient(u, f),
                        KindV::Difference => difference::s_difference(u, f),
                        KindV::Factorial => Option::Some(factorial::s_factorial(u)),
                        KindV::Func(_) => crate::evaluate::function::s_evaluate_function(u, f),
                        KindV::Not => Option::Some(logic::s_not(u)),
                        KindV::Or => logic::s_or(u, f),
                        KindV::And => logic::s_and(u, f),
                        KindV::SetLiteral => Option::Some(
                            if crate::expression::has_undef(u.ops) {
                                Exv::undef()
                            } else {
                                Exv::node(KindV::SetLiteral, set::set_list_v(u.ops))
                            },
                        ),
                        KindV::Union => set::s_union(u, f),
                        KindV::Intersection => set::s_intersection(u, f),
                        KindV::SetDifference => Option::Some(set::s_set_difference(u)),
                        KindV::Member => Option::Some(set::s_member(u)),
                        _ => Option::Some(u),
                    }
                }
            },
        }
    }
}

/// The simplified operands from position `i` on.
pub open spec fn s_simplify_list(ops: Seq<Exv>, i: int, fuel: nat) -> Option<Seq<Exv>>
    decreases fuel, ops.len() - i + 1,
    when 0 <= i
{
    if i >= ops.len() {
        Option::Some(Seq::empty())
    } else {
        match s_simplify(ops[i], fuel) {
            Option::None => Option::None,
            Option::Some(h) => match s_simplify_list(ops, i + 1, fuel) {
                Option::None => Option::None,
                Option::Some(t) => Option::Some(seq![h] + t),
            },
        }
    }
}

/// The fueled simplification of an expression.
pub fn simplify_fuel(e: &Expr, fuel: u64) -> (r: Option<Expr>)
    ensures
        opt_view(r) == s_simplify(e@, fuel as nat),
    decreases fuel as nat, 0int,
{
    proof {
        lemma_view_facts(*e);
        assert(views_of(e.operands@) =~= e@.ops);
    }
    if fuel == 0 {
        return Option::None;
    }
    match e.kind {
        ExprKind::Undefined
        | ExprKind::Integer(_)
        | ExprKind::Symbol(_)
        | ExprKind::Boolean(_) => Option::Some(e.duplicate()),
        ExprKind::Fraction(_, _) => Option::Some(
            rational_number::simplify_rational_number(e),
        ),
        ExprKind::Gaussian => Option::Some(gaussian_number::simplify_gaussian_number(e)),
        _ => {
            match simplify_list_fuel(&e.operands, 0, fuel - 1) {
                Option::None => Option::None,
                Option::Some(ops) => {
                    let u = Expr { kind: e.duplicate_kind(), operands: ops };
                    proof {
                        crate::expression::lemma_node_view(
                            u,
                            match s_simplify_list(e@.ops, 0, (fuel - 1) as nat) {
                                Option::Some(s) => s,
                                Option::None => Seq::empty(),
                            },
                        );
                    }
                    let f = fuel - 1;
                    match e.kind {
                        ExprKind::Power => power::power_fuel(&u, f),
                        ExprKind::Product => product::product_fuel(&u, f),
                        ExprKind::Sum => sum::sum_fuel(&u, f),
                        ExprKind::Quotient => quotient::quotient_fuel(&u, f),
                        ExprKind::Difference => difference::difference_fuel(&u, f),
                        ExprKind::Factorial => Option::Some(factorial::simplify_factorial(&u)),
                        ExprKind::Func(_) => crate::evaluate::function::evaluate_function_fuel(
                            &u,
                            f,
                        ),
                        ExprKind::Not => Option::Some(logic::simplify_not(&u)),
                        ExprKind::Or => logic::or_fuel(&u, f),
                        ExprKind::And => logic::and_fuel(&u, f),
                        ExprKind::SetLiteral => Option::Some(
                            if crate::expression::any_undefined(&u.operands) {
                                Expr::undefined()
                            } else {
                                set::simplify_set(&u)
                            },
                        ),
                        ExprKind::Union => set::union_fuel(&u, f),
                        ExprKind::Intersection => set::intersection_fuel(&u, f),
                        ExprKind::SetDifference => Option::Some(set::simplify_set_difference(&u)),
                        ExprKind::Member => Option::Some(set::simplify_member(&u)),
                        _ => Option::Some(u),
                    }
                }
            }
        }
    }
}

/// The simplified operands from position `i` on.
fn simplify_list_fuel(ops: &Vec<Expr>, i: usize, fuel: u64) -> (r: Option<Vec<Expr>>)
    requires
        i <= ops@.len(),
    ensures
        opt_views(r) == s_simplify_list(views_of(ops@), i as int, fuel as nat),
    decreases fuel as nat, ops@.len() - i + 1,
{
    if i >= ops.len() {
        let r: Vec<Expr> = Vec::new();
        proof {
            assert(views_of(r@) =~= Seq::<crate::expression::Exv>::empty());
        }
        Option::Some(r)
    } else {
        match simplify_fuel(&ops[i], fuel) {
            Option::None => Option::None,
            Option::Some(h) => match simplify_list_fuel(ops, i + 1, fuel) {
                Option::None => Option::None,
                Option::Some(t) => Option::Some(crate::expression::vec_of_head(h, t)),
            },
        }
    }
}

/// Simplifies an expression to its automatically simplified form: atoms
/// stand, numbers reduce to standard form, and every other node first
/// simplifies its operands and then applies the rewrite for its kind.
pub fn simplify(expr: &Expr) -> (r: Expr)
    ensures
        r@ == unfuel(s_simplify(expr@, SIMPLIFY_FUEL as nat)),
{
    match simplify_fuel(expr, SIMPLIFY_FUEL) {
        Option::Some(e) => e,
        Option::None => Expr::undefined(),
    }
}

} // verus!
