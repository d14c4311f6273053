//! Simplification of powers: undefined bases or exponents absorb, zero and
//! one bases collapse, and integer exponents distribute over nested powers
//! and products.

use vstd::prelude::*;

use crate::expression::{
    is_positive_v, lemma_view_facts, views_of, Expr, ExprKind, Exv, KindV,
};
use super::product::{product_fuel, s_product};
use super::rational_number::{rne_v, simplify_rne};
use super::{opt_view, opt_views, SIMPLIFY_FUEL};
use crate::expression::unfuel;

verus! {

broadcast use vstd::std_specs::vec::group_vec_axioms, vstd::seq::group_seq_axioms;

/// Simplification of a power view `v ^ w`: undefined parts absorb; a zero
/// base gives zero for a positive rational exponent and undefined
/// otherwise; a base of one gives one; an integer exponent is pushed in.
pub open spec fn s_power(u: Exv, fuel: nat) -> Option<Exv>
    decreases fuel, 0int,
{
    if fuel == 0 {
        Option::None
    } else if u.ops.len() != 2 {
        Option::Some(u)
    } else {
        let v = u.ops[0];
        let w = u.ops[1];
        if v.is_undef() || w.is_undef() {
            Option::Some(Exv::undef())
        } else if v.kind == KindV::Integer(0) {
            if w.is_rational() && is_positive_v(w) {
                Option::Some(Exv::int_v(0))
            } else {
                Option::Some(Exv::undef())
            }
        } else if v.kind == KindV::Integer(1) {
            Option::Some(Exv::int_v(1))
        } else if w.kind is Integer {
            s_integer_power(v, w.kind->Integer_0, (fuel - 1) as nat)
        } else {
            Option::Some(u)
        }
    }
}

/// Simplification of `v ^ n` for an integer `n`: rational bases evaluate,
/// nested powers multiply exponents, and products distribute the power.
pub open spec fn s_integer_power(v: Exv, n: int, fuel: nat) -> Option<Exv>
    decreases fuel, 0int,
{
    if fuel == 0 {
        Option::None
    } else if v.is_rational() {
        Option::Some(rne_v(Exv::binary(KindV::Power, v, Exv::int_v(n))))
    } else if n == 0 {
        Option::Some(Exv::int_v(1))
    } else if n == 1 {
        Option::Some(v)
    } else if v.kind is Power && v.ops.len() == 2 {
        let r = v.ops[0];
        let s = v.ops[1];
        match s_product(Exv::binary(KindV::Product, s, Exv::int_v(n)), (fuel - 1) as nat) {
            Option::None => Option::None,
            Option::Some(p) => {
                if p.kind is Integer {
                    s_integer_power(r, p.kind->Integer_0, (fuel - 1) as nat)
                } else {
                    Option::Some(Exv::binary(KindV::Power, r, p))
                }
            }
        }
    } else if v.kind is Product {
        match s_integer_power_list(v.ops, n, 0, (fuel - 1) as nat) {
            Option::None => Option::None,
            Option::Some(ops) => s_product(Exv::node(KindV::Product, ops), (fuel - 1) as nat),
        }
    } else {
        Option::Some(Exv::binary(KindV::Power, v, Exv::int_v(n)))
    }
}

/// The integer power pushed into each operand from position `i` on.
pub open spec fn s_integer_power_list(ops: Seq<Exv>, n: int, i: int, fuel: nat) -> Option<
    Seq<Exv>,
>
    decreases fuel, ops.len() - i + 1,
    when 0 <= i
{
    if i >= ops.len() {
        Option::Some(Seq::empty())
    } else {
        match s_integer_power(ops[i], n, fuel) {
            Option::None => Option::None,
            Option::Some(h) => match s_integer_power_list(ops, n, i + 1, fuel) {
                Option::None => Option::None,
                Option::Some(t) => Option::Some(seq![h] + t),
            },
        }
    }
}

/// The fueled simplification of a power expression.
pub fn power_fuel(u: &Expr, fuel: u64) -> (r: Option<Expr>)
    ensures
        opt_view(r) == s_power(u@, fuel as nat),
    decreases fuel as nat, 0int,
{
    proof {
        lemma_view_facts(*u);
    }
    if fuel == 0 {
        Option::None
    } else if u.operands.len() != 2 {
        Option::Some(u.duplicate())
    } else {
        let v = &u.operands[0];
        let w = &u.operands[1];
        proof {
            lemma_view_facts(*v);
            lemma_view_facts(*w);
        }
        if v.is_undefined() || w.is_undefined() {
            Option::Some(Expr::undefined())
        } else if matches!(v.kind, ExprKind::Integer(0)) {
            let pos = match w.kind {
                ExprKind::Integer(_) | ExprKind::Fraction(_, _) => w.is_positive_num(),
                _ => false,
            };
            if pos {
                Option::Some(Expr::integer(0))
            } else {
                Option::Some(Expr::undefined())
            }
        } else if matches!(v.kind, ExprKind::Integer(1)) {
            Option::Some(Expr::integer(1))
        } else {
            match w.kind {
                ExprKind::Integer(n) => integer_power_fuel(v, n, fuel - 1),
                _ => Option::Some(u.duplicate()),
            }
        }
    }
}

/// The fueled simplification of an integer power of a base.
#[verifier::rlimit(100)]
pub fn integer_power_fuel(v: &Expr, n: i64, fuel: u64) -> (r: Option<Expr>)
    ensures
        opt_view(r) == s_integer_power(v@, n as int, fuel as nat),
    decreases fuel as nat, 1int,
{
    proof {
        lemma_view_facts(*v);
    }
    if fuel == 0 {
        Option::None
    } else if matches!(v.kind, ExprKind::Integer(_) | ExprKind::Fraction(_, _)) {
        let p = Expr::power(v.duplicate(), Expr::integer(n));
        Option::Some(simplify_rne(&p))
    } else if n == 0 {
        Option::Some(Expr::integer(1))
    } else if n == 1 {
        Option::Some(v.duplicate())
    } else if matches!(v.kind, ExprKind::Power) && v.operands.len() == 2 {
        integer_power_nested(v, n, fuel)
    } else if matches!(v.kind, ExprKind::Product) {
        integer_power_distribute(v, n, fuel)
    } else {
        Option::Some(Expr::power(v.duplicate(), Expr::integer(n)))
    }
}

/// The nested-power case: the exponents multiply, and an integer result
/// recurses into the inner base.
fn integer_power_nested(v: &Expr, n: i64, fuel: u64) -> (r: Option<Expr>)
    requires
        v@.kind is Power,
        v@.ops.len() == 2,
        !v@.is_rational(),
        n != 0,
        n != 1,
        fuel >= 1,
    ensures
        opt_view(r) == s_integer_power(v@, n as int, fuel as nat),
    decreases fuel as nat, 0int,
{
    proof {
        lemma_view_facts(*v);
    }
    let r0 = &v.operands[0];
    let s0 = &v.operands[1];
    let prod = Expr::times(s0.duplicate(), Expr::integer(n));
    match product_fuel(&prod, fuel - 1) {
        Option::None => Option::None,
        Option::Some(p) => {
            proof {
                lemma_view_facts(p);
            }
            match p.kind {
                ExprKind::Integer(m) => integer_power_fuel(r0, m, fuel - 1),
                _ => Option::Some(Expr::power(r0.duplicate(), p)),
            }
        }
    }
}

/// The product case: the power distributes into every factor.
fn integer_power_distribute(v: &Expr, n: i64, fuel: u64) -> (r: Option<Expr>)
    requires
        v@.kind is Product,
        !v@.is_rational(),
        n != 0,
        n != 1,
        fuel >= 1,
    ensures
        opt_view(r) == s_integer_power(v@, n as int, fuel as nat),
    decreases fuel as nat, 0int,
{
    proof {
        lemma_view_facts(*v);
        assert(views_of(v.operands@) =~= v@.ops);
    }
    match integer_power_list_fuel(&v.operands, n, 0, fuel - 1) {
        Option::None => Option::None,
        Option::Some(ops) => {
            let prod = Expr::node(ExprKind::Product, ops);
            product_fuel(&prod, fuel - 1)
        }
    }
}

/// The integer power pushed into each operand from position `i` on.
fn integer_power_list_fuel(ops: &Vec<Expr>, n: i64, i: usize, fuel: u64) -> (r: Option<Vec<Expr>>)
    requires
        i <= ops@.len(),
    ensures
        opt_views(r) == s_integer_power_list(views_of(ops@), n as int, i as int, fuel as nat),
    decreases fuel as nat, ops@.len() - i + 1,
{
    if i >= ops.len() {
        let r: Vec<Expr> = Vec::new();
        proof {
            assert(views_of(r@) =~= Seq::<Exv>::empty());
        }
        Option::Some(r)
    } else {
        match integer_power_fuel(&ops[i], n, fuel) {
            Option::None => Option::None,
            Option::Some(h) => match integer_power_list_fuel(ops, n, i + 1, fuel) {
                Option::None => Option::None,
                Option::Some(t) => Option::Some(crate::expression::vec_of_head(h, t)),
            },
        }
    }
}

/// Simplifies a power expression: undefined parts absorb, a zero base gives
/// zero for a positive rational exponent and undefined otherwise, a base of
/// one gives one, and an integer exponent is pushed into rational bases,
/// nested powers and products.
pub fn simplify_power(u: &Expr) -> (r: Expr)
    ensures
        r@ == unfuel(s_power(u@, SIMPLIFY_FUEL as nat)),
{
    match power_fuel(u, SIMPLIFY_FUEL) {
        Option::Some(e) => e,
        Option::None => Expr::undefined(),
    }
}

/// Simplifies an integer power of a simplified base.
pub fn simplify_integer_power(v: &Expr, n: i64) -> (r: Expr)
    ensures
        r@ == unfuel(s_integer_power(v@, n as int, SIMPLIFY_FUEL as nat)),
{
    match integer_power_fuel(v, n, SIMPLIFY_FUEL) {
        Option::Some(e) => e,
        Option::None => Expr::undefined(),
    }
}

} // verus!
