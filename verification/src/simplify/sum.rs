//! Simplification of sums: undefined operands absorb, numeric terms
//! combine, like terms collect by adding their coefficients, and operands
//! come out flattened and sorted.

use core::cmp::Ordering;
use vstd::prelude::*;

use crate::expression::{
    eq_expr, has_undef, lemma_view_facts, product_coeff_v, product_rest_v, unfuel, unfuel_list,
    vec_of1, vec_of2, vec_of_head, views_of, Expr, ExprKind, Exv, KindV,
};
use crate::order::{cmp_v, compare};
use super::gaussian_number::{grne_v, simplify_grne};
use super::product::{product_fuel, s_product};
use super::{opt_view, opt_views, SIMPLIFY_FUEL};

verus! {

broadcast use vstd::std_specs::vec::group_vec_axioms, vstd::seq::group_seq_axioms;

/// Simplification of a sum view: undefined operands absorb, a single
/// operand stands alone, and otherwise the operand list is combined and
/// flattened.
pub open spec fn s_sum(u: Exv, fuel: nat) -> Option<Exv>
    decreases fuel, 0int,
{
    if fuel == 0 {
        Option::None
    } else if has_undef(u.ops) {
        Option::Some(Exv::undef())
    } else if u.ops.len() == 1 {
        Option::Some(u.ops[0])
    } else {
        match s_sum_rec(u.ops, (fuel - 1) as nat) {
            Option::None => Option::None,
            Option::Some(v) => {
                if v.len() == 0 {
                    Option::Some(Exv::int_v(0))
                } else if v.len() == 1 {
                    Option::Some(v[0])
                } else {
                    Option::Some(Exv::node(KindV::Sum, v))
                }
            }
        }
    }
}

/// The recursive combination of a sum operand list: numeric pairs add,
/// zeros vanish, like terms collect, and the rest sorts and flattens.
pub open spec fn s_sum_rec(l: Seq<Exv>, fuel: nat) -> Option<Seq<Exv>>
    decreases fuel, 0int,
{
    if fuel == 0 {
        Option::None
    } else if l.len() == 2 && !(l[0].kind is Sum) && !(l[1].kind is Sum) {
        let u1 = l[0];
        let u2 = l[1];
        if u1.is_numeric() && u2.is_numeric() {
            let p = grne_v(Exv::binary(KindV::Sum, u1, u2));
            if p.kind == KindV::Integer(0) {
                Option::Some(Seq::empty())
            } else {
                Option::Some(seq![p])
            }
        } else if u1.kind == KindV::Integer(0) {
            Option::Some(seq![u2])
        } else if u2.kind == KindV::Integer(0) {
            Option::Some(seq![u1])
        } else if product_rest_v(u1) == product_rest_v(u2) {
            match s_sum(
                Exv::binary(KindV::Sum, product_coeff_v(u1), product_coeff_v(u2)),
                (fuel - 1) as nat,
            ) {
                Option::None => Option::None,
                Option::Some(s) => match s_product(
                    Exv::binary(KindV::Product, s, product_rest_v(u1)),
                    (fuel - 1) as nat,
                ) {
                    Option::None => Option::None,
                    Option::Some(p) => {
                        if p.kind == KindV::Integer(0) {
                            Option::Some(Seq::empty())
                        } else {
                            Option::Some(seq![p])
                        }
                    }
                },
            }
        } else if cmp_v(u2, u1) == Ordering::Less {
            Option::Some(seq![u2, u1])
        } else {
            Option::Some(l)
        }
    } else if l.len() == 2 && (l[0].kind is Sum || l[1].kind is Sum) {
        if l[0].kind is Sum && l[1].kind is Sum {
            s_merge_sum(l[0].ops, l[1].ops, (fuel - 1) as nat)
        } else if l[0].kind is Sum {
            s_merge_sum(l[0].ops, seq![l[1]], (fuel - 1) as nat)
        } else {
            s_merge_sum(seq![l[0]], l[1].ops, (fuel - 1) as nat)
        }
    } else if l.len() > 2 {
        match s_sum_rec(l.drop_first(), (fuel - 1) as nat) {
            Option::None => Option::None,
            Option::Some(w) => {
                if l[0].kind is Sum {
                    s_merge_sum(l[0].ops, w, (fuel - 1) as nat)
                } else {
                    s_merge_sum(seq![l[0]], w, (fuel - 1) as nat)
                }
            }
        }
    } else {
        Option::Some(l)
    }
}

/// The merge of two combined sum operand lists: the heads combine pairwise
/// and the smaller one advances.
pub open spec fn s_merge_sum(p: Seq<Exv>, q: Seq<Exv>, fuel: nat) -> Option<Seq<Exv>>
    decreases fuel, 0int,
{
    if fuel == 0 {
        Option::None
    } else if q.len() == 0 {
        Option::Some(p)
    } else if p.len() == 0 {
        Option::Some(q)
    } else {
        match s_sum_rec(seq![p[0], q[0]], (fuel - 1) as nat) {
            Option::None => Option::None,
            Option::Some(h) => {
                if h.len() == 0 {
                    s_merge_sum(p.drop_first(), q.drop_first(), (fuel - 1) as nat)
                } else if h.len() == 1 {
                    match s_merge_sum(p.drop_first(), q.drop_first(), (fuel - 1) as nat) {
                        Option::None => Option::None,
                        Option::Some(r) => Option::Some(seq![h[0]] + r),
                    }
                } else if h.len() == 2 && h[0] == p[0] && h[1] == q[0] {
                    match s_merge_sum(p.drop_first(), q, (fuel - 1) as nat) {
                        Option::None => Option::None,
                        Option::Some(r) => Option::Some(seq![p[0]] + r),
                    }
                } else if h.len() == 2 && h[0] == q[0] && h[1] == p[0] {
                    match s_merge_sum(p, q.drop_first(), (fuel - 1) as nat) {
                        Option::None => Option::None,
                        Option::Some(r) => Option::Some(seq![q[0]] + r),
                    }
                } else {
                    Option::None
                }
            }
        }
    }
}

/// The fueled simplification of a sum expression.
pub fn sum_fuel(u: &Expr, fuel: u64) -> (r: Option<Expr>)
    ensures
        opt_view(r) == s_sum(u@, fuel as nat),
    decreases fuel as nat, 0int,
{
    proof {
        lemma_view_facts(*u);
        assert(views_of(u.operands@) =~= u@.ops);
    }
    if fuel == 0 {
        Option::None
    } else if crate::expression::any_undefined(&u.operands) {
        Option::Some(Expr::undefined())
    } else if u.operands.len() == 1 {
        Option::Some(u.operands[0].duplicate())
    } else {
        let ops = crate::expression::tail_exprs(&u.operands, 0);
        proof {
            assert(views_of(u.operands@).skip(0) =~= u@.ops);
        }
        match sum_rec_fuel(ops, fuel - 1) {
            Option::None => Option::None,
            Option::Some(v) => {
                if v.len() == 0 {
                    Option::Some(Expr::integer(0))
                } else if v.len() == 1 {
                    Option::Some(v[0].duplicate())
                } else {
                    Option::Some(Expr::node(ExprKind::Sum, v))
                }
            }
        }
    }
}

/// The fueled recursive combination of a sum operand list.
pub fn sum_rec_fuel(l: Vec<Expr>, fuel: u64) -> (r: Option<Vec<Expr>>)
    ensures
        opt_views(r) == s_sum_rec(views_of(l@), fuel as nat),
    decreases fuel as nat, 0int,
{
    if fuel == 0 {
        return Option::None;
    }
    let two_plain = l.len() == 2 && !matches!(l[0].kind, ExprKind::Sum) && !matches!(
        l[1].kind,
        ExprKind::Sum,
    );
    proof {
        if l@.len() >= 1 {
            lemma_view_facts(l@[0]);
        }
        if l@.len() >= 2 {
            lemma_view_facts(l@[1]);
        }
    }
    if two_plain {
        let u1 = &l[0];
        let u2 = &l[1];
        let n1 = matches!(
            u1.kind,
            ExprKind::Integer(_) | ExprKind::Fraction(_, _) | ExprKind::Gaussian,
        );
        let n2 = matches!(
            u2.kind,
            ExprKind::Integer(_) | ExprKind::Fraction(_, _) | ExprKind::Gaussian,
        );
        if n1 && n2 {
            let p = simplify_grne(&Expr::plus(u1.duplicate(), u2.duplicate()));
            proof {
                lemma_view_facts(p);
            }
            if matches!(p.kind, ExprKind::Integer(0)) {
                let out: Vec<Expr> = Vec::new();
                proof {
                    assert(views_of(out@) =~= Seq::<Exv>::empty());
                }
                Option::Some(out)
            } else {
                Option::Some(vec_of1(p))
            }
        } else if matches!(u1.kind, ExprKind::Integer(0)) {
            Option::Some(vec_of1(u2.duplicate()))
        } else if matches!(u2.kind, ExprKind::Integer(0)) {
            Option::Some(vec_of1(u1.duplicate()))
        } else {
            let r1 = u1.product_rest();
            let r2 = u2.product_rest();
            if eq_expr(&r1, &r2) {
                let se = Expr::plus(u1.product_coeff(), u2.product_coeff());
                match sum_fuel(&se, fuel - 1) {
                    Option::None => Option::None,
                    Option::Some(s) => {
                        let pr = Expr::times(s, r1);
                        match product_fuel(&pr, fuel - 1) {
                            Option::None => Option::None,
                            Option::Some(p) => {
                                proof {
                                    lemma_view_facts(p);
                                }
                                if matches!(p.kind, ExprKind::Integer(0)) {
                                    let out: Vec<Expr> = Vec::new();
                                    proof {
                                        assert(views_of(out@) =~= Seq::<Exv>::empty());
                                    }
                                    Option::Some(out)
                                } else {
                                    Option::Some(vec_of1(p))
                                }
                            }
                        }
                    }
                }
            } else {
                match compare(u2, u1) {
                    Ordering::Less => Option::Some(vec_of2(u2.duplicate(), u1.duplicate())),
                    _ => Option::Some(l),
                }
            }
        }
    } else if l.len() == 2 && (matches!(l[0].kind, ExprKind::Sum) || matches!(
        l[1].kind,
        ExprKind::Sum,
    )) {
        if matches!(l[0].kind, ExprKind::Sum) && matches!(l[1].kind, ExprKind::Sum) {
            let p = crate::expression::tail_exprs(&l[0].operands, 0);
            let q = crate::expression::tail_exprs(&l[1].operands, 0);
            proof {
                assert(views_of(l@[0].operands@).skip(0) =~= l@[0]@.ops);
                assert(views_of(l@[1].operands@).skip(0) =~= l@[1]@.ops);
            }
            merge_sum_fuel(p, q, fuel - 1)
        } else if matches!(l[0].kind, ExprKind::Sum) {
            let p = crate::expression::tail_exprs(&l[0].operands, 0);
            let q = vec_of1(l[1].duplicate());
            proof {
                assert(views_of(l@[0].operands@).skip(0) =~= l@[0]@.ops);
            }
            merge_sum_fuel(p, q, fuel - 1)
        } else {
            let p = vec_of1(l[0].duplicate());
            let q = crate::expression::tail_exprs(&l[1].operands, 0);
            proof {
                assert(views_of(l@[1].operands@).skip(0) =~= l@[1]@.ops);
            }
            merge_sum_fuel(p, q, fuel - 1)
        }
    } else if l.len() > 2 {
        let t = crate::expression::tail_exprs(&l, 1);
        proof {
            assert(views_of(l@).skip(1) =~= views_of(l@).drop_first());
        }
        match sum_rec_fuel(t, fuel - 1) {
            Option::None => Option::None,
            Option::Some(w) => {
                if matches!(l[0].kind, ExprKind::Sum) {
                    let p = crate::expression::tail_exprs(&l[0].operands, 0);
                    proof {
                        assert(views_of(l@[0].operands@).skip(0) =~= l@[0]@.ops);
                    }
                    merge_sum_fuel(p, w, fuel - 1)
                } else {
                    let p = vec_of1(l[0].duplicate());
                    merge_sum_fuel(p, w, fuel - 1)
                }
            }
        }
    } else {
        Option::Some(l)
    }
}

/// The fueled merge of two combined sum operand lists.
pub fn merge_sum_fuel(p: Vec<Expr>, q: Vec<Expr>, fuel: u64) -> (r: Option<Vec<Expr>>)
    ensures
        opt_views(r) == s_merge_sum(views_of(p@), views_of(q@), fuel as nat),
    decreases fuel as nat, 0int,
{
    if fuel == 0 {
        Option::None
    } else if q.len() == 0 {
        Option::Some(p)
    } else if p.len() == 0 {
        Option::Some(q)
    } else {
        let pair = vec_of2(p[0].duplicate(), q[0].duplicate());
        match sum_rec_fuel(pair, fuel - 1) {
            Option::None => Option::None,
            Option::Some(h) => {
                if h.len() == 0 {
                    let pt = crate::expression::tail_exprs(&p, 1);
                    let qt = crate::expression::tail_exprs(&q, 1);
                    proof {
                        assert(views_of(p@).skip(1) =~= views_of(p@).drop_first());
                        assert(views_of(q@).skip(1) =~= views_of(q@).drop_first());
                    }
                    merge_sum_fuel(pt, qt, fuel - 1)
                } else if h.len() == 1 {
                    let pt = crate::expression::tail_exprs(&p, 1);
                    let qt = crate::expression::tail_exprs(&q, 1);
                    proof {
                        assert(views_of(p@).skip(1) =~= views_of(p@).drop_first());
                        assert(views_of(q@).skip(1) =~= views_of(q@).drop_first());
                    }
                    match merge_sum_fuel(pt, qt, fuel - 1) {
                        Option::None => Option::None,
                        Option::Some(r) => Option::Some(vec_of_head(h[0].duplicate(), r)),
                    }
                } else if h.len() == 2 && eq_expr(&h[0], &p[0]) && eq_expr(&h[1], &q[0]) {
                    let pt = crate::expression::tail_exprs(&p, 1);
                    proof {
                        assert(views_of(p@).skip(1) =~= views_of(p@).drop_first());
                    }
                    match merge_sum_fuel(pt, q, fuel - 1) {
                        Option::None => Option::None,
                        Option::Some(r) => Option::Some(vec_of_head(p[0].duplicate(), r)),
                    }
                } else if h.len() == 2 && eq_expr(&h[0], &q[0]) && eq_expr(&h[1], &p[0]) {
                    let qt = crate::expression::tail_exprs(&q, 1);
                    proof {
                        assert(views_of(q@).skip(1) =~= views_of(q@).drop_first());
                    }
                    match merge_sum_fuel(p, qt, fuel - 1) {
                        Option::None => Option::None,
                        Option::Some(r) => Option::Some(vec_of_head(q[0].duplicate(), r)),
                    }
                } else {
                    Option::None
                }
            }
        }
    }
}

/// Simplifies a sum expression: undefined operands absorb, numeric terms
/// add, zeros vanish, like terms collect by adding their coefficients, and
/// the operands come out flattened and sorted by the canonical order.
pub fn simplify_sum(u: &Expr) -> (r: Expr)
    ensures
        r@ == unfuel(s_sum(u@, SIMPLIFY_FUEL as nat)),
{
    match sum_fuel(u, SIMPLIFY_FUEL) {
        Option::Some(e) => e,
        Option::None => Expr::undefined(),
    }
}

/// The recursive combination of a simplified sum operand list; the empty
/// list where the recursion budget ran out.
pub fn simplify_sum_recursive(l: Vec<Expr>) -> (r: Vec<Expr>)
    ensures
        views_of(r@) == unfuel_list(s_sum_rec(views_of(l@), SIMPLIFY_FUEL as nat)),
{
    match sum_rec_fuel(l, SIMPLIFY_FUEL) {
        Option::Some(v) => v,
        Option::None => {
            let r: Vec<Expr> = Vec::new();
            proof {
                assert(views_of(r@) =~= Seq::<Exv>::empty());
            }
            r
        }
    }
}

} // verus!
