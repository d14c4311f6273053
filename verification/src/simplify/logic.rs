//! Simplification of the logic connectives: negation, disjunction and
//! conjunction.

use core::cmp::Ordering;
use vstd::prelude::*;

use crate::expression::{
    eq_expr, has_undef, lemma_view_facts, unfuel, vec_of1, vec_of2, vec_of_head, views_of, Expr,
    ExprKind, Exv, KindV,
};
use crate::order::{cmp_v, compare};
use super::{opt_view, opt_views, SIMPLIFY_FUEL};

verus! {

broadcast use vstd::std_specs::vec::group_vec_axioms, vstd::seq::group_seq_axioms;

/// Whether some view in a list is the given boolean atom.
pub open spec fn has_bool(s: Seq<Exv>, b: bool) -> bool {
    exists|i: int| 0 <= i < s.len() && (#[trigger] s[i]).kind == KindV::Boolean(b)
}

/// Simplification of a negation view: booleans negate, double negations
/// cancel, undefined absorbs, and anything else stands.
pub open spec fn s_not(e: Exv) -> Exv {
    if e.kind is Not && e.ops.len() == 1 {
        let u = e.ops[0];
        match u.kind {
            KindV::Boolean(b) => Exv::bool_v(!b),
            KindV::Not => if u.ops.len() == 1 {
                u.ops[0]
            } else {
                e
            },
            KindV::Undefined => Exv::undef(),
            _ => e,
        }
    } else {
        e
    }
}

/// Simplifies a negation: a boolean negates, a double negation cancels,
/// undefined absorbs, and anything else is unchanged.
pub fn simplify_not(expr: &Expr) -> (r: Expr)
    ensures
        r@ == s_not(expr@),
{
    proof {
        lemma_view_facts(*expr);
        if expr.operands@.len() >= 1 {
            lemma_view_facts(expr.operands@[0]);
        }
    }
    if matches!(expr.kind, ExprKind::Not) && expr.operands.len() == 1 {
        let u = &expr.operands[0];
        match u.kind {
            ExprKind::Boolean(b) => Expr::boolean(!b),
            ExprKind::Not => {
                if u.operands.len() == 1 {
                    u.operands[0].duplicate()
                } else {
                    expr.duplicate()
                }
            }
            ExprKind::Undefined => Expr::undefined(),
            _ => expr.duplicate(),
        }
    } else {
        expr.duplicate()
    }
}

/// Simplification of a disjunction view: undefined absorbs, a true operand
/// decides, and otherwise the operands combine, sort and flatten; an empty
/// result is false.
pub open spec fn s_or(u: Exv, fuel: nat) -> Option<Exv>
    decreases fuel, 0int,
{
    if fuel == 0 {
        Option::None
    } else if has_undef(u.ops) {
        Option::Some(Exv::undef())
    } else if has_bool(u.ops, true) {
        Option::Some(Exv::bool_v(true))
    } else if u.ops.len() == 1 {
        Option::Some(u.ops[0])
    } else {
        match s_or_rec(u.ops, (fuel - 1) as nat) {
            Option::None => Option::None,
            Option::Some(v) => {
                if v.len() == 0 {
                    Option::Some(Exv::bool_v(false))
                } else if v.len() == 1 {
                    Option::Some(v[0])
                } else {
                    Option::Some(Exv::node(KindV::Or, v))
                }
            }
        }
    }
}

/// The recursive combination of a disjunction operand list.
pub open spec fn s_or_rec(l: Seq<Exv>, fuel: nat) -> Option<Seq<Exv>>
    decreases fuel, 0int,
{
    if fuel == 0 {
        Option::None
    } else if l.len() == 2 && !(l[0].kind is Or) && !(l[1].kind is Or) {
        let u1 = l[0];
        let u2 = l[1];
        if u1.kind is Boolean && u2.kind is Boolean {
            Option::Some(seq![Exv::bool_v(u1.kind->Boolean_0 || u2.kind->Boolean_0)])
        } else if u1.kind == KindV::Boolean(false) {
            Option::Some(seq![u2])
        } else if u2.kind == KindV::Boolean(false) {
            Option::Some(seq![u1])
        } else if cmp_v(u2, u1) == Ordering::Less {
            Option::Some(seq![u2, u1])
        } else {
            Option::Some(l)
        }
    } else if l.len() == 2 && (l[0].kind is Or || l[1].kind is Or) {
        if l[0].kind is Or && l[1].kind is Or {
            s_merge_or(l[0].ops, l[1].ops, (fuel - 1) as nat)
        } else if l[0].kind is Or {
            s_merge_or(l[0].ops, seq![l[1]], (fuel - 1) as nat)
        } else {
            s_merge_or(seq![l[0]], l[1].ops, (fuel - 1) as nat)
        }
    } else if l.len() > 2 {
        match s_or_rec(l.drop_first(), (fuel - 1) as nat) {
            Option::None => Option::None,
            Option::Some(w) => {
                if l[0].kind is Or {
                    s_merge_or(l[0].ops, w, (fuel - 1) as nat)
                } else {
                    s_merge_or(seq![l[0]], w, (fuel - 1) as nat)
                }
            }
        }
    } else {
        Option::Some(l)
    }
}

/// The merge of two combined disjunction operand lists.
pub open spec fn s_merge_or(p: Seq<Exv>, q: Seq<Exv>, fuel: nat) -> Option<Seq<Exv>>
    decreases fuel, 0int,
{
    if fuel == 0 {
        Option::None
    } else if q.len() == 0 {
        Option::Some(p)
    } else if p.len() == 0 {
        Option::Some(q)
    } else {
        match s_or_rec(seq![p[0], q[0]], (fuel - 1) as nat) {
            Option::None => Option::None,
            Option::Some(h) => {
                if h.len() == 0 {
                    s_merge_or(p.drop_first(), q.drop_first(), (fuel - 1) as nat)
                } else if h.len() == 1 {
                    match s_merge_or(p.drop_first(), q.drop_first(), (fuel - 1) as nat) {
                        Option::None => Option::None,
                        Option::Some(r) => Option::Some(seq![h[0]] + r),
                    }
                } else if h.len() == 2 && h[0] == p[0] && h[1] == q[0] {
                    match s_merge_or(p.drop_first(), q, (fuel - 1) as nat) {
                        Option::None => Option::None,
                        Option::Some(r) => Option::Some(seq![p[0]] + r),
                    }
                } else if h.len() == 2 && h[0] == q[0] && h[1] == p[0] {
                    match s_merge_or(p, q.drop_first(), (fuel - 1) as nat) {
                        Option::None => Option::None,
                        Option::Some(r) => Option::Some(seq![q[0]] + r),
                    }
                } else {
                    Option::None
                }
            }
        }
    }
}

/// Simplification of a conjunction view: undefined absorbs, a false
/// operand decides, and otherwise the operands combine, sort and flatten;
/// an empty result is true.
pub open spec fn s_and(u: Exv, fuel: nat) -> Option<Exv>
    decreases fuel, 0int,
{
    if fuel == 0 {
        Option::None
    } else if has_undef(u.ops) {
        Option::Some(Exv::undef())
    } else if has_bool(u.ops, false) {
        Option::Some(Exv::bool_v(false))
    } else if u.ops.len() == 1 {
        Option::Some(u.ops[0])
    } else {
        match s_and_rec(u.ops, (fuel - 1) as nat) {
            Option::None => Option::None,
            Option::Some(v) => {
                if v.len() == 0 {
                    Option::Some(Exv::bool_v(true))
                } else if v.len() == 1 {
                    Option::Some(v[0])
                } else {
                    Option::Some(Exv::node(KindV::And, v))
                }
            }
        }
    }
}

/// The recursive combination of a conjunction operand list.
pub open spec fn s_and_rec(l: Seq<Exv>, fuel: nat) -> Option<Seq<Exv>>
    decreases fuel, 0int,
{
    if fuel == 0 {
        Option::None
    } else if l.len() == 2 && !(l[0].kind is And) && !(l[1].kind is And) {
        let u1 = l[0];
        let u2 = l[1];
        if u1.kind is Boolean && u2.kind is Boolean {
            Option::Some(seq![Exv::bool_v(u1.kind->Boolean_0 && u2.kind->Boolean_0)])
        } else if u1.kind == KindV::Boolean(true) {
            Option::Some(seq![u2])
        } else if u2.kind == KindV::Boolean(true) {
            Option::Some(seq![u1])
        } else if cmp_v(u2, u1) == Ordering::Less {
            Option::Some(seq![u2, u1])
        } else {
            Option::Some(l)
        }
    } else if l.len() == 2 && (l[0].kind is And || l[1].kind is And) {
        if l[0].kind is And && l[1].kind is And {
            s_merge_and(l[0].ops, l[1].ops, (fuel - 1) as nat)
        } else if l[0].kind is And {
            s_merge_and(l[0].ops, seq![l[1]], (fuel - 1) as nat)
        } else {
            s_merge_and(seq![l[0]], l[1].ops, (fuel - 1) as nat)
        }
    } else if l.len() > 2 {
        match s_and_rec(l.drop_first(), (fuel - 1) as nat) {
            Option::None => Option::None,
            Option::Some(w) => {
                if l[0].kind is And {
                    s_merge_and(l[0].ops, w, (fuel - 1) as nat)
                } else {
                    s_merge_and(seq![l[0]], w, (fuel - 1) as nat)
                }
            }
        }
    } else {
        Option::Some(l)
    }
}

/// The merge of two combined conjunction operand lists.
pub open spec fn s_merge_and(p: Seq<Exv>, q: Seq<Exv>, fuel: nat) -> Option<Seq<Exv>>
    decreases fuel, 0int,
{
    if fuel == 0 {
        Option::None
    } else if q.len() == 0 {
        Option::Some(p)
    } else if p.len() == 0 {
        Option::Some(q)
    } else {
        match s_and_rec(seq![p[0], q[0]], (fuel - 1) as nat) {
            Option::None => Option::None,
            Option::Some(h) => {
                if h.len() == 0 {
                    s_merge_and(p.drop_first(), q.drop_first(), (fuel - 1) as nat)
                } else if h.len() == 1 {
                    match s_merge_and(p.drop_first(), q.drop_first(), (fuel - 1) as nat) {
                        Option::None => Option::None,
                        Option::Some(r) => Option::Some(seq![h[0]] + r),
                    }
                } else if h.len() == 2 && h[0] == p[0] && h[1] == q[0] {
                    match s_merge_and(p.drop_first(), q, (fuel - 1) as nat) {
                        Option::None => Option::None,
                        Option::Some(r) => Option::Some(seq![p[0]] + r),
                    }
                } else if h.len() == 2 && h[0] == q[0] && h[1] == p[0] {
                    match s_merge_and(p, q.drop_first(), (fuel - 1) as nat) {
                        Option::None => Option::None,
                        Option::Some(r) => Option::Some(seq![q[0]] + r),
                    }
                } else {
                    Option::None
                }
            }
        }
    }
}

/// Whether some operand is the given boolean atom.
fn any_bool(v: &Vec<Expr>, b: bool) -> (r: bool)
    ensures
        r == has_bool(views_of(v@), b),
{
    let mut i: usize = 0;
    while i < v.len()
        invariant
            i <= v@.len(),
            forall|j: int|
                0 <= j < i ==> (#[trigger] views_of(v@)[j]).kind != KindV::Boolean(b),
        decreases v@.len() - i,
    {
        let hit = match v[i].kind {
            ExprKind::Boolean(c) => c == b,
            _ => false,
        };
        proof {
            lemma_view_facts(v@[i as int]);
        }
        if hit {
            proof {
                assert(views_of(v@)[i as int].kind == KindV::Boolean(b));
            }
            return true;
        }
        i = i + 1;
    }
    false
}

/// The fueled simplification of a disjunction.
pub fn or_fuel(u: &Expr, fuel: u64) -> (r: Option<Expr>)
    ensures
        opt_view(r) == s_or(u@, fuel as nat),
    decreases fuel as nat, 0int,
{
    proof {
        lemma_view_facts(*u);
        assert(views_of(u.operands@) =~= u@.ops);
    }
    if fuel == 0 {
        Option::None
    } else if crate::expression::any_undefined(&u.operands) {
        Option::Some(Expr::undefined())
    } else if any_bool(&u.operands, true) {
        Option::Some(Expr::boolean(true))
    } else if u.operands.len() == 1 {
        Option::Some(u.operands[0].duplicate())
    } else {
        let ops = crate::expression::tail_exprs(&u.operands, 0);
        proof {
            assert(views_of(u.operands@).skip(0) =~= u@.ops);
        }
        match or_rec_fuel(ops, fuel - 1) {
            Option::None => Option::None,
            Option::Some(v) => {
                if v.len() == 0 {
                    Option::Some(Expr::boolean(false))
                } else if v.len() == 1 {
                    Option::Some(v[0].duplicate())
                } else {
                    Option::Some(Expr::node(ExprKind::Or, v))
                }
            }
        }
    }
}

/// The fueled recursive combination of a disjunction operand list.
fn or_rec_fuel(l: Vec<Expr>, fuel: u64) -> (r: Option<Vec<Expr>>)
    ensures
        opt_views(r) == s_or_rec(views_of(l@), fuel as nat),
    decreases fuel as nat, 0int,
{
    if fuel == 0 {
        return Option::None;
    }
    proof {
        if l@.len() >= 1 {
            lemma_view_facts(l@[0]);
        }
        if l@.len() >= 2 {
            lemma_view_facts(l@[1]);
        }
    }
    let two_plain = l.len() == 2 && !matches!(l[0].kind, ExprKind::Or) && !matches!(
        l[1].kind,
        ExprKind::Or,
    );
    if two_plain {
        let u1 = &l[0];
        let u2 = &l[1];
        match (&u1.kind, &u2.kind) {
            (ExprKind::Boolean(b1), ExprKind::Boolean(b2)) => Option::Some(
                vec_of1(Expr::boolean(*b1 || *b2)),
            ),
            (ExprKind::Boolean(false), _) => Option::Some(vec_of1(u2.duplicate())),
            (_, ExprKind::Boolean(false)) => Option::Some(vec_of1(u1.duplicate())),
            _ => match compare(u2, u1) {
                Ordering::Less => Option::Some(vec_of2(u2.duplicate(), u1.duplicate())),
                _ => Option::Some(l),
            },
        }
    } else if l.len() == 2 && (matches!(l[0].kind, ExprKind::Or) || matches!(
        l[1].kind,
        ExprKind::Or,
    )) {
        if matches!(l[0].kind, ExprKind::Or) && matches!(l[1].kind, ExprKind::Or) {
            let p = crate::expression::tail_exprs(&l[0].operands, 0);
            let q = crate::expression::tail_exprs(&l[1].operands, 0);
            proof {
                assert(views_of(l@[0].operands@).skip(0) =~= l@[0]@.ops);
                assert(views_of(l@[1].operands@).skip(0) =~= l@[1]@.ops);
            }
            merge_or_fuel(p, q, fuel - 1)
        } else if matches!(l[0].kind, ExprKind::Or) {
            let p = crate::expression::tail_exprs(&l[0].operands, 0);
            let q = vec_of1(l[1].duplicate());
            proof {
                assert(views_of(l@[0].operands@).skip(0) =~= l@[0]@.ops);
            }
            merge_or_fuel(p, q, fuel - 1)
        } else {
            let p = vec_of1(l[0].duplicate());
            let q = crate::expression::tail_exprs(&l[1].operands, 0);
            proof {
                assert(views_of(l@[1].operands@).skip(0) =~= l@[1]@.ops);
            }
            merge_or_fuel(p, q, fuel - 1)
        }
    } else if l.len() > 2 {
        let t = crate::expression::tail_exprs(&l, 1);
        proof {
            assert(views_of(l@).skip(1) =~= views_of(l@).drop_first());
        }
        match or_rec_fuel(t, fuel - 1) {
            Option::None => Option::None,
            Option::Some(w) => {
                if matches!(l[0].kind, ExprKind::Or) {
                    let p = crate::expression::tail_exprs(&l[0].operands, 0);
                    proof {
                        assert(views_of(l@[0].operands@).skip(0) =~= l@[0]@.ops);
                    }
                    merge_or_fuel(p, w, fuel - 1)
                } else {
                    let p = vec_of1(l[0].duplicate());
                    merge_or_fuel(p, w, fuel - 1)
                }
            }
        }
    } else {
        Option::Some(l)
    }
}

/// The fueled merge of two combined disjunction operand lists.
fn merge_or_fuel(p: Vec<Expr>, q: Vec<Expr>, fuel: u64) -> (r: Option<Vec<Expr>>)
    ensures
        opt_views(r) == s_merge_or(views_of(p@), views_of(q@), fuel as nat),
    decreases fuel as nat, 0int,
{
    if fuel == 0 {
        Option::None
    } else if q.len() == 0 {
        Option::Some(p)
    } else if p.len() == 0 {
        Option::Some(q)
    } else {
        let pair = vec_of2(p[0].duplicate(), q[0].duplicate());
        match or_rec_fuel(pair, fuel - 1) {
            Option::None => Option::None,
            Option::Some(h) => {
                if h.len() == 0 {
                    let pt = crate::expression::tail_exprs(&p, 1);
                    let qt = crate::expression::tail_exprs(&q, 1);
                    proof {
                        assert(views_of(p@).skip(1) =~= views_of(p@).drop_first());
                        assert(views_of(q@).skip(1) =~= views_of(q@).drop_first());
                    }
                    merge_or_fuel(pt, qt, fuel - 1)
                } else if h.len() == 1 {
                    let pt = crate::expression::tail_exprs(&p, 1);
                    let qt = crate::expression::tail_exprs(&q, 1);
                    proof {
                        assert(views_of(p@).skip(1) =~= views_of(p@).drop_first());
                        assert(views_of(q@).skip(1) =~= views_of(q@).drop_first());
                    }
                    match merge_or_fuel(pt, qt, fuel - 1) {
                        Option::None => Option::None,
                        Option::Some(r) => Option::Some(vec_of_head(h[0].duplicate(), r)),
                    }
                } else if h.len() == 2 && eq_expr(&h[0], &p[0]) && eq_expr(&h[1], &q[0]) {
                    let pt = crate::expression::tail_exprs(&p, 1);
                    proof {
                        assert(views_of(p@).skip(1) =~= views_of(p@).drop_first());
                    }
                    match merge_or_fuel(pt, q, fuel - 1) {
                        Option::None => Option::None,
                        Option::Some(r) => Option::Some(vec_of_head(p[0].duplicate(), r)),
                    }
                } else if h.len() == 2 && eq_expr(&h[0], &q[0]) && eq_expr(&h[1], &p[0]) {
                    let qt = crate::expression::tail_exprs(&q, 1);
                    proof {
                        assert(views_of(q@).skip(1) =~= views_of(q@).drop_first());
                    }
                    match merge_or_fuel(p, qt, fuel - 1) {
                        Option::None => Option::None,
                        Option::Some(r) => Option::Some(vec_of_head(q[0].duplicate(), r)),
                    }
                } else {
                    Option::None
                }
            }
        }
    }
}

/// The fueled simplification of a conjunction.
pub fn and_fuel(u: &Expr, fuel: u64) -> (r: Option<Expr>)
    ensures
        opt_view(r) == s_and(u@, fuel as nat),
    decreases fuel as nat, 0int,
{
    proof {
        lemma_view_facts(*u);
        assert(views_of(u.operands@) =~= u@.ops);
    }
    if fuel == 0 {
        Option::None
    } else if crate::expression::any_undefined(&u.operands) {
        Option::Some(Expr::undefined())
    } else if any_bool(&u.operands, false) {
        Option::Some(Expr::boolean(false))
    } else if u.operands.len() == 1 {
        Option::Some(u.operands[0].duplicate())
    } else {
        let ops = crate::expression::tail_exprs(&u.operands, 0);
        proof {
            assert(views_of(u.operands@).skip(0) =~= u@.ops);
        }
        match and_rec_fuel(ops, fuel - 1) {
            Option::None => Option::None,
            Option::Some(v) => {
                if v.len() == 0 {
                    Option::Some(Expr::boolean(true))
                } else if v.len() == 1 {
                    Option::Some(v[0].duplicate())
                } else {
                    Option::Some(Expr::node(ExprKind::And, v))
                }
            }
        }
    }
}

/// The fueled recursive combination of a conjunction operand list.
fn and_rec_fuel(l: Vec<Expr>, fuel: u64) -> (r: Option<Vec<Expr>>)
    ensures
        opt_views(r) == s_and_rec(views_of(l@), fuel as nat),
    decreases fuel as nat, 0int,
{
    if fuel == 0 {
        return Option::None;
    }
    proof {
        if l@.len() >= 1 {
            lemma_view_facts(l@[0]);
        }
        if l@.len() >= 2 {
            lemma_view_facts(l@[1]);
        }
    }
    let two_plain = l.len() == 2 && !matches!(l[0].kind, ExprKind::And) && !matches!(
        l[1].kind,
        ExprKind::And,
    );
    if two_plain {
        let u1 = &l[0];
        let u2 = &l[1];
        match (&u1.kind, &u2.kind) {
            (ExprKind::Boolean(b1), ExprKind::Boolean(b2)) => Option::Some(
                vec_of1(Expr::boolean(*b1 && *b2)),
            ),
            (ExprKind::Boolean(true), _) => Option::Some(vec_of1(u2.duplicate())),
            (_, ExprKind::Boolean(true)) => Option::Some(vec_of1(u1.duplicate())),
            _ => match compare(u2, u1) {
                Ordering::Less => Option::Some(vec_of2(u2.duplicate(), u1.duplicate())),
                _ => Option::Some(l),
            },
        }
    } else if l.len() == 2 && (matches!(l[0].kind, ExprKind::And) || matches!(
        l[1].kind,
        ExprKind::And,
    )) {
        if matches!(l[0].kind, ExprKind::And) && matches!(l[1].kind, ExprKind::And) {
            let p = crate::expression::tail_exprs(&l[0].operands, 0);
            let q = crate::expression::tail_exprs(&l[1].operands, 0);
            proof {
                assert(views_of(l@[0].operands@).skip(0) =~= l@[0]@.ops);
                assert(views_of(l@[1].operands@).skip(0) =~= l@[1]@.ops);
            }
            merge_and_fuel(p, q, fuel - 1)
        } else if matches!(l[0].kind, ExprKind::And) {
            let p = crate::expression::tail_exprs(&l[0].operands, 0);
            let q = vec_of1(l[1].duplicate());
            proof {
                assert(views_of(l@[0].operands@).skip(0) =~= l@[0]@.ops);
            }
            merge_and_fuel(p, q, fuel - 1)
        } else {
            let p = vec_of1(l[0].duplicate());
            let q = crate::expression::tail_exprs(&l[1].operands, 0);
            proof {
                assert(views_of(l@[1].operands@).skip(0) =~= l@[1]@.ops);
            }
            merge_and_fuel(p, q, fuel - 1)
        }
    } else if l.len() > 2 {
        let t = crate::expression::tail_exprs(&l, 1);
        proof {
            assert(views_of(l@).skip(1) =~= views_of(l@).drop_first());
        }
        match and_rec_fuel(t, fuel - 1) {
            Option::None => Option::None,
            Option::Some(w) => {
                if matches!(l[0].kind, ExprKind::And) {
                    let p = crate::expression::tail_exprs(&l[0].operands, 0);
                    proof {
                        assert(views_of(l@[0].operands@).skip(0) =~= l@[0]@.ops);
                    }
                    merge_and_fuel(p, w, fuel - 1)
                } else {
                    let p = vec_of1(l[0].duplicate());
                    merge_and_fuel(p, w, fuel - 1)
                }
            }
        }
    } else {
        Option::Some(l)
    }
}

/// The fueled merge of two combined conjunction operand lists.
fn merge_and_fuel(p: Vec<Expr>, q: Vec<Expr>, fuel: u64) -> (r: Option<Vec<Expr>>)
    ensures
        opt_views(r) == s_merge_and(views_of(p@), views_of(q@), fuel as nat),
    decreases fuel as nat, 0int,
{
    if fuel == 0 {
        Option::None
    } else if q.len() == 0 {
        Option::Some(p)
    } else if p.len() == 0 {
        Option::Some(q)
    } else {
        let pair = vec_of2(p[0].duplicate(), q[0].duplicate());
        match and_rec_fuel(pair, fuel - 1) {
            Option::None => Option::None,
            Option::Some(h) => {
                if h.len() == 0 {
                    let pt = crate::expression::tail_exprs(&p, 1);
                    let qt = crate::expression::tail_exprs(&q, 1);
                    proof {
                        assert(views_of(p@).skip(1) =~= views_of(p@).drop_first());
                        assert(views_of(q@).skip(1) =~= views_of(q@).drop_first());
                    }
                    merge_and_fuel(pt, qt, fuel - 1)
                } else if h.len() == 1 {
                    let pt = crate::expression::tail_exprs(&p, 1);
                    let qt = crate::expression::tail_exprs(&q, 1);
                    proof {
                        assert(views_of(p@).skip(1) =~= views_of(p@).drop_first());
                        assert(views_of(q@).skip(1) =~= views_of(q@).drop_first());
                    }
                    match merge_and_fuel(pt, qt, fuel - 1) {
                        Option::None => Option::None,
                        Option::Some(r) => Option::Some(vec_of_head(h[0].duplicate(), r)),
                    }
                } else if h.len() == 2 && eq_expr(&h[0], &p[0]) && eq_expr(&h[1], &q[0]) {
                    let pt = crate::expression::tail_exprs(&p, 1);
                    proof {
                        assert(views_of(p@).skip(1) =~= views_of(p@).drop_first());
                    }
                    match merge_and_fuel(pt, q, fuel - 1) {
                        Option::None => Option::None,
                        Option::Some(r) => Option::Some(vec_of_head(p[0].duplicate(), r)),
                    }
                } else if h.len() == 2 && eq_expr(&h[0], &q[0]) && eq_expr(&h[1], &p[0]) {
                    let qt = crate::expression::tail_exprs(&q, 1);
                    proof {
                        assert(views_of(q@).skip(1) =~= views_of(q@).drop_first());
                    }
                    match merge_and_fuel(p, qt, fuel - 1) {
                        Option::None => Option::None,
                        Option::Some(r) => Option::Some(vec_of_head(q[0].duplicate(), r)),
                    }
                } else {
                    Option::None
                }
            }
        }
    }
}

/// Simplifies a disjunction: undefined absorbs, a true operand decides,
/// booleans combine, false operands vanish, and the rest sorts and
/// flattens; an empty result is false.
pub fn simplify_or(u: &Expr) -> (r: Expr)
    ensures
        r@ == unfuel(s_or(u@, SIMPLIFY_FUEL as nat)),
{
    match or_fuel(u, SIMPLIFY_FUEL) {
        Option::Some(e) => e,
        Option::None => Expr::undefined(),
    }
}

/// Simplifies a conjunction: undefined absorbs, a false operand decides,
/// booleans combine, true operands vanish, and the rest sorts and
/// flattens; an empty result is true.
pub fn simplify_and(u: &Expr) -> (r: Expr)
    ensures
        r@ == unfuel(s_and(u@, SIMPLIFY_FUEL as nat)),
{
    match and_fuel(u, SIMPLIFY_FUEL) {
        Option::Some(e) => e,
        Option::None => Expr::undefined(),
    }
}

} // verus!
