//! Set expressions: the set literal is a sorted, deduplicated operand list,
//! and intersections, differences and membership on two set literals are
//! computed by sorted-list walks.

use core::cmp::Ordering;
use vstd::prelude::*;

use crate::expression::{
    any_undefined, has_undef, lemma_node_view, lemma_view_facts, views_of, Expr, ExprKind, Exv,
    KindV,
};
use crate::order::{cmp_v, compare, lemma_cmp_antisym};

verus! {

broadcast use vstd::std_specs::vec::group_vec_axioms, vstd::seq::group_seq_axioms;

/// Whether `a` is no greater than `b` in the canonical order.
#[verifier::opaque]
pub open spec fn le_v(a: Exv, b: Exv) -> bool {
    cmp_v(a, b) != Ordering::Greater
}

/// Adjacent operands are in order: no element is greater than its successor.
pub open spec fn sorted_le(s: Seq<Exv>) -> bool {
    forall|i: int| 0 <= i < s.len() - 1 ==> le_v(#[trigger] s[i], s[i + 1])
}

/// No two adjacent operands are equal.
pub open spec fn adjacent_distinct(s: Seq<Exv>) -> bool {
    forall|i: int| 0 <= i < s.len() - 1 ==> #[trigger] s[i] != s[i + 1]
}

/// What a strict comparison says about the opposite order.
proof fn lemma_le_from_gt(a: Exv, b: Exv)
    requires
        cmp_v(a, b) == Ordering::Greater,
    ensures
        le_v(b, a),
{
    reveal(le_v);
    lemma_cmp_antisym(a, b);
}

/// A comparison that is not strict gives the order directly.
proof fn lemma_le_from_not_gt(a: Exv, b: Exv)
    requires
        cmp_v(a, b) != Ordering::Greater,
    ensures
        le_v(a, b),
{
    reveal(le_v);
}

/// Insertion of `x` into `s` before the first element greater than `x`.
pub open spec fn insert_sorted_v(x: Exv, s: Seq<Exv>) -> Seq<Exv>
    decreases s,
{
    if s.len() == 0 {
        seq![x]
    } else if cmp_v(s[0], x) == Ordering::Greater {
        seq![x] + s
    } else {
        seq![s[0]] + insert_sorted_v(x, s.drop_first())
    }
}

/// Stable insertion sort of an operand list.
pub open spec fn sort_v(s: Seq<Exv>) -> Seq<Exv>
    decreases s,
{
    if s.len() == 0 {
        Seq::empty()
    } else {
        insert_sorted_v(s.last(), sort_v(s.drop_last()))
    }
}

/// Removal of operands equal to the operand kept before them.
pub open spec fn dedup_v(s: Seq<Exv>) -> Seq<Exv>
    decreases s,
{
    if s.len() == 0 {
        Seq::empty()
    } else {
        let r = dedup_v(s.drop_last());
        if r.len() > 0 && r.last() == s.last() {
            r
        } else {
            r.push(s.last())
        }
    }
}

/// Inserting into a sorted list keeps it sorted.
proof fn lemma_insert_sorted_sorted(x: Exv, s: Seq<Exv>)
    requires
        sorted_le(s),
    ensures
        sorted_le(insert_sorted_v(x, s)),
        insert_sorted_v(x, s).len() == s.len() + 1,
        insert_sorted_v(x, s)[0] == s[0] || insert_sorted_v(x, s)[0] == x,
    decreases s,
{
    if s.len() == 0 {
    } else if cmp_v(s[0], x) == Ordering::Greater {
        lemma_le_from_gt(s[0], x);
        let r = seq![x] + s;
        assert forall|i: int| 0 <= i < r.len() - 1 implies le_v(#[trigger] r[i], r[i + 1]) by {
            if i == 0 {
                assert(r[0] == x && r[1] == s[0]);
            } else {
                assert(r[i] == s[i - 1] && r[i + 1] == s[i]);
            }
        }
    } else {
        lemma_le_from_not_gt(s[0], x);
        let u = s.drop_first();
        assert(sorted_le(u)) by {
            assert forall|i: int| 0 <= i < u.len() - 1 implies le_v(#[trigger] u[i], u[i + 1]) by {
                assert(u[i] == s[i + 1] && u[i + 1] == s[i + 2]);
            }
        }
        lemma_insert_sorted_sorted(x, u);
        let t = insert_sorted_v(x, u);
        let r = seq![s[0]] + t;
        assert forall|i: int| 0 <= i < r.len() - 1 implies le_v(#[trigger] r[i], r[i + 1]) by {
            if i == 0 {
                assert(r[0] == s[0] && r[1] == t[0]);
                if u.len() == 0 {
                    assert(t[0] == x);
                } else {
                    assert(t[0] == u[0] || t[0] == x);
                    assert(u[0] == s[1]);
                }
            } else {
                assert(r[i] == t[i - 1] && r[i + 1] == t[i]);
            }
        }
    }
}

/// Sorting yields a sorted list of the same length.
pub proof fn lemma_sort_sorted(s: Seq<Exv>)
    ensures
        sorted_le(sort_v(s)),
        sort_v(s).len() == s.len(),
    decreases s,
{
    if s.len() == 0 {
    } else {
        lemma_sort_sorted(s.drop_last());
        lemma_insert_sorted_sorted(s.last(), sort_v(s.drop_last()));
    }
}

/// Deduplicating a sorted list keeps it sorted and leaves no equal
/// neighbours; the last element survives.
pub proof fn lemma_dedup_sorted(s: Seq<Exv>)
    requires
        sorted_le(s),
    ensures
        sorted_le(dedup_v(s)),
        adjacent_distinct(dedup_v(s)),
        s.len() > 0 ==> dedup_v(s).len() > 0 && dedup_v(s).last() == s.last(),
        dedup_v(s).len() <= s.len(),
    decreases s,
{
    if s.len() == 0 {
    } else {
        let h = s.drop_last();
        assert(sorted_le(h)) by {
            assert forall|i: int| 0 <= i < h.len() - 1 implies le_v(#[trigger] h[i], h[i + 1]) by {
                assert(h[i] == s[i] && h[i + 1] == s[i + 1]);
            }
        }
        lemma_dedup_sorted(h);
        let r = dedup_v(h);
        if r.len() > 0 && r.last() == s.last() {
        } else {
            let q = r.push(s.last());
            assert forall|i: int| 0 <= i < q.len() - 1 implies le_v(#[trigger] q[i], q[i + 1])
                && q[i] != q[i + 1] by {
                if i < r.len() - 1 {
                    assert(q[i] == r[i] && q[i + 1] == r[i + 1]);
                } else {
                    assert(q[i] == r.last() && q[i + 1] == s.last());
                    assert(r.last() == h.last());
                    assert(h.last() == s[s.len() - 2]);
                    assert(le_v(s[s.len() - 2], s[s.len() - 1]));
                }
            }
        }
    }
}

/// The sorted, deduplicated form of an operand list.
pub open spec fn set_list_v(s: Seq<Exv>) -> Seq<Exv> {
    dedup_v(sort_v(s))
}

/// Insert an expression into an already-sorted list.
fn insert_sorted(x: Expr, v: &mut Vec<Expr>)
    ensures
        views_of(final(v)@) == insert_sorted_v(x@, views_of(old(v)@)),
{
    let ghost s = views_of(old(v)@);
    let mut j: usize = 0;
    while j < v.len() && !matches!(compare(&v[j], &x), Ordering::Greater)
        invariant
            j <= v@.len(),
            v@ == old(v)@,
            forall|i: int| 0 <= i < j ==> cmp_v(#[trigger] views_of(v@)[i], x@)
                != Ordering::Greater,
        decreases v@.len() - j,
    {
        j = j + 1;
    }
    v.insert(j, x);
    proof {
        lemma_insert_at(x@, s, j as int);
        assert(views_of(v@) =~= s.subrange(0, j as int) + seq![x@] + s.subrange(
            j as int,
            s.len() as int,
        ));
    }
}

/// Inserting before the first greater element is what the recursive
/// insertion computes.
proof fn lemma_insert_at(x: Exv, s: Seq<Exv>, j: int)
    requires
        0 <= j <= s.len(),
        forall|i: int| 0 <= i < j ==> cmp_v(#[trigger] s[i], x) != Ordering::Greater,
        j < s.len() ==> cmp_v(s[j], x) == Ordering::Greater,
    ensures
        insert_sorted_v(x, s) == s.subrange(0, j) + seq![x] + s.subrange(j, s.len() as int),
    decreases s,
{
    if s.len() == 0 {
        assert(insert_sorted_v(x, s) =~= s.subrange(0, j) + seq![x] + s.subrange(
            j,
            s.len() as int,
        ));
    } else if cmp_v(s[0], x) == Ordering::Greater {
        assert(j == 0);
        assert(seq![x] + s =~= s.subrange(0, j) + seq![x] + s.subrange(j, s.len() as int));
    } else {
        assert(j >= 1);
        let t = s.drop_first();
        assert(forall|i: int| 0 <= i < j - 1 ==> cmp_v(#[trigger] t[i], x) != Ordering::Greater);
        assert(j - 1 < t.len() ==> cmp_v(t[j - 1], x) == Ordering::Greater);
        lemma_insert_at(x, t, j - 1);
        assert(seq![s[0]] + (t.subrange(0, j - 1) + seq![x] + t.subrange(j - 1, t.len() as int))
            =~= s.subrange(0, j) + seq![x] + s.subrange(j, s.len() as int));
    }
}

/// Sort a list of expressions by the canonical order.
pub fn sort_exprs(v: Vec<Expr>) -> (r: Vec<Expr>)
    ensures
        views_of(r@) == sort_v(views_of(v@)),
{
    let ghost s = views_of(v@);
    let mut r: Vec<Expr> = Vec::new();
    let mut i: usize = 0;
    proof {
        assert(views_of(r@) =~= sort_v(views_of(v@).subrange(0, 0)));
    }
    while i < v.len()
        invariant
            i <= v@.len(),
            s == views_of(v@),
            views_of(r@) == sort_v(s.subrange(0, i as int)),
        decreases v@.len() - i,
    {
        insert_sorted(v[i].duplicate(), &mut r);
        proof {
            let p = s.subrange(0, i as int + 1);
            assert(p.drop_last() =~= s.subrange(0, i as int));
            assert(p.last() == v@[i as int]@);
        }
        i = i + 1;
    }
    proof {
        assert(s.subrange(0, s.len() as int) =~= s);
    }
    r
}

/// Remove operands equal to the operand kept before them.
pub fn dedup_exprs(v: Vec<Expr>) -> (r: Vec<Expr>)
    ensures
        views_of(r@) == dedup_v(views_of(v@)),
{
    let ghost s = views_of(v@);
    let mut r: Vec<Expr> = Vec::new();
    let mut i: usize = 0;
    proof {
        assert(views_of(r@) =~= dedup_v(views_of(v@).subrange(0, 0)));
    }
    while i < v.len()
        invariant
            i <= v@.len(),
            s == views_of(v@),
            views_of(r@) == dedup_v(s.subrange(0, i as int)),
        decreases v@.len() - i,
    {
        let keep = if r.len() == 0 {
            true
        } else {
            !crate::expression::eq_expr(&r[r.len() - 1], &v[i])
        };
        proof {
            let p = s.subrange(0, i as int + 1);
            assert(p.drop_last() =~= s.subrange(0, i as int));
            assert(p.last() == v@[i as int]@);
        }
        if keep {
            r.push(v[i].duplicate());
            proof {
                assert(views_of(r@) =~= dedup_v(s.subrange(0, i as int)).push(v@[i as int]@));
            }
        }
        i = i + 1;
    }
    proof {
        assert(s.subrange(0, s.len() as int) =~= s);
    }
    r
}

/// Simplifies a set literal: the operands sorted by the canonical order and
/// deduplicated.
pub fn simplify_set(expr: &Expr) -> (r: Expr)
    ensures
        r@ == Exv::node(KindV::SetLiteral, set_list_v(expr@.ops)),
        sorted_le(r@.ops),
        adjacent_distinct(r@.ops),
{
    proof {
        lemma_view_facts(*expr);
        lemma_sort_sorted(expr@.ops);
        lemma_dedup_sorted(sort_v(expr@.ops));
    }
    let mut ops: Vec<Expr> = Vec::new();
    let mut i: usize = 0;
    while i < expr.operands.len()
        invariant
            i <= expr.operands@.len(),
            ops@.len() == i as nat,
            forall|j: int| 0 <= j < i ==> ops@[j]@ == expr.operands@[j]@,
        decreases expr.operands@.len() - i,
    {
        ops.push(expr.operands[i].duplicate());
        i = i + 1;
    }
    proof {
        assert(views_of(ops@) =~= expr@.ops);
    }
    let sorted = sort_exprs(ops);
    let deduped = dedup_exprs(sorted);
    let r = Expr { kind: ExprKind::SetLiteral, operands: deduped };
    proof {
        lemma_node_view(r, set_list_v(expr@.ops));
    }
    r
}

} // verus!

use crate::expression::{eq_expr, unfuel, vec_of1, vec_of_head, vec_of2, tail_exprs};
use crate::order::less_than;
use super::{opt_view, opt_views, SIMPLIFY_FUEL};

verus! {

/// Whether some view in a list is an empty set literal.
pub open spec fn has_empty_set(s: Seq<Exv>) -> bool {
    exists|i: int|
        0 <= i < s.len() && (#[trigger] s[i]).kind is SetLiteral && s[i].ops.len() == 0
}

/// Simplification of a union view: an undefined operand absorbs, two set
/// literals concatenate into one sorted deduplicated set, and other
/// operands sort and flatten.
pub open spec fn s_union(u: Exv, fuel: nat) -> Option<Exv>
    decreases fuel, 0int,
{
    if fuel == 0 {
        Option::None
    } else if has_undef(u.ops) {
        Option::Some(Exv::undef())
    } else if u.ops.len() == 1 {
        Option::Some(u.ops[0])
    } else {
        match s_union_rec(u.ops, (fuel - 1) as nat) {
            Option::None => Option::None,
            Option::Some(v) => {
                if v.len() == 1 {
                    Option::Some(v[0])
                } else {
                    Option::Some(Exv::node(KindV::Union, v))
                }
            }
        }
    }
}

/// The recursive combination of a union operand list.
pub open spec fn s_union_rec(l: Seq<Exv>, fuel: nat) -> Option<Seq<Exv>>
    decreases fuel, 0int,
{
    if fuel == 0 {
        Option::None
    } else if l.len() == 2 && !(l[0].kind is Union) && !(l[1].kind is Union) {
        let u1 = l[0];
        let u2 = l[1];
        if u1.kind is SetLiteral && u2.kind is SetLiteral {
            Option::Some(seq![Exv::node(KindV::SetLiteral, set_list_v(u1.ops + u2.ops))])
        } else if cmp_v(u2, u1) == Ordering::Less {
            Option::Some(seq![u2, u1])
        } else {
            Option::Some(l)
        }
    } else if l.len() == 2 && (l[0].kind is Union || l[1].kind is Union) {
        if l[0].kind is Union && l[1].kind is Union {
            s_merge_union(l[0].ops, l[1].ops, (fuel - 1) as nat)
        } else if l[0].kind is Union {
            s_merge_union(l[0].ops, seq![l[1]], (fuel - 1) as nat)
        } else {
            s_merge_union(seq![l[0]], l[1].ops, (fuel - 1) as nat)
        }
    } else if l.len() > 2 {
        match s_union_rec(l.drop_first(), (fuel - 1) as nat) {
            Option::None => Option::None,
            Option::Some(w) => {
                if l[0].kind is Union {
                    s_merge_union(l[0].ops, w, (fuel - 1) as nat)
                } else {
                    s_merge_union(seq![l[0]], w, (fuel - 1) as nat)
                }
            }
        }
    } else {
        Option::Some(l)
    }
}

/// The merge of two combined union operand lists.
pub open spec fn s_merge_union(p: Seq<Exv>, q: Seq<Exv>, fuel: nat) -> Option<Seq<Exv>>
    decreases fuel, 0int,
{
    if fuel == 0 {
        Option::None
    } else if q.len() == 0 {
        Option::Some(p)
    } else if p.len() == 0 {
        Option::Some(q)
    } else {
        match s_union_rec(seq![p[0], q[0]], (fuel - 1) as nat) {
            Option::None => Option::None,
            Option::Some(h) => {
                if h.len() == 0 {
                    s_merge_union(p.drop_first(), q.drop_first(), (fuel - 1) as nat)
                } else if h.len() == 1 {
                    match s_merge_union(p.drop_first(), q.drop_first(), (fuel - 1) as nat) {
                        Option::None => Option::None,
                        Option::Some(r) => Option::Some(seq![h[0]] + r),
                    }
                } else if h.len() == 2 && h[0] == p[0] && h[1] == q[0] {
                    match s_merge_union(p.drop_first(), q, (fuel - 1) as nat) {
                        Option::None => Option::None,
                        Option::Some(r) => Option::Some(seq![p[0]] + r),
                    }
                } else if h.len() == 2 && h[0] == q[0] && h[1] == p[0] {
                    match s_merge_union(p, q.drop_first(), (fuel - 1) as nat) {
                        Option::None => Option::None,
                        Option::Some(r) => Option::Some(seq![q[0]] + r),
                    }
                } else {
                    Option::None
                }
            }
        }
    }
}

/// The sorted intersection of two sorted operand lists, from positions
/// `i` and `j` on.
pub open spec fn intersect_sorted_v(s1: Seq<Exv>, s2: Seq<Exv>, i: int, j: int) -> Seq<Exv>
    decreases s1.len() + s2.len() - i - j,
    when 0 <= i && 0 <= j
{
    if i >= s1.len() || j >= s2.len() {
        Seq::empty()
    } else if s1[i] == s2[j] {
        seq![s1[i]] + intersect_sorted_v(s1, s2, i + 1, j + 1)
    } else if cmp_v(s1[i], s2[j]) == Ordering::Less {
        intersect_sorted_v(s1, s2, i + 1, j)
    } else {
        intersect_sorted_v(s1, s2, i, j + 1)
    }
}

/// The sorted difference of two sorted operand lists, from positions `i`
/// and `j` on: the elements of the first not in the second.
pub open spec fn set_difference_sorted_v(s1: Seq<Exv>, s2: Seq<Exv>, i: int, j: int) -> Seq<Exv>
    decreases s1.len() + s2.len() - i - j,
    when 0 <= i && 0 <= j
{
    if i >= s1.len() {
        Seq::empty()
    } else if j >= s2.len() {
        s1.skip(i)
    } else if s1[i] == s2[j] {
        set_difference_sorted_v(s1, s2, i + 1, j + 1)
    } else if cmp_v(s1[i], s2[j]) == Ordering::Less {
        seq![s1[i]] + set_difference_sorted_v(s1, s2, i + 1, j)
    } else {
        set_difference_sorted_v(s1, s2, i, j + 1)
    }
}

/// Simplification of an intersection view: an undefined operand absorbs,
/// an empty set operand collapses everything, two set literals intersect
/// by a sorted walk, and other operands sort and flatten.
pub open spec fn s_intersection(u: Exv, fuel: nat) -> Option<Exv>
    decreases fuel, 0int,
{
    if fuel == 0 {
        Option::None
    } else if has_undef(u.ops) {
        Option::Some(Exv::undef())
    } else if has_empty_set(u.ops) {
        Option::Some(Exv::node(KindV::SetLiteral, Seq::empty()))
    } else if u.ops.len() == 1 {
        Option::Some(u.ops[0])
    } else {
        match s_intersection_rec(u.ops, (fuel - 1) as nat) {
            Option::None => Option::None,
            Option::Some(v) => {
                if v.len() == 1 {
                    Option::Some(v[0])
                } else {
                    Option::Some(Exv::node(KindV::Intersection, v))
                }
            }
        }
    }
}

/// The recursive combination of an intersection operand list.
pub open spec fn s_intersection_rec(l: Seq<Exv>, fuel: nat) -> Option<Seq<Exv>>
    decreases fuel, 0int,
{
    if fuel == 0 {
        Option::None
    } else if l.len() == 2 && !(l[0].kind is Intersection) && !(l[1].kind is Intersection) {
        let u1 = l[0];
        let u2 = l[1];
        if u1.kind is SetLiteral && u2.kind is SetLiteral {
            Option::Some(
                seq![Exv::node(KindV::SetLiteral, intersect_sorted_v(u1.ops, u2.ops, 0, 0))],
            )
        } else if cmp_v(u2, u1) == Ordering::Less {
            Option::Some(seq![u2, u1])
        } else {
            Option::Some(l)
        }
    } else if l.len() == 2 && (l[0].kind is Intersection || l[1].kind is Intersection) {
        if l[0].kind is Intersection && l[1].kind is Intersection {
            s_merge_intersection(l[0].ops, l[1].ops, (fuel - 1) as nat)
        } else if l[0].kind is Intersection {
            s_merge_intersection(l[0].ops, seq![l[1]], (fuel - 1) as nat)
        } else {
            s_merge_intersection(seq![l[0]], l[1].ops, (fuel - 1) as nat)
        }
    } else if l.len() > 2 {
        match s_intersection_rec(l.drop_first(), (fuel - 1) as nat) {
            Option::None => Option::None,
            Option::Some(w) => {
                if l[0].kind is Intersection {
                    s_merge_intersection(l[0].ops, w, (fuel - 1) as nat)
                } else {
                    s_merge_intersection(seq![l[0]], w, (fuel - 1) as nat)
                }
            }
        }
    } else {
        Option::Some(l)
    }
}

/// The merge of two combined intersection operand lists.
pub open spec fn s_merge_intersection(p: Seq<Exv>, q: Seq<Exv>, fuel: nat) -> Option<Seq<Exv>>
    decreases fuel, 0int,
{
    if fuel == 0 {
        Option::None
    } else if q.len() == 0 {
        Option::Some(p)
    } else if p.len() == 0 {
        Option::Some(q)
    } else {
        match s_intersection_rec(seq![p[0], q[0]], (fuel - 1) as nat) {
            Option::None => Option::None,
            Option::Some(h) => {
                if h.len() == 0 {
                    s_merge_intersection(p.drop_first(), q.drop_first(), (fuel - 1) as nat)
                } else if h.len() == 1 {
                    match s_merge_intersection(p.drop_first(), q.drop_first(), (fuel - 1) as nat) {
                        Option::None => Option::None,
                        Option::Some(r) => Option::Some(seq![h[0]] + r),
                    }
                } else if h.len() == 2 && h[0] == p[0] && h[1] == q[0] {
                    match s_merge_intersection(p.drop_first(), q, (fuel - 1) as nat) {
                        Option::None => Option::None,
                        Option::Some(r) => Option::Some(seq![p[0]] + r),
                    }
                } else if h.len() == 2 && h[0] == q[0] && h[1] == p[0] {
                    match s_merge_intersection(p, q.drop_first(), (fuel - 1) as nat) {
                        Option::None => Option::None,
                        Option::Some(r) => Option::Some(seq![q[0]] + r),
                    }
                } else {
                    Option::None
                }
            }
        }
    }
}

/// Simplification of a set difference view: an undefined operand absorbs,
/// two set literals subtract by a sorted walk, with an empty side leaving
/// the first operand; anything else stands.
pub open spec fn s_set_difference(e: Exv) -> Exv {
    if has_undef(e.ops) {
        Exv::undef()
    } else if e.ops.len() != 2 {
        e
    } else {
        let u = e.ops[0];
        let v = e.ops[1];
        if u.kind is SetLiteral && v.kind is SetLiteral {
            if u.ops.len() == 0 || v.ops.len() == 0 {
                u
            } else {
                Exv::node(KindV::SetLiteral, set_difference_sorted_v(u.ops, v.ops, 0, 0))
            }
        } else {
            e
        }
    }
}

/// Simplification of a membership view: an undefined operand absorbs, a
/// set literal is searched linearly; anything else stands.
pub open spec fn s_member(e: Exv) -> Exv {
    if has_undef(e.ops) {
        Exv::undef()
    } else if e.ops.len() != 2 {
        e
    } else {
        let u = e.ops[0];
        let s = e.ops[1];
        if s.kind is SetLiteral {
            Exv::bool_v(s.ops.contains(u))
        } else {
            e
        }
    }
}

} // verus!

verus! {

/// Whether some operand is an empty set literal.
fn any_empty_set(v: &Vec<Expr>) -> (r: bool)
    ensures
        r == has_empty_set(views_of(v@)),
{
    let mut i: usize = 0;
    while i < v.len()
        invariant
            i <= v@.len(),
            forall|j: int|
                0 <= j < i ==> !((#[trigger] views_of(v@)[j]).kind is SetLiteral
                    && views_of(v@)[j].ops.len() == 0),
        decreases v@.len() - i,
    {
        proof {
            lemma_view_facts(v@[i as int]);
        }
        if matches!(v[i].kind, ExprKind::SetLiteral) && v[i].operands.len() == 0 {
            proof {
                assert(views_of(v@)[i as int].kind is SetLiteral);
            }
            return true;
        }
        i = i + 1;
    }
    false
}

/// The sorted intersection of two sorted operand lists.
fn intersect_sorted(s1: &Vec<Expr>, s2: &Vec<Expr>, i: usize, j: usize) -> (r: Vec<Expr>)
    requires
        i <= s1@.len(),
        j <= s2@.len(),
    ensures
        views_of(r@) == intersect_sorted_v(views_of(s1@), views_of(s2@), i as int, j as int),
    decreases s1@.len() + s2@.len() - i - j,
{
    if i >= s1.len() || j >= s2.len() {
        let r: Vec<Expr> = Vec::new();
        proof {
            assert(views_of(r@) =~= Seq::<Exv>::empty());
        }
        r
    } else if eq_expr(&s1[i], &s2[j]) {
        let rest = intersect_sorted(s1, s2, i + 1, j + 1);
        vec_of_head(s1[i].duplicate(), rest)
    } else if less_than(&s1[i], &s2[j]) {
        intersect_sorted(s1, s2, i + 1, j)
    } else {
        intersect_sorted(s1, s2, i, j + 1)
    }
}

/// The sorted difference of two sorted operand lists.
fn set_difference_sorted(s1: &Vec<Expr>, s2: &Vec<Expr>, i: usize, j: usize) -> (r: Vec<Expr>)
    requires
        i <= s1@.len(),
        j <= s2@.len(),
    ensures
        views_of(r@) == set_difference_sorted_v(
            views_of(s1@),
            views_of(s2@),
            i as int,
            j as int,
        ),
    decreases s1@.len() + s2@.len() - i - j,
{
    if i >= s1.len() {
        let r: Vec<Expr> = Vec::new();
        proof {
            assert(views_of(r@) =~= Seq::<Exv>::empty());
        }
        r
    } else if j >= s2.len() {
        let r = tail_exprs(s1, i);
        r
    } else if eq_expr(&s1[i], &s2[j]) {
        set_difference_sorted(s1, s2, i + 1, j + 1)
    } else if less_than(&s1[i], &s2[j]) {
        let rest = set_difference_sorted(s1, s2, i + 1, j);
        vec_of_head(s1[i].duplicate(), rest)
    } else {
        set_difference_sorted(s1, s2, i, j + 1)
    }
}

/// The fueled simplification of a union.
pub fn union_fuel(u: &Expr, fuel: u64) -> (r: Option<Expr>)
    ensures
        opt_view(r) == s_union(u@, fuel as nat),
    decreases fuel as nat, 0int,
{
    proof {
        lemma_view_facts(*u);
        assert(views_of(u.operands@) =~= u@.ops);
    }
    if fuel == 0 {
        Option::None
    } else if any_undefined(&u.operands) {
        Option::Some(Expr::undefined())
    } else if u.operands.len() == 1 {
        Option::Some(u.operands[0].duplicate())
    } else {
        let ops = tail_exprs(&u.operands, 0);
        proof {
            assert(views_of(u.operands@).skip(0) =~= u@.ops);
        }
        match union_rec_fuel(ops, fuel - 1) {
            Option::None => Option::None,
            Option::Some(v) => {
                if v.len() == 1 {
                    Option::Some(v[0].duplicate())
                } else {
                    Option::Some(Expr::node(ExprKind::Union, v))
                }
            }
        }
    }
}

/// The fueled recursive combination of a union operand list.
fn union_rec_fuel(l: Vec<Expr>, fuel: u64) -> (r: Option<Vec<Expr>>)
    ensures
        opt_views(r) == s_union_rec(views_of(l@), fuel as nat),
    decreases fuel as nat, 0int,
{
    if fuel == 0 {
        return Option::None;
    }
    proof {
        if l@.len() >= 1 {
            lemma_view_facts(l@[0]);
        }
        if l@.len() >= 2 {
            lemma_view_facts(l@[1]);
        }
    }
    let two_plain = l.len() == 2 && !matches!(l[0].kind, ExprKind::Union) && !matches!(
        l[1].kind,
        ExprKind::Union,
    );
    if two_plain {
        let u1 = &l[0];
        let u2 = &l[1];
        if matches!(u1.kind, ExprKind::SetLiteral) && matches!(u2.kind, ExprKind::SetLiteral) {
            let mut both = tail_exprs(&u1.operands, 0);
            let mut more = tail_exprs(&u2.operands, 0);
            proof {
                assert(views_of(both@) =~= l@[0]@.ops);
                assert(views_of(more@) =~= l@[1]@.ops);
            }
            let ghost b1 = both@;
            let ghost b2 = more@;
            both.append(&mut more);
            proof {
                assert(both@ == b1 + b2);
                assert(views_of(both@) =~= views_of(b1) + views_of(b2));
            }
            let cat = Expr { kind: ExprKind::SetLiteral, operands: both };
            proof {
                crate::expression::lemma_view_facts(cat);
                assert(views_of(cat.operands@) =~= l@[0]@.ops + l@[1]@.ops);
                assert(cat@.ops =~= views_of(cat.operands@));
            }
            let s = simplify_set(&cat);
            Option::Some(vec_of1(s))
        } else {
            match compare(u2, u1) {
                Ordering::Less => Option::Some(vec_of2(u2.duplicate(), u1.duplicate())),
                _ => Option::Some(l),
            }
        }
    } else if l.len() == 2 && (matches!(l[0].kind, ExprKind::Union) || matches!(
        l[1].kind,
        ExprKind::Union,
    )) {
        if matches!(l[0].kind, ExprKind::Union) && matches!(l[1].kind, ExprKind::Union) {
            let p = tail_exprs(&l[0].operands, 0);
            let q = tail_exprs(&l[1].operands, 0);
            proof {
                assert(views_of(l@[0].operands@).skip(0) =~= l@[0]@.ops);
                assert(views_of(l@[1].operands@).skip(0) =~= l@[1]@.ops);
            }
            merge_union_fuel(p, q, fuel - 1)
        } else if matches!(l[0].kind, ExprKind::Union) {
            let p = tail_exprs(&l[0].operands, 0);
            let q = vec_of1(l[1].duplicate());
            proof {
                assert(views_of(l@[0].operands@).skip(0) =~= l@[0]@.ops);
            }
            merge_union_fuel(p, q, fuel - 1)
        } else {
            let p = vec_of1(l[0].duplicate());
            let q = tail_exprs(&l[1].operands, 0);
            proof {
                assert(views_of(l@[1].operands@).skip(0) =~= l@[1]@.ops);
            }
            merge_union_fuel(p, q, fuel - 1)
        }
    } else if l.len() > 2 {
        let t = tail_exprs(&l, 1);
        proof {
            assert(views_of(l@).skip(1) =~= views_of(l@).drop_first());
        }
        match union_rec_fuel(t, fuel - 1) {
            Option::None => Option::None,
            Option::Some(w) => {
                if matches!(l[0].kind, ExprKind::Union) {
                    let p = tail_exprs(&l[0].operands, 0);
                    proof {
                        assert(views_of(l@[0].operands@).skip(0) =~= l@[0]@.ops);
                    }
                    merge_union_fuel(p, w, fuel - 1)
                } else {
                    let p = vec_of1(l[0].duplicate());
                    merge_union_fuel(p, w, fuel - 1)
                }
            }
        }
    } else {
        Option::Some(l)
    }
}

/// The fueled merge of two combined union operand lists.
fn merge_union_fuel(p: Vec<Expr>, q: Vec<Expr>, fuel: u64) -> (r: Option<Vec<Expr>>)
    ensures
        opt_views(r) == s_merge_union(views_of(p@), views_of(q@), fuel as nat),
    decreases fuel as nat, 0int,
{
    if fuel == 0 {
        Option::None
    } else if q.len() == 0 {
        Option::Some(p)
    } else if p.len() == 0 {
        Option::Some(q)
    } else {
        let pair = vec_of2(p[0].duplicate(), q[0].duplicate());
        match union_rec_fuel(pair, fuel - 1) {
            Option::None => Option::None,
            Option::Some(h) => {
                if h.len() == 0 {
                    let pt = tail_exprs(&p, 1);
                    let qt = tail_exprs(&q, 1);
                    proof {
                        assert(views_of(p@).skip(1) =~= views_of(p@).drop_first());
                        assert(views_of(q@).skip(1) =~= views_of(q@).drop_first());
                    }
                    merge_union_fuel(pt, qt, fuel - 1)
                } else if h.len() == 1 {
                    let pt = tail_exprs(&p, 1);
                    let qt = tail_exprs(&q, 1);
                    proof {
                        assert(views_of(p@).skip(1) =~= views_of(p@).drop_first());
                        assert(views_of(q@).skip(1) =~= views_of(q@).drop_first());
                    }
                    match merge_union_fuel(pt, qt, fuel - 1) {
                        Option::None => Option::None,
                        Option::Some(r) => Option::Some(vec_of_head(h[0].duplicate(), r)),
                    }
                } else if h.len() == 2 && eq_expr(&h[0], &p[0]) && eq_expr(&h[1], &q[0]) {
                    let pt = tail_exprs(&p, 1);
                    proof {
                        assert(views_of(p@).skip(1) =~= views_of(p@).drop_first());
                    }
                    match merge_union_fuel(pt, q, fuel - 1) {
                        Option::None => Option::None,
                        Option::Some(r) => Option::Some(vec_of_head(p[0].duplicate(), r)),
                    }
                } else if h.len() == 2 && eq_expr(&h[0], &q[0]) && eq_expr(&h[1], &p[0]) {
                    let qt = tail_exprs(&q, 1);
                    proof {
                        assert(views_of(q@).skip(1) =~= views_of(q@).drop_first());
                    }
                    match merge_union_fuel(p, qt, fuel - 1) {
                        Option::None => Option::None,
                        Option::Some(r) => Option::Some(vec_of_head(q[0].duplicate(), r)),
                    }
                } else {
                    Option::None
                }
            }
        }
    }
}

/// The fueled simplification of an intersection.
pub fn intersection_fuel(u: &Expr, fuel: u64) -> (r: Option<Expr>)
    ensures
        opt_view(r) == s_intersection(u@, fuel as nat),
    decreases fuel as nat, 0int,
{
    proof {
        lemma_view_facts(*u);
        assert(views_of(u.operands@) =~= u@.ops);
    }
    if fuel == 0 {
        Option::None
    } else if any_undefined(&u.operands) {
        Option::Some(Expr::undefined())
    } else if any_empty_set(&u.operands) {
        let empty: Vec<Expr> = Vec::new();
        let r = Expr { kind: ExprKind::SetLiteral, operands: empty };
        proof {
            lemma_node_view(r, Seq::empty());
        }
        Option::Some(r)
    } else if u.operands.len() == 1 {
        Option::Some(u.operands[0].duplicate())
    } else {
        let ops = tail_exprs(&u.operands, 0);
        proof {
            assert(views_of(u.operands@).skip(0) =~= u@.ops);
        }
        match intersection_rec_fuel(ops, fuel - 1) {
            Option::None => Option::None,
            Option::Some(v) => {
                if v.len() == 1 {
                    Option::Some(v[0].duplicate())
                } else {
                    Option::Some(Expr::node(ExprKind::Intersection, v))
                }
            }
        }
    }
}

/// The fueled recursive combination of an intersection operand list.
fn intersection_rec_fuel(l: Vec<Expr>, fuel: u64) -> (r: Option<Vec<Expr>>)
    ensures
        opt_views(r) == s_intersection_rec(views_of(l@), fuel as nat),
    decreases fuel as nat, 0int,
{
    if fuel == 0 {
        return Option::None;
    }
    proof {
        if l@.len() >= 1 {
            lemma_view_facts(l@[0]);
        }
        if l@.len() >= 2 {
            lemma_view_facts(l@[1]);
        }
    }
    let two_plain = l.len() == 2 && !matches!(l[0].kind, ExprKind::Intersection) && !matches!(
        l[1].kind,
        ExprKind::Intersection,
    );
    if two_plain {
        let u1 = &l[0];
        let u2 = &l[1];
        if matches!(u1.kind, ExprKind::SetLiteral) && matches!(u2.kind, ExprKind::SetLiteral) {
            let both = intersect_sorted(&u1.operands, &u2.operands, 0, 0);
            let s = Expr { kind: ExprKind::SetLiteral, operands: both };
            proof {
                assert(views_of(u1.operands@) =~= l@[0]@.ops);
                assert(views_of(u2.operands@) =~= l@[1]@.ops);
                lemma_node_view(
                    s,
                    intersect_sorted_v(l@[0]@.ops, l@[1]@.ops, 0, 0),
                );
            }
            Option::Some(vec_of1(s))
        } else {
            match compare(u2, u1) {
                Ordering::Less => Option::Some(vec_of2(u2.duplicate(), u1.duplicate())),
                _ => Option::Some(l),
            }
        }
    } else if l.len() == 2 && (matches!(l[0].kind, ExprKind::Intersection) || matches!(
        l[1].kind,
        ExprKind::Intersection,
    )) {
        if matches!(l[0].kind, ExprKind::Intersection) && matches!(
            l[1].kind,
            ExprKind::Intersection,
        ) {
            let p = tail_exprs(&l[0].operands, 0);
            let q = tail_exprs(&l[1].operands, 0);
            proof {
                assert(views_of(l@[0].operands@).skip(0) =~= l@[0]@.ops);
                assert(views_of(l@[1].operands@).skip(0) =~= l@[1]@.ops);
            }
            merge_intersection_fuel(p, q, fuel - 1)
        } else if matches!(l[0].kind, ExprKind::Intersection) {
            let p = tail_exprs(&l[0].operands, 0);
            let q = vec_of1(l[1].duplicate());
            proof {
                assert(views_of(l@[0].operands@).skip(0) =~= l@[0]@.ops);
            }
            merge_intersection_fuel(p, q, fuel - 1)
        } else {
            let p = vec_of1(l[0].duplicate());
            let q = tail_exprs(&l[1].operands, 0);
            proof {
                assert(views_of(l@[1].operands@).skip(0) =~= l@[1]@.ops);
            }
            merge_intersection_fuel(p, q, fuel - 1)
        }
    } else if l.len() > 2 {
        let t = tail_exprs(&l, 1);
        proof {
            assert(views_of(l@).skip(1) =~= views_of(l@).drop_first());
        }
        match intersection_rec_fuel(t, fuel - 1) {
            Option::None => Option::None,
            Option::Some(w) => {
                if matches!(l[0].kind, ExprKind::Intersection) {
                    let p = tail_exprs(&l[0].operands, 0);
                    proof {
                        assert(views_of(l@[0].operands@).skip(0) =~= l@[0]@.ops);
                    }
                    merge_intersection_fuel(p, w, fuel - 1)
                } else {
                    let p = vec_of1(l[0].duplicate());
                    merge_intersection_fuel(p, w, fuel - 1)
                }
            }
        }
    } else {
        Option::Some(l)
    }
}

/// The fueled merge of two combined intersection operand lists.
fn merge_intersection_fuel(p: Vec<Expr>, q: Vec<Expr>, fuel: u64) -> (r: Option<Vec<Expr>>)
    ensures
        opt_views(r) == s_merge_intersection(views_of(p@), views_of(q@), fuel as nat),
    decreases fuel as nat, 0int,
{
    if fuel == 0 {
        Option::None
    } else if q.len() == 0 {
        Option::Some(p)
    } else if p.len() == 0 {
        Option::Some(q)
    } else {
        let pair = vec_of2(p[0].duplicate(), q[0].duplicate());
        match intersection_rec_fuel(pair, fuel - 1) {
            Option::None => Option::None,
            Option::Some(h) => {
                if h.len() == 0 {
                    let pt = tail_exprs(&p, 1);
                    let qt = tail_exprs(&q, 1);
                    proof {
                        assert(views_of(p@).skip(1) =~= views_of(p@).drop_first());
                        assert(views_of(q@).skip(1) =~= views_of(q@).drop_first());
                    }
                    merge_intersection_fuel(pt, qt, fuel - 1)
                } else if h.len() == 1 {
                    let pt = tail_exprs(&p, 1);
                    let qt = tail_exprs(&q, 1);
                    proof {
                        assert(views_of(p@).skip(1) =~= views_of(p@).drop_first());
                        assert(views_of(q@).skip(1) =~= views_of(q@).drop_first());
                    }
                    match merge_intersection_fuel(pt, qt, fuel - 1) {
                        Option::None => Option::None,
                        Option::Some(r) => Option::Some(vec_of_head(h[0].duplicate(), r)),
                    }
                } else if h.len() == 2 && eq_expr(&h[0], &p[0]) && eq_expr(&h[1], &q[0]) {
                    let pt = tail_exprs(&p, 1);
                    proof {
                        assert(views_of(p@).skip(1) =~= views_of(p@).drop_first());
                    }
                    match merge_intersection_fuel(pt, q, fuel - 1) {
                        Option::None => Option::None,
                        Option::Some(r) => Option::Some(vec_of_head(p[0].duplicate(), r)),
                    }
                } else if h.len() == 2 && eq_expr(&h[0], &q[0]) && eq_expr(&h[1], &p[0]) {
                    let qt = tail_exprs(&q, 1);
                    proof {
                        assert(views_of(q@).skip(1) =~= views_of(q@).drop_first());
                    }
                    match merge_intersection_fuel(p, qt, fuel - 1) {
                        Option::None => Option::None,
                        Option::Some(r) => Option::Some(vec_of_head(q[0].duplicate(), r)),
                    }
                } else {
                    Option::None
                }
            }
        }
    }
}

/// Simplifies a union: an undefined operand absorbs, two set literals
/// concatenate into one sorted, deduplicated set literal, and other
/// operands sort and flatten.
pub fn simplify_union(u: &Expr) -> (r: Expr)
    ensures
        r@ == unfuel(s_union(u@, SIMPLIFY_FUEL as nat)),
{
    match union_fuel(u, SIMPLIFY_FUEL) {
        Option::Some(e) => e,
        Option::None => Expr::undefined(),
    }
}

/// Simplifies an intersection: an undefined operand absorbs, an empty set
/// operand collapses everything to the empty set, two set literals
/// intersect by a sorted walk, and other operands sort and flatten.
pub fn simplify_intersection(u: &Expr) -> (r: Expr)
    ensures
        r@ == unfuel(s_intersection(u@, SIMPLIFY_FUEL as nat)),
{
    match intersection_fuel(u, SIMPLIFY_FUEL) {
        Option::Some(e) => e,
        Option::None => Expr::undefined(),
    }
}

/// Simplifies a set difference of two set literals by a sorted walk; an
/// undefined operand absorbs, and any other operands are left unchanged.
pub fn simplify_set_difference(expr: &Expr) -> (r: Expr)
    ensures
        r@ == s_set_difference(expr@),
{
    proof {
        lemma_view_facts(*expr);
        assert(views_of(expr.operands@) =~= expr@.ops);
        if expr.operands@.len() >= 1 {
            lemma_view_facts(expr.operands@[0]);
        }
        if expr.operands@.len() >= 2 {
            lemma_view_facts(expr.operands@[1]);
        }
    }
    if any_undefined(&expr.operands) {
        Expr::undefined()
    } else if expr.operands.len() != 2 {
        expr.duplicate()
    } else {
        let u = &expr.operands[0];
        let v = &expr.operands[1];
        if matches!(u.kind, ExprKind::SetLiteral) && matches!(v.kind, ExprKind::SetLiteral) {
            if u.operands.len() == 0 || v.operands.len() == 0 {
                u.duplicate()
            } else {
                let ops = set_difference_sorted(&u.operands, &v.operands, 0, 0);
                let r = Expr { kind: ExprKind::SetLiteral, operands: ops };
                proof {
                    assert(views_of(u.operands@) =~= expr@.ops[0].ops);
                    assert(views_of(v.operands@) =~= expr@.ops[1].ops);
                    lemma_node_view(
                        r,
                        set_difference_sorted_v(expr@.ops[0].ops, expr@.ops[1].ops, 0, 0),
                    );
                }
                r
            }
        } else {
            expr.duplicate()
        }
    }
}

/// Simplifies a membership test of an element against a set literal by a
/// linear search; an undefined operand absorbs, and any other operands are
/// left unchanged.
pub fn simplify_member(expr: &Expr) -> (r: Expr)
    ensures
        r@ == s_member(expr@),
{
    proof {
        lemma_view_facts(*expr);
        assert(views_of(expr.operands@) =~= expr@.ops);
        if expr.operands@.len() >= 2 {
            lemma_view_facts(expr.operands@[1]);
        }
    }
    if any_undefined(&expr.operands) {
        Expr::undefined()
    } else if expr.operands.len() != 2 {
        expr.duplicate()
    } else {
        let u = &expr.operands[0];
        let s = &expr.operands[1];
        if matches!(s.kind, ExprKind::SetLiteral) {
            let mut i: usize = 0;
            let ghost sv = expr@.ops[1].ops;
            proof {
                assert(sv =~= views_of(s.operands@));
            }
            while i < s.operands.len()
                invariant
                    i <= s.operands@.len(),
                    sv == views_of(s.operands@),
                    sv == expr@.ops[1].ops,
                    expr@.ops.len() == 2,
                    expr@.ops[1].kind is SetLiteral,
                    !has_undef(expr@.ops),
                    u@ == expr@.ops[0],
                    forall|j: int| 0 <= j < i ==> views_of(s.operands@)[j] != u@,
                decreases s.operands@.len() - i,
            {
                if eq_expr(&s.operands[i], u) {
                    proof {
                        assert(sv[i as int] == u@);
                        assert(sv.contains(u@));
                    }
                    return Expr::boolean(true);
                }
                i = i + 1;
            }
            proof {
                assert(!sv.contains(u@));
            }
            Expr::boolean(false)
        } else {
            expr.duplicate()
        }
    }
}

} // verus!

verus! {

impl Expr {
    /// A set literal: the given elements sorted by the canonical order and
    /// deduplicated.
    pub fn set(expr: Vec<Expr>) -> (r: Expr)
        ensures
            r@ == Exv::node(KindV::SetLiteral, set_list_v(views_of(expr@))),
    {
        let raw = Expr { kind: ExprKind::SetLiteral, operands: expr };
        proof {
            lemma_view_facts(raw);
            assert(raw@.ops =~= views_of(raw.operands@));
        }
        simplify_set(&raw)
    }
}

} // verus!
