//! The canonical total order on expressions, used to sort the operands of
//! commutative operators so that structural equality coincides with semantic
//! equality in simplified form.

use core::cmp::Ordering;
use vstd::prelude::*;

use crate::expression::{
    esize, esize_ops, kind_view, lemma_view_facts, numer_v, denom_v, views_of, Expr, ExprKind, Exv,
    KindV,
};

verus! {

broadcast use vstd::std_specs::vec::group_vec_axioms, vstd::seq::group_seq_axioms;

/// The opposite ordering.
pub open spec fn invert_v(o: Ordering) -> Ordering {
    match o {
        Ordering::Less => Ordering::Greater,
        Ordering::Greater => Ordering::Less,
        Ordering::Equal => Ordering::Equal,
    }
}

/// Comparison of two mathematical integers.
pub open spec fn int_cmp_v(a: int, b: int) -> Ordering {
    if a < b {
        Ordering::Less
    } else if a > b {
        Ordering::Greater
    } else {
        Ordering::Equal
    }
}

/// Lexicographic comparison of two character sequences, starting at `i`;
/// characters compare by code point, and a proper prefix is less.
pub open spec fn cmp_chars_v(s1: Seq<char>, s2: Seq<char>, i: int) -> Ordering
    decreases s1.len() - i,
    when i >= 0
{
    if i >= s1.len() || i >= s2.len() {
        int_cmp_v(s1.len() as int, s2.len() as int)
    } else if s1[i] != s2[i] {
        int_cmp_v(s1[i] as u32 as int, s2[i] as u32 as int)
    } else {
        cmp_chars_v(s1, s2, i + 1)
    }
}

/// The comparison group of a kind: rationals, then Gaussians, then booleans,
/// then the promotion chain of the structural kinds, then the remaining kinds
/// in a fixed order.
pub open spec fn kind_group(k: KindV) -> int {
    match k {
        KindV::Integer(_) => 0,
        KindV::Fraction(_, _) => 0,
        KindV::Gaussian => 1,
        KindV::Boolean(_) => 2,
        KindV::And => 3,
        KindV::Or => 3,
        KindV::Not => 3,
        KindV::Product => 3,
        KindV::Power => 3,
        KindV::Sum => 3,
        KindV::Factorial => 3,
        KindV::Func(_) => 3,
        KindV::Symbol(_) => 3,
        KindV::Undefined => 4,
        KindV::Quotient => 5,
        KindV::Difference => 6,
        KindV::SetLiteral => 7,
        KindV::Union => 8,
        KindV::Intersection => 9,
        KindV::SetDifference => 10,
        KindV::Member => 11,
    }
}

/// The position of a structural kind in the promotion chain: a kind compares
/// to a later one by promoting the later operand into its own shape.
pub open spec fn chain_pos(k: KindV) -> int {
    match k {
        KindV::And => 0,
        KindV::Or => 1,
        KindV::Not => 2,
        KindV::Product => 3,
        KindV::Power => 4,
        KindV::Sum => 5,
        KindV::Factorial => 6,
        KindV::Func(_) => 7,
        KindV::Symbol(_) => 8,
        _ => 9,
    }
}

/// Comparison of two rational atom views by cross-multiplication.
pub open spec fn rational_cmp_v(a: Exv, b: Exv) -> Ordering {
    int_cmp_v(numer_v(a) * denom_v(b), numer_v(b) * denom_v(a))
}

/// The canonical order on expression views.
pub open spec fn cmp_v(a: Exv, b: Exv) -> Ordering
    decreases esize(a) + esize(b), 2int, 0int,
{
    let ga = kind_group(a.kind);
    let gb = kind_group(b.kind);
    if ga != gb {
        int_cmp_v(ga, gb)
    } else if ga == 0 {
        rational_cmp_v(a, b)
    } else if ga == 2 {
        match (a.kind, b.kind) {
            (KindV::Boolean(b1), KindV::Boolean(b2)) => {
                if b1 == b2 {
                    Ordering::Equal
                } else if !b1 {
                    Ordering::Less
                } else {
                    Ordering::Greater
                }
            }
            _ => Ordering::Equal,
        }
    } else if ga == 3 {
        let pa = chain_pos(a.kind);
        let pb = chain_pos(b.kind);
        if pa == pb {
            match (a.kind, b.kind) {
                (KindV::Symbol(s1), KindV::Symbol(s2)) => cmp_chars_v(s1, s2, 0),
                (KindV::Func(f1), KindV::Func(f2)) => {
                    let c = cmp_chars_v(f1, f2, 0);
                    if c != Ordering::Equal {
                        c
                    } else {
                        cmp_seq_from_v(a.ops, b.ops, 0)
                    }
                }
                (KindV::And, _) | (KindV::Or, _) | (KindV::Product, _) | (KindV::Sum, _) => {
                    cmp_seq_back_v(a.ops, b.ops, 0)
                }
                _ => cmp_seq_from_v(a.ops, b.ops, 0),
            }
        } else if pa < pb {
            cmp_promoted_v(a, b)
        } else {
            invert_v(cmp_promoted_v(b, a))
        }
    } else {
        cmp_seq_from_v(a.ops, b.ops, 0)
    }
}

/// Comparison of a structural view against a later one in the promotion
/// chain, as if the later one were wrapped in a node of the earlier kind.
pub open spec fn cmp_promoted_v(a: Exv, b: Exv) -> Ordering
    recommends
        kind_group(a.kind) == 3,
        kind_group(b.kind) == 3,
        chain_pos(a.kind) < chain_pos(b.kind),
    decreases esize(a) + esize(b), 1int, 0int,
        via cmp_promoted_v_decreases
{
    match a.kind {
        KindV::And | KindV::Or | KindV::Product | KindV::Sum => {
            if a.ops.len() == 0 {
                Ordering::Less
            } else {
                let c = cmp_v(a.ops.last(), b);
                if c != Ordering::Equal {
                    c
                } else if a.ops.len() >= 2 {
                    Ordering::Greater
                } else {
                    Ordering::Equal
                }
            }
        }
        KindV::Not | KindV::Factorial => {
            if a.ops.len() == 1 {
                if a.ops[0] == b {
                    Ordering::Greater
                } else {
                    cmp_v(a.ops[0], b)
                }
            } else {
                Ordering::Less
            }
        }
        KindV::Power => {
            if a.ops.len() == 2 {
                let c = cmp_v(a.ops[0], b);
                if c != Ordering::Equal {
                    c
                } else {
                    cmp_v(a.ops[1], Exv::int_v(1))
                }
            } else {
                Ordering::Less
            }
        }
        KindV::Func(f) => match b.kind {
            KindV::Symbol(s) => {
                let c = cmp_chars_v(f, s, 0);
                if c == Ordering::Equal {
                    Ordering::Greater
                } else {
                    c
                }
            }
            _ => Ordering::Less,
        },
        _ => Ordering::Equal,
    }
}

/// Lexicographic comparison of two operand sequences from the front,
/// starting at position `i`; when one side is exhausted, the shorter is less.
pub open spec fn cmp_seq_from_v(s1: Seq<Exv>, s2: Seq<Exv>, i: int) -> Ordering
    decreases esize_ops(s1) + esize_ops(s2), 3int, s1.len() - i,
    when i >= 0
        via cmp_seq_from_v_decreases
{
    if i >= s1.len() || i >= s2.len() {
        int_cmp_v(s1.len() as int, s2.len() as int)
    } else {
        let c = cmp_v(s1[i], s2[i]);
        if c != Ordering::Equal {
            c
        } else {
            cmp_seq_from_v(s1, s2, i + 1)
        }
    }
}

/// Lexicographic comparison of two operand sequences from the back, `k`
/// positions in; when one side is exhausted, the shorter is less.
pub open spec fn cmp_seq_back_v(s1: Seq<Exv>, s2: Seq<Exv>, k: int) -> Ordering
    decreases esize_ops(s1) + esize_ops(s2), 3int, s1.len() + s2.len() - 2 * k,
    when k >= 0
        via cmp_seq_back_v_decreases
{
    if k >= s1.len() || k >= s2.len() {
        int_cmp_v(s1.len() as int, s2.len() as int)
    } else {
        let c = cmp_v(s1[s1.len() - 1 - k], s2[s2.len() - 1 - k]);
        if c != Ordering::Equal {
            c
        } else {
            cmp_seq_back_v(s1, s2, k + 1)
        }
    }
}

#[via_fn]
proof fn cmp_promoted_v_decreases(a: Exv, b: Exv) {
    if a.ops.len() >= 1 {
        lemma_esize_ops_elem(a.ops, a.ops.len() - 1);
        lemma_esize_ops_elem(a.ops, 0);
    }
    if a.ops.len() >= 2 {
        lemma_esize_ops_elem(a.ops, 1);
    }
}

#[via_fn]
proof fn cmp_seq_from_v_decreases(s1: Seq<Exv>, s2: Seq<Exv>, i: int) {
    if 0 <= i < s1.len() && i < s2.len() {
        lemma_esize_ops_elem(s1, i);
        lemma_esize_ops_elem(s2, i);
    }
}

#[via_fn]
proof fn cmp_seq_back_v_decreases(s1: Seq<Exv>, s2: Seq<Exv>, k: int) {
    if 0 <= k < s1.len() && k < s2.len() {
        lemma_esize_ops_elem(s1, s1.len() - 1 - k);
        lemma_esize_ops_elem(s2, s2.len() - 1 - k);
    }
}

/// An element of an operand sequence is no larger than the whole sequence.
pub proof fn lemma_esize_ops_elem(s: Seq<Exv>, i: int)
    requires
        0 <= i < s.len(),
    ensures
        esize(s[i]) <= esize_ops(s),
    decreases s.len(),
{
    if i == 0 {
    } else {
        lemma_esize_ops_elem(s.drop_first(), i - 1);
    }
}

/// The operand views of an expression are the views of its operands.
pub proof fn lemma_ops_views(e: Expr)
    ensures
        e@.ops == views_of(e.operands@),
{
    lemma_view_facts(e);
    assert(e@.ops =~= views_of(e.operands@));
}

/// The size of a view is the size of its operand views, plus one.
pub proof fn lemma_esize_unfold(e: Exv)
    ensures
        esize(e) == 1 + esize_ops(e.ops),
        esize(e) >= 1,
{
}

/// The opposite ordering.
pub fn invert(o: Ordering) -> (r: Ordering)
    ensures
        r == invert_v(o),
{
    match o {
        Ordering::Less => Ordering::Greater,
        Ordering::Greater => Ordering::Less,
        Ordering::Equal => Ordering::Equal,
    }
}

/// The comparison group of a kind tag.
fn group_of(k: &ExprKind) -> (r: u32)
    ensures
        r as int == kind_group(kind_view(*k)),
{
    match k {
        ExprKind::Integer(_) => 0,
        ExprKind::Fraction(_, _) => 0,
        ExprKind::Gaussian => 1,
        ExprKind::Boolean(_) => 2,
        ExprKind::And => 3,
        ExprKind::Or => 3,
        ExprKind::Not => 3,
        ExprKind::Product => 3,
        ExprKind::Power => 3,
        ExprKind::Sum => 3,
        ExprKind::Factorial => 3,
        ExprKind::Func(_) => 3,
        ExprKind::Symbol(_) => 3,
        ExprKind::Undefined => 4,
        ExprKind::Quotient => 5,
        ExprKind::Difference => 6,
        ExprKind::SetLiteral => 7,
        ExprKind::Union => 8,
        ExprKind::Intersection => 9,
        ExprKind::SetDifference => 10,
        ExprKind::Member => 11,
    }
}

/// The position of a structural kind tag in the promotion chain.
fn chain_pos_of(k: &ExprKind) -> (r: u32)
    ensures
        r as int == chain_pos(kind_view(*k)),
{
    match k {
        ExprKind::And => 0,
        ExprKind::Or => 1,
        ExprKind::Not => 2,
        ExprKind::Product => 3,
        ExprKind::Power => 4,
        ExprKind::Sum => 5,
        ExprKind::Factorial => 6,
        ExprKind::Func(_) => 7,
        ExprKind::Symbol(_) => 8,
        _ => 9,
    }
}

/// Lexicographic comparison of two names from position `i` on.
fn compare_names(a: &str, b: &str, i: usize) -> (r: Ordering)
    ensures
        r == cmp_chars_v(a@, b@, i as int),
    decreases a@.len() - i,
{
    let la = a.unicode_len();
    let lb = b.unicode_len();
    if i >= la || i >= lb {
        if la < lb {
            Ordering::Less
        } else if la > lb {
            Ordering::Greater
        } else {
            Ordering::Equal
        }
    } else {
        let c1 = a.get_char(i);
        let c2 = b.get_char(i);
        if c1 != c2 {
            if (c1 as u32) < (c2 as u32) {
                Ordering::Less
            } else {
                Ordering::Greater
            }
        } else {
            compare_names(a, b, i + 1)
        }
    }
}

/// Comparison of two rational atoms by cross-multiplication.
fn compare_rational(a: &Expr, b: &Expr) -> (r: Ordering)
    requires
        a@.is_rational(),
        b@.is_rational(),
    ensures
        r == rational_cmp_v(a@, b@),
{
    let n1 = a.numerator_rne();
    let d1 = a.denominator_rne();
    let n2 = b.numerator_rne();
    let d2 = b.denominator_rne();
    proof {
        assert(i128::MIN <= n1 * d2 <= i128::MAX && i128::MIN <= n2 * d1
            <= i128::MAX) by (nonlinear_arith)
            requires
                i64::MIN <= n1 <= i64::MAX,
                i64::MIN <= d1 <= i64::MAX,
                i64::MIN <= n2 <= i64::MAX,
                i64::MIN <= d2 <= i64::MAX,
        ;
    }
    let lhs: i128 = (n1 as i128) * (d2 as i128);
    let rhs: i128 = (n2 as i128) * (d1 as i128);
    if lhs < rhs {
        Ordering::Less
    } else if lhs > rhs {
        Ordering::Greater
    } else {
        Ordering::Equal
    }
}

/// The canonical order on expressions: numbers before symbols and compound
/// shapes, commutative lists compared from the back, and mixed structural
/// kinds compared by promotion.
pub fn compare(a: &Expr, b: &Expr) -> (r: Ordering)
    ensures
        r == cmp_v(a@, b@),
    decreases esize(a@) + esize(b@), 2int, 0int,
{
    proof {
        lemma_view_facts(*a);
        lemma_view_facts(*b);
        lemma_ops_views(*a);
        lemma_ops_views(*b);
    }
    let ga = group_of(&a.kind);
    let gb = group_of(&b.kind);
    if ga != gb {
        if ga < gb {
            Ordering::Less
        } else {
            Ordering::Greater
        }
    } else if ga == 0 {
        compare_rational(a, b)
    } else if ga == 2 {
        match (&a.kind, &b.kind) {
            (ExprKind::Boolean(b1), ExprKind::Boolean(b2)) => {
                if b1 == b2 {
                    Ordering::Equal
                } else if !*b1 {
                    Ordering::Less
                } else {
                    Ordering::Greater
                }
            }
            _ => Ordering::Equal,
        }
    } else if ga == 3 {
        let pa = chain_pos_of(&a.kind);
        let pb = chain_pos_of(&b.kind);
        if pa == pb {
            match (&a.kind, &b.kind) {
                (ExprKind::Symbol(s1), ExprKind::Symbol(s2)) => compare_names(s1, s2, 0),
                (ExprKind::Func(f1), ExprKind::Func(f2)) => {
                    let c = compare_names(f1, f2, 0);
                    match c {
                        Ordering::Equal => compare_ops_from(&a.operands, &b.operands, 0),
                        _ => c,
                    }
                }
                (ExprKind::And, _)
                | (ExprKind::Or, _)
                | (ExprKind::Product, _)
                | (ExprKind::Sum, _) => compare_ops_back(&a.operands, &b.operands, 0),
                _ => compare_ops_from(&a.operands, &b.operands, 0),
            }
        } else if pa < pb {
            compare_promoted(a, b)
        } else {
            invert(compare_promoted(b, a))
        }
    } else {
        compare_ops_from(&a.operands, &b.operands, 0)
    }
}

/// Comparison of a structural expression against a later one in the
/// promotion chain.
fn compare_promoted(a: &Expr, b: &Expr) -> (r: Ordering)
    requires
        kind_group(a@.kind) == 3,
        kind_group(b@.kind) == 3,
        chain_pos(a@.kind) < chain_pos(b@.kind),
    ensures
        r == cmp_promoted_v(a@, b@),
    decreases esize(a@) + esize(b@), 1int, 0int,
{
    proof {
        lemma_view_facts(*a);
        lemma_view_facts(*b);
        if a.operands@.len() >= 1 {
            lemma_esize_ops_elem(a@.ops, a@.ops.len() - 1);
            lemma_esize_ops_elem(a@.ops, 0);
        }
        if a.operands@.len() >= 2 {
            lemma_esize_ops_elem(a@.ops, 1);
        }
    }
    match &a.kind {
        ExprKind::And | ExprKind::Or | ExprKind::Product | ExprKind::Sum => {
            if a.operands.len() == 0 {
                Ordering::Less
            } else {
                let c = compare(&a.operands[a.operands.len() - 1], b);
                match c {
                    Ordering::Equal => {
                        if a.operands.len() >= 2 {
                            Ordering::Greater
                        } else {
                            Ordering::Equal
                        }
                    }
                    _ => c,
                }
            }
        }
        ExprKind::Not | ExprKind::Factorial => {
            if a.operands.len() == 1 {
                if crate::expression::eq_expr(&a.operands[0], b) {
                    Ordering::Greater
                } else {
                    compare(&a.operands[0], b)
                }
            } else {
                Ordering::Less
            }
        }
        ExprKind::Power => {
            if a.operands.len() == 2 {
                let c = compare(&a.operands[0], b);
                match c {
                    Ordering::Equal => {
                        let one = Expr::integer(1);
                        compare(&a.operands[1], &one)
                    }
                    _ => c,
                }
            } else {
                Ordering::Less
            }
        }
        ExprKind::Func(f) => match &b.kind {
            ExprKind::Symbol(s) => {
                let c = compare_names(f, s, 0);
                match c {
                    Ordering::Equal => Ordering::Greater,
                    _ => c,
                }
            }
            _ => Ordering::Less,
        },
        _ => Ordering::Equal,
    }
}

/// Lexicographic comparison of two operand lists from the front.
fn compare_ops_from(v1: &Vec<Expr>, v2: &Vec<Expr>, i: usize) -> (r: Ordering)
    ensures
        r == cmp_seq_from_v(views_of(v1@), views_of(v2@), i as int),
    decreases esize_ops(views_of(v1@)) + esize_ops(views_of(v2@)), 3int, v1@.len() - i,
{
    if i >= v1.len() || i >= v2.len() {
        if v1.len() < v2.len() {
            Ordering::Less
        } else if v1.len() > v2.len() {
            Ordering::Greater
        } else {
            Ordering::Equal
        }
    } else {
        proof {
            lemma_esize_ops_elem(views_of(v1@), i as int);
            lemma_esize_ops_elem(views_of(v2@), i as int);
        }
        let c = compare(&v1[i], &v2[i]);
        match c {
            Ordering::Equal => compare_ops_from(v1, v2, i + 1),
            _ => c,
        }
    }
}

/// Lexicographic comparison of two operand lists from the back.
fn compare_ops_back(v1: &Vec<Expr>, v2: &Vec<Expr>, k: usize) -> (r: Ordering)
    ensures
        r == cmp_seq_back_v(views_of(v1@), views_of(v2@), k as int),
    decreases esize_ops(views_of(v1@)) + esize_ops(views_of(v2@)),
        3int,
        v1@.len() + v2@.len() - 2 * k,
{
    if k >= v1.len() || k >= v2.len() {
        if v1.len() < v2.len() {
            Ordering::Less
        } else if v1.len() > v2.len() {
            Ordering::Greater
        } else {
            Ordering::Equal
        }
    } else {
        proof {
            lemma_esize_ops_elem(views_of(v1@), v1@.len() - 1 - k);
            lemma_esize_ops_elem(views_of(v2@), v2@.len() - 1 - k);
        }
        let c = compare(&v1[v1.len() - 1 - k], &v2[v2.len() - 1 - k]);
        match c {
            Ordering::Equal => compare_ops_back(v1, v2, k + 1),
            _ => c,
        }
    }
}

/// Character comparison is antisymmetric.
proof fn lemma_cmp_chars_antisym(s1: Seq<char>, s2: Seq<char>, i: int)
    requires
        i >= 0,
    ensures
        cmp_chars_v(s2, s1, i) == invert_v(cmp_chars_v(s1, s2, i)),
    decreases s1.len() - i,
{
    if i >= s1.len() || i >= s2.len() {
    } else if s1[i] != s2[i] {
    } else {
        lemma_cmp_chars_antisym(s1, s2, i + 1);
    }
}

/// The canonical order is antisymmetric: swapping the operands inverts the
/// result.
pub proof fn lemma_cmp_antisym(a: Exv, b: Exv)
    ensures
        cmp_v(b, a) == invert_v(cmp_v(a, b)),
    decreases esize(a) + esize(b), 2int, 0int,
{
    let ga = kind_group(a.kind);
    let gb = kind_group(b.kind);
    if ga != gb {
    } else if ga == 0 {
    } else if ga == 2 {
    } else if ga == 3 {
        let pa = chain_pos(a.kind);
        let pb = chain_pos(b.kind);
        if pa == pb {
            match (a.kind, b.kind) {
                (KindV::Symbol(s1), KindV::Symbol(s2)) => {
                    lemma_cmp_chars_antisym(s1, s2, 0);
                }
                (KindV::Func(f1), KindV::Func(f2)) => {
                    lemma_cmp_chars_antisym(f1, f2, 0);
                    lemma_cmp_seq_from_antisym(a.ops, b.ops, 0);
                }
                (KindV::And, _) | (KindV::Or, _) | (KindV::Product, _) | (KindV::Sum, _) => {
                    lemma_cmp_seq_back_antisym(a.ops, b.ops, 0);
                }
                _ => {
                    lemma_cmp_seq_from_antisym(a.ops, b.ops, 0);
                }
            }
        }
    } else {
        lemma_cmp_seq_from_antisym(a.ops, b.ops, 0);
    }
}

/// Front-to-back sequence comparison is antisymmetric.
proof fn lemma_cmp_seq_from_antisym(s1: Seq<Exv>, s2: Seq<Exv>, i: int)
    requires
        i >= 0,
    ensures
        cmp_seq_from_v(s2, s1, i) == invert_v(cmp_seq_from_v(s1, s2, i)),
    decreases esize_ops(s1) + esize_ops(s2), 3int, s1.len() - i,
{
    if i >= s1.len() || i >= s2.len() {
    } else {
        lemma_esize_ops_elem(s1, i);
        lemma_esize_ops_elem(s2, i);
        lemma_cmp_antisym(s1[i], s2[i]);
        if cmp_v(s1[i], s2[i]) == Ordering::Equal {
            lemma_cmp_seq_from_antisym(s1, s2, i + 1);
        }
    }
}

/// Back-to-front sequence comparison is antisymmetric.
proof fn lemma_cmp_seq_back_antisym(s1: Seq<Exv>, s2: Seq<Exv>, k: int)
    requires
        k >= 0,
    ensures
        cmp_seq_back_v(s2, s1, k) == invert_v(cmp_seq_back_v(s1, s2, k)),
    decreases esize_ops(s1) + esize_ops(s2), 3int, s1.len() + s2.len() - 2 * k,
{
    if k >= s1.len() || k >= s2.len() {
    } else {
        lemma_esize_ops_elem(s1, s1.len() - 1 - k);
        lemma_esize_ops_elem(s2, s2.len() - 1 - k);
        lemma_cmp_antisym(s1[s1.len() - 1 - k], s2[s2.len() - 1 - k]);
        if cmp_v(s1[s1.len() - 1 - k], s2[s2.len() - 1 - k]) == Ordering::Equal {
            lemma_cmp_seq_back_antisym(s1, s2, k + 1);
        }
    }
}

/// The order does not tell an expression from itself: comparing a view with
/// itself never yields a strict answer.
pub proof fn lemma_cmp_self_not_strict(a: Exv)
    ensures
        cmp_v(a, a) != Ordering::Less,
        cmp_v(a, a) != Ordering::Greater,
{
    lemma_cmp_antisym(a, a);
}

/// Whether `a` is strictly less than `b` in the canonical order.
pub fn less_than(a: &Expr, b: &Expr) -> (r: bool)
    ensures
        r == (cmp_v(a@, b@) == Ordering::Less),
{
    match compare(a, b) {
        Ordering::Less => true,
        _ => false,
    }
}

} // verus!
