//! Structural numerator, denominator, real and imaginary parts of an
//! expression.

use vstd::prelude::*;

use crate::expression::{
    denom_v, lemma_view_facts, numer_v, unfuel, views_of, Expr, ExprKind, Exv, KindV,
};
use crate::simplify::{opt_view, opt_views, s_simplify, simplify_fuel, SIMPLIFY_FUEL};

verus! {

broadcast use vstd::std_specs::vec::group_vec_axioms, vstd::seq::group_seq_axioms;

/// An n-ary view folded into the shape the iterator constructors build: an
/// empty list is the unit, a single operand stands alone, and more make a
/// node of the given kind.
pub open spec fn fold_nary_v(kind: KindV, ops: Seq<Exv>, unit: int) -> Exv {
    if ops.len() == 0 {
        Exv::int_v(unit)
    } else if ops.len() == 1 {
        ops[0]
    } else {
        Exv::node(kind, ops)
    }
}

/// The structural numerator view: rationals give their numerator, a
/// quotient its first operand, and a product the simplified product of its
/// operands' numerators; anything else is its own numerator.
pub open spec fn s_numerator(e: Exv, fuel: nat) -> Option<Exv>
    decreases fuel, 0int,
{
    if fuel == 0 {
        Option::None
    } else {
        match e.kind {
            KindV::Integer(_) | KindV::Fraction(_, _) => Option::Some(Exv::int_v(numer_v(e))),
            KindV::Quotient => if e.ops.len() == 2 {
                Option::Some(e.ops[0])
            } else {
                Option::Some(e)
            },
            KindV::Product => match s_numerator_list(e.ops, 0, (fuel - 1) as nat) {
                Option::None => Option::None,
                Option::Some(ns) => s_simplify(
                    fold_nary_v(KindV::Product, ns, 1),
                    (fuel - 1) as nat,
                ),
            },
            _ => Option::Some(e),
        }
    }
}

/// The numerators of each operand from position `i` on.
pub open spec fn s_numerator_list(ops: Seq<Exv>, i: int, fuel: nat) -> Option<Seq<Exv>>
    decreases fuel, ops.len() - i + 1,
    when 0 <= i
{
    if i >= ops.len() {
        Option::Some(Seq::empty())
    } else {
        match s_numerator(ops[i], fuel) {
            Option::None => Option::None,
            Option::Some(h) => match s_numerator_list(ops, i + 1, fuel) {
                Option::None => Option::None,
                Option::Some(t) => Option::Some(seq![h] + t),
            },
        }
    }
}

/// The structural denominator view, dually.
pub open spec fn s_denominator(e: Exv, fuel: nat) -> Option<Exv>
    decreases fuel, 0int,
{
    if fuel == 0 {
        Option::None
    } else {
        match e.kind {
            KindV::Integer(_) | KindV::Fraction(_, _) => Option::Some(Exv::int_v(denom_v(e))),
            KindV::Quotient => if e.ops.len() == 2 {
                Option::Some(e.ops[1])
            } else {
                Option::Some(e)
            },
            KindV::Product => match s_denominator_list(e.ops, 0, (fuel - 1) as nat) {
                Option::None => Option::None,
                Option::Some(ns) => s_simplify(
                    fold_nary_v(KindV::Product, ns, 1),
                    (fuel - 1) as nat,
                ),
            },
            _ => Option::Some(e),
        }
    }
}

/// The denominators of each operand from position `i` on.
pub open spec fn s_denominator_list(ops: Seq<Exv>, i: int, fuel: nat) -> Option<Seq<Exv>>
    decreases fuel, ops.len() - i + 1,
    when 0 <= i
{
    if i >= ops.len() {
        Option::Some(Seq::empty())
    } else {
        match s_denominator(ops[i], fuel) {
            Option::None => Option::None,
            Option::Some(h) => match s_denominator_list(ops, i + 1, fuel) {
                Option::None => Option::None,
                Option::Some(t) => Option::Some(seq![h] + t),
            },
        }
    }
}

/// The real part view: rationals are their own real part, a Gaussian pair
/// gives its first operand, sums and products map the real part over their
/// operands and simplify, and anything else becomes an unevaluated
/// application.
pub open spec fn s_re(e: Exv, fuel: nat) -> Option<Exv>
    decreases fuel, 0int,
{
    if fuel == 0 {
        Option::None
    } else {
        match e.kind {
            KindV::Integer(_) | KindV::Fraction(_, _) => Option::Some(e),
            KindV::Gaussian => if e.ops.len() == 2 {
                Option::Some(e.ops[0])
            } else {
                Option::Some(e)
            },
            KindV::Sum => match s_re_list(e.ops, 0, (fuel - 1) as nat) {
                Option::None => Option::None,
                Option::Some(ns) => s_simplify(fold_nary_v(KindV::Sum, ns, 0), (fuel - 1) as nat),
            },
            KindV::Product => match s_re_list(e.ops, 0, (fuel - 1) as nat) {
                Option::None => Option::None,
                Option::Some(ns) => s_simplify(
                    fold_nary_v(KindV::Product, ns, 1),
                    (fuel - 1) as nat,
                ),
            },
            _ => Option::Some(Exv::node(KindV::Func("Re"@), seq![e])),
        }
    }
}

/// The real parts of each operand from position `i` on.
pub open spec fn s_re_list(ops: Seq<Exv>, i: int, fuel: nat) -> Option<Seq<Exv>>
    decreases fuel, ops.len() - i + 1,
    when 0 <= i
{
    if i >= ops.len() {
        Option::Some(Seq::empty())
    } else {
        match s_re(ops[i], fuel) {
            Option::None => Option::None,
            Option::Some(h) => match s_re_list(ops, i + 1, fuel) {
                Option::None => Option::None,
                Option::Some(t) => Option::Some(seq![h] + t),
            },
        }
    }
}

/// The imaginary part view, dually; a rational has imaginary part zero.
pub open spec fn s_im(e: Exv, fuel: nat) -> Option<Exv>
    decreases fuel, 0int,
{
    if fuel == 0 {
        Option::None
    } else {
        match e.kind {
            KindV::Integer(_) | KindV::Fraction(_, _) => Option::Some(Exv::int_v(0)),
            KindV::Gaussian => if e.ops.len() == 2 {
                Option::Some(e.ops[1])
            } else {
                Option::Some(e)
            },
            KindV::Sum => match s_im_list(e.ops, 0, (fuel - 1) as nat) {
                Option::None => Option::None,
                Option::Some(ns) => s_simplify(fold_nary_v(KindV::Sum, ns, 0), (fuel - 1) as nat),
            },
            KindV::Product => match s_im_list(e.ops, 0, (fuel - 1) as nat) {
                Option::None => Option::None,
                Option::Some(ns) => s_simplify(
                    fold_nary_v(KindV::Product, ns, 1),
                    (fuel - 1) as nat,
                ),
            },
            _ => Option::Some(Exv::node(KindV::Func("Im"@), seq![e])),
        }
    }
}

/// The imaginary parts of each operand from position `i` on.
pub open spec fn s_im_list(ops: Seq<Exv>, i: int, fuel: nat) -> Option<Seq<Exv>>
    decreases fuel, ops.len() - i + 1,
    when 0 <= i
{
    if i >= ops.len() {
        Option::Some(Seq::empty())
    } else {
        match s_im(ops[i], fuel) {
            Option::None => Option::None,
            Option::Some(h) => match s_im_list(ops, i + 1, fuel) {
                Option::None => Option::None,
                Option::Some(t) => Option::Some(seq![h] + t),
            },
        }
    }
}

/// An n-ary expression folded as the iterator constructors do.
pub fn fold_nary(kind: ExprKind, ops: Vec<Expr>, unit: i64) -> (r: Expr)
    requires
        -1 <= unit <= 1,
    ensures
        r@ == fold_nary_v(crate::expression::kind_view(kind), views_of(ops@), unit as int),
{
    if ops.len() == 0 {
        Expr::integer(unit)
    } else if ops.len() == 1 {
        let mut ops = ops;
        let r = ops.remove(0);
        r
    } else {
        Expr::node(kind, ops)
    }
}

pub fn numerator_fuel(e: &Expr, fuel: u64) -> (r: Option<Expr>)
    ensures
        opt_view(r) == s_numerator(e@, fuel as nat),
    decreases fuel as nat, 1int,
{
    proof {
        lemma_view_facts(*e);
    }
    if fuel == 0 {
        Option::None
    } else {
        match e.kind {
            ExprKind::Integer(_) | ExprKind::Fraction(_, _) => Option::Some(
                Expr::integer(e.numerator_rne()),
            ),
            ExprKind::Quotient => {
                if e.operands.len() == 2 {
                    Option::Some(e.operands[0].duplicate())
                } else {
                    Option::Some(e.duplicate())
                }
            }
            ExprKind::Product => numerator_nary_case(e, fuel),
            _ => Option::Some(e.duplicate()),
        }
    }
}

/// The product case of the structural numerator.
fn numerator_nary_case(e: &Expr, fuel: u64) -> (r: Option<Expr>)
    requires
        e@.kind is Product,
        fuel >= 1,
    ensures
        opt_view(r) == s_numerator(e@, fuel as nat),
    decreases fuel as nat, 0int,
{
    proof {
        lemma_view_facts(*e);
        assert(views_of(e.operands@) =~= e@.ops);
    }
    match numerator_list_fuel(&e.operands, 0, fuel - 1) {
        Option::None => Option::None,
        Option::Some(ns) => {
            let p = fold_nary(ExprKind::Product, ns, 1);
            simplify_fuel(&p, fuel - 1)
        }
    }
}

/// The numerators of each operand from position `i` on.
fn numerator_list_fuel(ops: &Vec<Expr>, i: usize, fuel: u64) -> (r: Option<Vec<Expr>>)
    requires
        i <= ops@.len(),
    ensures
        opt_views(r) == s_numerator_list(views_of(ops@), i as int, fuel as nat),
    decreases fuel as nat, ops@.len() - i + 1,
{
    if i >= ops.len() {
        let r: Vec<Expr> = Vec::new();
        proof {
            assert(views_of(r@) =~= Seq::<Exv>::empty());
        }
        Option::Some(r)
    } else {
        match numerator_fuel(&ops[i], fuel) {
            Option::None => Option::None,
            Option::Some(h) => match numerator_list_fuel(ops, i + 1, fuel) {
                Option::None => Option::None,
                Option::Some(t) => Option::Some(crate::expression::vec_of_head(h, t)),
            },
        }
    }
}

/// The fueled structural denominator.
pub fn denominator_fuel(e: &Expr, fuel: u64) -> (r: Option<Expr>)
    ensures
        opt_view(r) == s_denominator(e@, fuel as nat),
    decreases fuel as nat, 1int,
{
    proof {
        lemma_view_facts(*e);
    }
    if fuel == 0 {
        Option::None
    } else {
        match e.kind {
            ExprKind::Integer(_) | ExprKind::Fraction(_, _) => Option::Some(
                Expr::integer(e.denominator_rne()),
            ),
            ExprKind::Quotient => {
                if e.operands.len() == 2 {
                    Option::Some(e.operands[1].duplicate())
                } else {
                    Option::Some(e.duplicate())
                }
            }
            ExprKind::Product => denominator_nary_case(e, fuel),
            _ => Option::Some(e.duplicate()),
        }
    }
}

/// The product case of the structural denominator.
fn denominator_nary_case(e: &Expr, fuel: u64) -> (r: Option<Expr>)
    requires
        e@.kind is Product,
        fuel >= 1,
    ensures
        opt_view(r) == s_denominator(e@, fuel as nat),
    decreases fuel as nat, 0int,
{
    proof {
        lemma_view_facts(*e);
        assert(views_of(e.operands@) =~= e@.ops);
    }
    match denominator_list_fuel(&e.operands, 0, fuel - 1) {
        Option::None => Option::None,
        Option::Some(ns) => {
            let p = fold_nary(ExprKind::Product, ns, 1);
            simplify_fuel(&p, fuel - 1)
        }
    }
}

/// The denominators of each operand from position `i` on.
fn denominator_list_fuel(ops: &Vec<Expr>, i: usize, fuel: u64) -> (r: Option<Vec<Expr>>)
    requires
        i <= ops@.len(),
    ensures
        opt_views(r) == s_denominator_list(views_of(ops@), i as int, fuel as nat),
    decreases fuel as nat, ops@.len() - i + 1,
{
    if i >= ops.len() {
        let r: Vec<Expr> = Vec::new();
        proof {
            assert(views_of(r@) =~= Seq::<Exv>::empty());
        }
        Option::Some(r)
    } else {
        match denominator_fuel(&ops[i], fuel) {
            Option::None => Option::None,
            Option::Some(h) => match denominator_list_fuel(ops, i + 1, fuel) {
                Option::None => Option::None,
                Option::Some(t) => Option::Some(crate::expression::vec_of_head(h, t)),
            },
        }
    }
}

/// The fueled real part.
pub fn re_fuel(e: &Expr, fuel: u64) -> (r: Option<Expr>)
    ensures
        opt_view(r) == s_re(e@, fuel as nat),
    decreases fuel as nat, 1int,
{
    proof {
        lemma_view_facts(*e);
    }
    if fuel == 0 {
        Option::None
    } else {
        match e.kind {
            ExprKind::Integer(_) | ExprKind::Fraction(_, _) => Option::Some(e.duplicate()),
            ExprKind::Gaussian => {
                if e.operands.len() == 2 {
                    Option::Some(e.operands[0].duplicate())
                } else {
                    Option::Some(e.duplicate())
                }
            }
            ExprKind::Sum | ExprKind::Product => re_nary_case(e, fuel),
            _ => Option::Some(Expr::function("Re", crate::expression::vec_of1(e.duplicate()))),
        }
    }
}

/// The sum and product cases of the real part.
fn re_nary_case(e: &Expr, fuel: u64) -> (r: Option<Expr>)
    requires
        e@.kind is Sum || e@.kind is Product,
        fuel >= 1,
    ensures
        opt_view(r) == s_re(e@, fuel as nat),
    decreases fuel as nat, 0int,
{
    proof {
        lemma_view_facts(*e);
        assert(views_of(e.operands@) =~= e@.ops);
    }
    match re_list_fuel(&e.operands, 0, fuel - 1) {
        Option::None => Option::None,
        Option::Some(ns) => {
            if matches!(e.kind, ExprKind::Sum) {
                let p = fold_nary(ExprKind::Sum, ns, 0);
                simplify_fuel(&p, fuel - 1)
            } else {
                let p = fold_nary(ExprKind::Product, ns, 1);
                simplify_fuel(&p, fuel - 1)
            }
        }
    }
}

/// The real parts of each operand from position `i` on.
fn re_list_fuel(ops: &Vec<Expr>, i: usize, fuel: u64) -> (r: Option<Vec<Expr>>)
    requires
        i <= ops@.len(),
    ensures
        opt_views(r) == s_re_list(views_of(ops@), i as int, fuel as nat),
    decreases fuel as nat, ops@.len() - i + 1,
{
    if i >= ops.len() {
        let r: Vec<Expr> = Vec::new();
        proof {
            assert(views_of(r@) =~= Seq::<Exv>::empty());
        }
        Option::Some(r)
    } else {
        match re_fuel(&ops[i], fuel) {
            Option::None => Option::None,
            Option::Some(h) => match re_list_fuel(ops, i + 1, fuel) {
                Option::None => Option::None,
                Option::Some(t) => Option::Some(crate::expression::vec_of_head(h, t)),
            },
        }
    }
}

/// The fueled imaginary part.
pub fn im_fuel(e: &Expr, fuel: u64) -> (r: Option<Expr>)
    ensures
        opt_view(r) == s_im(e@, fuel as nat),
    decreases fuel as nat, 1int,
{
    proof {
        lemma_view_facts(*e);
    }
    if fuel == 0 {
        Option::None
    } else {
        match e.kind {
            ExprKind::Integer(_) | ExprKind::Fraction(_, _) => Option::Some(Expr::integer(0)),
            ExprKind::Gaussian => {
                if e.operands.len() == 2 {
                    Option::Some(e.operands[1].duplicate())
                } else {
                    Option::Some(e.duplicate())
                }
            }
            ExprKind::Sum | ExprKind::Product => im_nary_case(e, fuel),
            _ => Option::Some(Expr::function("Im", crate::expression::vec_of1(e.duplicate()))),
        }
    }
}

/// The sum and product cases of the imaginary part.
fn im_nary_case(e: &Expr, fuel: u64) -> (r: Option<Expr>)
    requires
        e@.kind is Sum || e@.kind is Product,
        fuel >= 1,
    ensures
        opt_view(r) == s_im(e@, fuel as nat),
    decreases fuel as nat, 0int,
{
    proof {
        lemma_view_facts(*e);
        assert(views_of(e.operands@) =~= e@.ops);
    }
    match im_list_fuel(&e.operands, 0, fuel - 1) {
        Option::None => Option::None,
        Option::Some(ns) => {
            if matches!(e.kind, ExprKind::Sum) {
                let p = fold_nary(ExprKind::Sum, ns, 0);
                simplify_fuel(&p, fuel - 1)
            } else {
                let p = fold_nary(ExprKind::Product, ns, 1);
                simplify_fuel(&p, fuel - 1)
            }
        }
    }
}

/// The imaginary parts of each operand from position `i` on.
fn im_list_fuel(ops: &Vec<Expr>, i: usize, fuel: u64) -> (r: Option<Vec<Expr>>)
    requires
        i <= ops@.len(),
    ensures
        opt_views(r) == s_im_list(views_of(ops@), i as int, fuel as nat),
    decreases fuel as nat, ops@.len() - i + 1,
{
    if i >= ops.len() {
        let r: Vec<Expr> = Vec::new();
        proof {
            assert(views_of(r@) =~= Seq::<Exv>::empty());
        }
        Option::Some(r)
    } else {
        match im_fuel(&ops[i], fuel) {
            Option::None => Option::None,
            Option::Some(h) => match im_list_fuel(ops, i + 1, fuel) {
                Option::None => Option::None,
                Option::Some(t) => Option::Some(crate::expression::vec_of_head(h, t)),
            },
        }
    }
}

impl Expr {
    /// The structural numerator: rationals give their numerator, a quotient
    /// its first operand, and a product the simplified product of its
    /// operands' numerators; anything else is its own numerator.
    pub fn numerator(&self) -> (r: Expr)
        ensures
            r@ == unfuel(s_numerator(self@, SIMPLIFY_FUEL as nat)),
    {
        match numerator_fuel(self, SIMPLIFY_FUEL) {
            Option::Some(e) => e,
            Option::None => Expr::undefined(),
        }
    }

    /// The structural denominator, dually.
    pub fn denominator(&self) -> (r: Expr)
        ensures
            r@ == unfuel(s_denominator(self@, SIMPLIFY_FUEL as nat)),
    {
        match denominator_fuel(self, SIMPLIFY_FUEL) {
            Option::Some(e) => e,
            Option::None => Expr::undefined(),
        }
    }

    /// The real part of this expression.
    pub fn re(&self) -> (r: Expr)
        ensures
            r@ == unfuel(s_re(self@, SIMPLIFY_FUEL as nat)),
    {
        match re_fuel(self, SIMPLIFY_FUEL) {
            Option::Some(e) => e,
            Option::None => Expr::undefined(),
        }
    }

    /// The imaginary part of this expression.
    pub fn im(&self) -> (r: Expr)
        ensures
            r@ == unfuel(s_im(self@, SIMPLIFY_FUEL as nat)),
    {
        match im_fuel(self, SIMPLIFY_FUEL) {
            Option::Some(e) => e,
            Option::None => Expr::undefined(),
        }
    }
}

} // verus!
