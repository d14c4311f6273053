//! The polynomial toolkit: the monomial view of an expression, degree and
//! coefficient queries, the generalized variables, and algebraic expansion.

use vstd::prelude::*;

use crate::arith::{sat_i64, sat_add_i64};
use crate::classify::is_grne_v;
use crate::expression::{
    lemma_view_facts, unfuel, vec_of1, vec_of2, vec_of_head, views_of, Expr, ExprKind, Exv, KindV,
};
use crate::numeric::{fold_nary, fold_nary_v};
use crate::simplify::{opt_view, opt_views, s_simplify, simplify_fuel, SIMPLIFY_FUEL};

pub mod division;

verus! {

broadcast use vstd::std_specs::vec::group_vec_axioms, vstd::seq::group_seq_axioms;

/// A monomial: a list of numeric coefficients and a list of base-exponent
/// pairs.
#[derive(Debug, PartialEq, Eq)]
pub struct Monomial {
    pub coeffs: Vec<Expr>,
    pub vars: Vec<(Expr, i64)>,
}

/// The view of a monomial.
#[verifier::ext_equal]
pub ghost struct MonomialV {
    pub coeffs: Seq<Exv>,
    pub vars: Seq<(Exv, int)>,
}

/// The views of a list of base-exponent pairs.
pub open spec fn var_views(s: Seq<(Expr, i64)>) -> Seq<(Exv, int)> {
    s.map_values(|p: (Expr, i64)| (p.0@, p.1 as int))
}

impl View for Monomial {
    type V = MonomialV;

    open spec fn view(&self) -> MonomialV {
        MonomialV { coeffs: views_of(self.coeffs@), vars: var_views(self.vars@) }
    }
}

/// The monomial view of an expression: a number is a coefficient-only
/// monomial over the base one; a symbol is a bare variable; an integer
/// power is one base-exponent pair; a product splits into numeric
/// coefficients and variable factors; anything else is an opaque variable.
pub open spec fn monomial_of_v(e: Exv) -> MonomialV {
    if is_grne_v(e) {
        MonomialV { coeffs: seq![e], vars: seq![(Exv::int_v(1), 1int)] }
    } else {
        match e.kind {
            KindV::Symbol(_) => MonomialV { coeffs: Seq::empty(), vars: seq![(e, 1int)] },
            KindV::Power => {
                if e.ops.len() == 2 && e.ops[1].kind is Integer {
                    MonomialV {
                        coeffs: Seq::empty(),
                        vars: seq![(e.ops[0], e.ops[1].kind->Integer_0)],
                    }
                } else {
                    MonomialV { coeffs: Seq::empty(), vars: seq![(e, 1int)] }
                }
            }
            KindV::Product => MonomialV {
                coeffs: monomial_coeffs_v(e.ops, 0),
                vars: monomial_vars_v(e.ops, 0),
            },
            _ => MonomialV { coeffs: Seq::empty(), vars: seq![(e, 1int)] },
        }
    }
}

/// The numeric coefficients among a product's operands from position `i`
/// on.
pub open spec fn monomial_coeffs_v(ops: Seq<Exv>, i: int) -> Seq<Exv>
    decreases ops.len() - i,
    when 0 <= i
{
    if i >= ops.len() {
        Seq::empty()
    } else {
        let rest = monomial_coeffs_v(ops, i + 1);
        if is_grne_v(ops[i]) {
            seq![ops[i]] + rest
        } else {
            rest
        }
    }
}

/// The variable part of a product's operands from position `i` on: each
/// non-numeric factor contributes its base and exponent.
pub open spec fn monomial_vars_v(ops: Seq<Exv>, i: int) -> Seq<(Exv, int)>
    decreases ops.len() - i,
    when 0 <= i
{
    if i >= ops.len() {
        Seq::empty()
    } else {
        let rest = monomial_vars_v(ops, i + 1);
        let v = ops[i];
        if is_grne_v(v) {
            rest
        } else if v.kind is Power && v.ops.len() == 2 && v.ops[1].kind is Integer {
            seq![(v.ops[0], v.ops[1].kind->Integer_0)] + rest
        } else {
            seq![(v, 1int)] + rest
        }
    }
}

/// The degree of a variable in a monomial: the saturating sum of the
/// exponents whose base equals the variable.
pub open spec fn degree_of_v(m: MonomialV, var: Exv, i: int, acc: int) -> int
    decreases m.vars.len() - i,
    when 0 <= i
{
    if i >= m.vars.len() {
        acc
    } else if m.vars[i].0 == var {
        degree_of_v(m, var, i + 1, sat_i64(acc + m.vars[i].1))
    } else {
        degree_of_v(m, var, i + 1, acc)
    }
}

/// The coefficient of `var ^ exp` in a monomial: the simplified product of
/// its coefficients where the variable part is exactly that pair, and zero
/// otherwise.
pub open spec fn coefficient_of_v(m: MonomialV, var: Exv, exp: int, fuel: nat) -> Option<Exv>
    decreases fuel, 0int,
{
    if fuel == 0 {
        Option::None
    } else if m.vars.len() == 1 && m.vars[0].0 == var && m.vars[0].1 == exp {
        s_simplify(fold_nary_v(KindV::Product, m.coeffs, 1), (fuel - 1) as nat)
    } else {
        Option::Some(Exv::int_v(0))
    }
}

/// The monomial views of an expression seen as a general polynomial
/// expression: the operand monomials of a sum, or the single monomial.
pub open spec fn gpe_of_v(e: Exv) -> Seq<MonomialV> {
    if e.kind is Sum {
        e.ops.map_values(|x: Exv| monomial_of_v(x))
    } else {
        seq![monomial_of_v(e)]
    }
}

/// The degree of a variable in a polynomial: the greatest monomial degree,
/// and zero for an empty list.
pub open spec fn degree_gpe_from_v(ms: Seq<MonomialV>, var: Exv, i: int, best: int) -> int
    decreases ms.len() - i,
    when 0 <= i
{
    if i >= ms.len() {
        best
    } else {
        let d = degree_of_v(ms[i], var, 0, 0);
        degree_gpe_from_v(ms, var, i + 1, if d > best { d } else { best })
    }
}

/// The degree of a variable in an expression seen as a polynomial.
pub open spec fn s_degree_gpe(e: Exv, var: Exv) -> int {
    let ms = gpe_of_v(e);
    if ms.len() == 0 {
        0
    } else {
        degree_gpe_from_v(ms, var, 1, degree_of_v(ms[0], var, 0, 0))
    }
}

/// The coefficients of `var ^ exp` over the monomials from `i` on.
pub open spec fn coefficient_list_v(ms: Seq<MonomialV>, var: Exv, exp: int, i: int, fuel: nat)
    -> Option<Seq<Exv>>
    decreases fuel, ms.len() - i + 1,
    when 0 <= i
{
    if i >= ms.len() {
        Option::Some(Seq::empty())
    } else {
        match coefficient_of_v(ms[i], var, exp, fuel) {
            Option::None => Option::None,
            Option::Some(h) => match coefficient_list_v(ms, var, exp, i + 1, fuel) {
                Option::None => Option::None,
                Option::Some(t) => Option::Some(seq![h] + t),
            },
        }
    }
}

/// The total coefficient of `var ^ exp` in an expression: the simplified
/// sum of the matching monomial coefficients.
pub open spec fn s_coefficient_gpe(e: Exv, var: Exv, exp: int, fuel: nat) -> Option<Exv>
    decreases fuel, 0int,
{
    if fuel == 0 {
        Option::None
    } else {
        match coefficient_list_v(gpe_of_v(e), var, exp, 0, (fuel - 1) as nat) {
            Option::None => Option::None,
            Option::Some(cs) => s_simplify(fold_nary_v(KindV::Sum, cs, 0), (fuel - 1) as nat),
        }
    }
}

/// The leading coefficient: the coefficient at the degree of the variable.
pub open spec fn s_leading_coefficient_gpe(e: Exv, var: Exv, fuel: nat) -> Option<Exv>
    decreases fuel, 1int,
{
    s_coefficient_gpe(e, var, s_degree_gpe(e, var), fuel)
}

impl Monomial {
    /// A coefficient-only monomial over the base one.
    pub fn new_coeff(coeff: Expr) -> (r: Monomial)
        ensures
            r@.coeffs == seq![coeff@],
            r@.vars == seq![(Exv::int_v(1), 1int)],
    {
        let r = Monomial { coeffs: vec_of1(coeff), vars: vec_of1_var(Expr::integer(1), 1) };
        proof {
            assert(r@.vars =~= seq![(Exv::int_v(1), 1int)]);
        }
        r
    }

    /// A variable-only monomial with exponent one.
    pub fn new_var(var: Expr) -> (r: Monomial)
        ensures
            r@.coeffs == Seq::<Exv>::empty(),
            r@.vars == seq![(var@, 1int)],
    {
        let ghost vv = var@;
        let r = Monomial { coeffs: Vec::new(), vars: vec_of1_var(var, 1) };
        proof {
            assert(r@.coeffs =~= Seq::<Exv>::empty());
            assert(r@.vars =~= seq![(vv, 1int)]);
        }
        r
    }

    /// A monomial with one coefficient and one base-exponent pair.
    pub fn new_monomial(coeff: Expr, var: Expr, exp: i64) -> (r: Monomial)
        ensures
            r@.coeffs == seq![coeff@],
            r@.vars == seq![(var@, exp as int)],
    {
        let ghost vv = var@;
        let r = Monomial { coeffs: vec_of1(coeff), vars: vec_of1_var(var, exp) };
        proof {
            assert(r@.vars =~= seq![(vv, exp as int)]);
        }
        r
    }

    /// The degree of a variable in this monomial: the saturating sum of
    /// the exponents whose base equals it.
    pub fn degree(&self, var: &Expr) -> (r: i64)
        ensures
            r as int == degree_of_v(self@, var@, 0, 0),
    {
        let mut acc: i64 = 0;
        let mut i: usize = 0;
        while i < self.vars.len()
            invariant
                i <= self.vars@.len(),
                degree_of_v(self@, var@, 0, 0) == degree_of_v(self@, var@, i as int, acc as int),
            decreases self.vars@.len() - i,
        {
            if crate::expression::eq_expr(&self.vars[i].0, var) {
                proof {
                    assert(self@.vars[i as int].0 == var@);
                }
                acc = sat_add_i64(acc, self.vars[i].1);
            } else {
                proof {
                    assert(self@.vars[i as int].0 != var@);
                }
            }
            i = i + 1;
        }
        acc
    }

    /// The coefficient of `var ^ exp` in this monomial: the simplified
    /// product of its coefficients where the variable part is exactly that
    /// pair, and zero otherwise.
    pub fn coefficient(&self, var: &Expr, exp: i64) -> (r: Expr)
        ensures
            r@ == unfuel(coefficient_of_v(self@, var@, exp as int, SIMPLIFY_FUEL as nat)),
    {
        match coefficient_inner(self, var, exp, SIMPLIFY_FUEL) {
            Option::Some(e) => e,
            Option::None => Expr::undefined(),
        }
    }
}

/// A one-element base-exponent list.
fn vec_of1_var(base: Expr, exp: i64) -> (r: Vec<(Expr, i64)>)
    ensures
        var_views(r@) == seq![(base@, exp as int)],
{
    let mut r: Vec<(Expr, i64)> = Vec::new();
    r.push((base, exp));
    proof {
        assert(var_views(r@) =~= seq![(r@[0].0@, r@[0].1 as int)]);
    }
    r
}

/// Copies of all operands.
fn dup_exprs(v: &Vec<Expr>) -> (r: Vec<Expr>)
    ensures
        views_of(r@) == views_of(v@),
{
    let r = crate::expression::tail_exprs(v, 0);
    proof {
        assert(views_of(v@).skip(0) =~= views_of(v@));
    }
    r
}

impl Expr {
    /// The monomial view of this expression.
    pub fn as_monomial(&self) -> (r: Monomial)
        ensures
            r@ == monomial_of_v(self@),
    {
        proof {
            lemma_view_facts(*self);
            if self.operands@.len() >= 1 {
                lemma_view_facts(self.operands@[0]);
            }
            if self.operands@.len() >= 2 {
                lemma_view_facts(self.operands@[1]);
            }
        }
        if self.is_grne() {
            let r = Monomial::new_coeff(self.duplicate());
            proof {
                assert(r@ =~= monomial_of_v(self@));
            }
            r
        } else {
            match self.kind {
                ExprKind::Symbol(_) => {
                    let r = Monomial::new_var(self.duplicate());
                    proof {
                        assert(r@ =~= monomial_of_v(self@));
                    }
                    r
                }
                ExprKind::Power => {
                    if self.operands.len() == 2 && matches!(
                        self.operands[1].kind,
                        ExprKind::Integer(_),
                    ) {
                        let exp = match self.operands[1].kind {
                            ExprKind::Integer(n) => n,
                            _ => 0,
                        };
                        let r = Monomial {
                            coeffs: Vec::new(),
                            vars: vec_of1_var(self.operands[0].duplicate(), exp),
                        };
                        proof {
                            assert(r@ =~= monomial_of_v(self@));
                        }
                        r
                    } else {
                        let r = Monomial::new_var(self.duplicate());
                        proof {
                            assert(r@ =~= monomial_of_v(self@));
                        }
                        r
                    }
                }
                ExprKind::Product => {
                    let coeffs = monomial_coeffs(&self.operands, 0);
                    let vars = monomial_vars(&self.operands, 0);
                    let r = Monomial { coeffs, vars };
                    proof {
                        assert(views_of(self.operands@) =~= self@.ops);
                        assert(r@ =~= monomial_of_v(self@));
                    }
                    r
                }
                _ => {
                    let r = Monomial::new_var(self.duplicate());
                    proof {
                        assert(r@ =~= monomial_of_v(self@));
                    }
                    r
                }
            }
        }
    }

    /// The monomials of this expression seen as a general polynomial
    /// expression.
    pub fn as_gpe(&self) -> (r: Vec<Monomial>)
        ensures
            r@.map_values(|m: Monomial| m@) == gpe_of_v(self@),
    {
        proof {
            lemma_view_facts(*self);
        }
        let mut r: Vec<Monomial> = Vec::new();
        if matches!(self.kind, ExprKind::Sum) {
            let mut i: usize = 0;
            while i < self.operands.len()
                invariant
                    i <= self.operands@.len(),
                    r@.len() == i as nat,
                    forall|j: int| 0 <= j < i ==> r@[j]@ == monomial_of_v(self.operands@[j]@),
                decreases self.operands@.len() - i,
            {
                r.push(self.operands[i].as_monomial());
                i = i + 1;
            }
            proof {
                assert(r@.map_values(|m: Monomial| m@) =~= gpe_of_v(self@));
            }
            r
        } else {
            r.push(self.as_monomial());
            proof {
                assert(r@.map_values(|m: Monomial| m@) =~= gpe_of_v(self@));
            }
            r
        }
    }

    /// The degree of a variable in this expression seen as a polynomial.
    pub fn degree_gpe(&self, var: &Expr) -> (r: i64)
        ensures
            r as int == s_degree_gpe(self@, var@),
    {
        let ms = self.as_gpe();
        let ghost msv = gpe_of_v(self@);
        if ms.len() == 0 {
            0
        } else {
            let mut best = ms[0].degree(var);
            let mut i: usize = 1;
            while i < ms.len()
                invariant
                    1 <= i <= ms@.len(),
                    ms@.map_values(|m: Monomial| m@) == msv,
                    s_degree_gpe(self@, var@) == degree_gpe_from_v(
                        msv,
                        var@,
                        i as int,
                        best as int,
                    ),
                decreases ms@.len() - i,
            {
                let d = ms[i].degree(var);
                proof {
                    assert(ms@[i as int]@ == msv[i as int]);
                }
                if d > best {
                    best = d;
                }
                i = i + 1;
            }
            best
        }
    }

    /// The total coefficient of `var ^ exp` in this expression: the
    /// simplified sum of the matching monomial coefficients.
    pub fn coefficient_gpe(&self, var: &Expr, exp: i64) -> (r: Expr)
        ensures
            r@ == unfuel(s_coefficient_gpe(self@, var@, exp as int, SIMPLIFY_FUEL as nat)),
    {
        match coefficient_gpe_fuel(self, var, exp, SIMPLIFY_FUEL) {
            Option::Some(e) => e,
            Option::None => Expr::undefined(),
        }
    }

    /// The leading coefficient of a variable in this expression.
    pub fn leading_coefficient_gpe(&self, var: &Expr) -> (r: Expr)
        ensures
            r@ == unfuel(
                s_leading_coefficient_gpe(self@, var@, SIMPLIFY_FUEL as nat),
            ),
    {
        let d = self.degree_gpe(var);
        self.coefficient_gpe(var, d)
    }
}

/// The numeric coefficients among a product's operands from position `i`
/// on.
fn monomial_coeffs(ops: &Vec<Expr>, i: usize) -> (r: Vec<Expr>)
    requires
        i <= ops@.len(),
    ensures
        views_of(r@) == monomial_coeffs_v(views_of(ops@), i as int),
    decreases ops@.len() - i,
{
    if i >= ops.len() {
        let r: Vec<Expr> = Vec::new();
        proof {
            assert(views_of(r@) =~= Seq::<Exv>::empty());
        }
        r
    } else {
        let rest = monomial_coeffs(ops, i + 1);
        if ops[i].is_grne() {
            vec_of_head(ops[i].duplicate(), rest)
        } else {
            rest
        }
    }
}

/// The variable part of a product's operands from position `i` on.
fn monomial_vars(ops: &Vec<Expr>, i: usize) -> (r: Vec<(Expr, i64)>)
    requires
        i <= ops@.len(),
    ensures
        var_views(r@) == monomial_vars_v(views_of(ops@), i as int),
    decreases ops@.len() - i,
{
    if i >= ops.len() {
        let r: Vec<(Expr, i64)> = Vec::new();
        proof {
            assert(var_views(r@) =~= Seq::<(Exv, int)>::empty());
        }
        r
    } else {
        proof {
            lemma_view_facts(ops@[i as int]);
            if ops@[i as int].operands@.len() >= 2 {
                lemma_view_facts(ops@[i as int].operands@[1]);
            }
        }
        let rest = monomial_vars(ops, i + 1);
        let v = &ops[i];
        if v.is_grne() {
            rest
        } else if matches!(v.kind, ExprKind::Power) && v.operands.len() == 2 && matches!(
            v.operands[1].kind,
            ExprKind::Integer(_),
        ) {
            let exp = match v.operands[1].kind {
                ExprKind::Integer(n) => n,
                _ => 0,
            };
            let r = cons_var(v.operands[0].duplicate(), exp, rest);
            r
        } else {
            let r = cons_var(v.duplicate(), 1, rest);
            r
        }
    }
}

/// A base-exponent pair in front of a list.
fn cons_var(base: Expr, exp: i64, rest: Vec<(Expr, i64)>) -> (r: Vec<(Expr, i64)>)
    ensures
        var_views(r@) == seq![(base@, exp as int)] + var_views(rest@),
{
    let ghost bv = base@;
    let mut r: Vec<(Expr, i64)> = Vec::new();
    r.push((base, exp));
    let mut i: usize = 0;
    while i < rest.len()
        invariant
            i <= rest@.len(),
            r@.len() == i + 1,
            r@[0].0@ == bv,
            r@[0].1 as int == exp as int,
            forall|j: int|
                0 <= j < i ==> r@[j + 1].0@ == rest@[j].0@ && r@[j + 1].1 == rest@[j].1,
        decreases rest@.len() - i,
    {
        let (b, e) = &rest[i];
        r.push((b.duplicate(), *e));
        i = i + 1;
    }
    proof {
        assert(var_views(r@) =~= seq![(bv, exp as int)] + var_views(rest@));
    }
    r
}

/// The fueled total coefficient of `var ^ exp` in an expression.
pub fn coefficient_gpe_fuel(u: &Expr, var: &Expr, exp: i64, fuel: u64) -> (r: Option<Expr>)
    ensures
        opt_view(r) == s_coefficient_gpe(u@, var@, exp as int, fuel as nat),
    decreases fuel as nat, 1int,
{
    if fuel == 0 {
        Option::None
    } else {
        let ms = u.as_gpe();
        proof {
            assert(ms@.map_values(|m: Monomial| m@) == gpe_of_v(u@));
        }
        match coefficient_list(&ms, var, exp, 0, fuel - 1) {
            Option::None => Option::None,
            Option::Some(cs) => {
                let p = fold_nary(ExprKind::Sum, cs, 0);
                simplify_fuel(&p, fuel - 1)
            }
        }
    }
}

/// The monomial coefficient, or nothing where the budget ran out.
fn coefficient_inner(m: &Monomial, var: &Expr, exp: i64, fuel: u64) -> (r: Option<Expr>)
    ensures
        opt_view(r) == coefficient_of_v(m@, var@, exp as int, fuel as nat),
    decreases fuel as nat, 0int,
{
    if fuel == 0 {
        return Option::None;
    }
    let hit = m.vars.len() == 1 && crate::expression::eq_expr(&m.vars[0].0, var) && m.vars[0].1
        == exp;
    proof {
        if m.vars@.len() == 1 {
            assert(m@.vars[0].0 == m.vars@[0].0@);
        }
    }
    if hit {
        let cs = dup_exprs(&m.coeffs);
        let p = fold_nary(ExprKind::Product, cs, 1);
        simplify_fuel(&p, fuel - 1)
    } else {
        Option::Some(Expr::integer(0))
    }
}

/// The coefficients of `var ^ exp` over the monomials from `i` on.
fn coefficient_list(ms: &Vec<Monomial>, var: &Expr, exp: i64, i: usize, fuel: u64) -> (r: Option<
    Vec<Expr>,
>)
    requires
        i <= ms@.len(),
    ensures
        opt_views(r) == coefficient_list_v(
            ms@.map_values(|m: Monomial| m@),
            var@,
            exp as int,
            i as int,
            fuel as nat,
        ),
    decreases fuel as nat, ms@.len() - i + 1,
{
    if i >= ms.len() {
        let r: Vec<Expr> = Vec::new();
        proof {
            assert(views_of(r@) =~= Seq::<Exv>::empty());
        }
        Option::Some(r)
    } else {
        proof {
            assert(ms@.map_values(|m: Monomial| m@)[i as int] == ms@[i as int]@);
        }
        match coefficient_inner(&ms[i], var, exp, fuel) {
            Option::None => Option::None,
            Option::Some(h) => match coefficient_list(ms, var, exp, i + 1, fuel) {
                Option::None => Option::None,
                Option::Some(t) => Option::Some(vec_of_head(h, t)),
            },
        }
    }
}

} // verus!

verus! {

/// Algebraic expansion of a view: sums expand term by term, products
/// distribute over expanded factors, and integer powers of at least two
/// expand binomially; anything else stands.
pub open spec fn s_algebraic_expand(e: Exv, fuel: nat) -> Option<Exv>
    decreases fuel, 0int,
{
    if fuel == 0 {
        Option::None
    } else {
        match e.kind {
            KindV::Sum => {
                if e.ops.len() == 0 {
                    Option::Some(Exv::int_v(0))
                } else if e.ops.len() == 1 {
                    s_algebraic_expand(e.ops[0], (fuel - 1) as nat)
                } else {
                    match s_algebraic_expand(e.ops[0], (fuel - 1) as nat) {
                        Option::None => Option::None,
                        Option::Some(a) => match s_simplify(
                            fold_nary_v(KindV::Sum, e.ops.drop_first(), 0),
                            (fuel - 1) as nat,
                        ) {
                            Option::None => Option::None,
                            Option::Some(m) => match s_algebraic_expand(m, (fuel - 1) as nat) {
                                Option::None => Option::None,
                                Option::Some(b) => s_simplify(
                                    Exv::binary(KindV::Sum, a, b),
                                    (fuel - 1) as nat,
                                ),
                            },
                        },
                    }
                }
            }
            KindV::Product => {
                if e.ops.len() == 0 {
                    Option::Some(Exv::int_v(1))
                } else if e.ops.len() == 1 {
                    s_algebraic_expand(e.ops[0], (fuel - 1) as nat)
                } else {
                    match s_algebraic_expand(e.ops[0], (fuel - 1) as nat) {
                        Option::None => Option::None,
                        Option::Some(a) => match s_simplify(
                            fold_nary_v(KindV::Product, e.ops.drop_first(), 1),
                            (fuel - 1) as nat,
                        ) {
                            Option::None => Option::None,
                            Option::Some(m) => match s_algebraic_expand(m, (fuel - 1) as nat) {
                                Option::None => Option::None,
                                Option::Some(b) => s_expand_product(a, b, (fuel - 1) as nat),
                            },
                        },
                    }
                }
            }
            KindV::Power => {
                if e.ops.len() == 2 && e.ops[1].kind is Integer && e.ops[1].kind->Integer_0 >= 2 {
                    match s_algebraic_expand(e.ops[0], (fuel - 1) as nat) {
                        Option::None => Option::None,
                        Option::Some(b) => s_expand_power(
                            b,
                            e.ops[1].kind->Integer_0,
                            (fuel - 1) as nat,
                        ),
                    }
                } else {
                    Option::Some(e)
                }
            }
            _ => Option::Some(e),
        }
    }
}

/// The expanded product of two expanded views: a sum on either side
/// distributes term by term, and anything else multiplies and simplifies.
pub open spec fn s_expand_product(r: Exv, s: Exv, fuel: nat) -> Option<Exv>
    decreases fuel, 0int,
{
    if fuel == 0 {
        Option::None
    } else if r.kind is Sum && r.ops.len() >= 2 {
        match s_expand_product(r.ops[0], s, (fuel - 1) as nat) {
            Option::None => Option::None,
            Option::Some(a) => match s_simplify(
                fold_nary_v(KindV::Sum, r.ops.drop_first(), 0),
                (fuel - 1) as nat,
            ) {
                Option::None => Option::None,
                Option::Some(m) => match s_expand_product(m, s, (fuel - 1) as nat) {
                    Option::None => Option::None,
                    Option::Some(b) => s_simplify(Exv::binary(KindV::Sum, a, b), (fuel - 1) as nat),
                },
            },
        }
    } else if r.kind is Sum && r.ops.len() == 1 {
        s_expand_product(r.ops[0], s, (fuel - 1) as nat)
    } else if s.kind is Sum {
        s_expand_product(s, r, (fuel - 1) as nat)
    } else {
        s_simplify(Exv::binary(KindV::Product, r, s), (fuel - 1) as nat)
    }
}

/// The expansion of a power of an expanded base: the base is distributed
/// into itself the given number of times; a power below two simplifies as
/// a plain power.
pub open spec fn s_expand_power(u: Exv, n: int, fuel: nat) -> Option<Exv>
    decreases fuel, 0int,
{
    if fuel == 0 {
        Option::None
    } else if n == 2 {
        s_expand_product(u, u, (fuel - 1) as nat)
    } else if n > 2 {
        match s_expand_power(u, n - 1, (fuel - 1) as nat) {
            Option::None => Option::None,
            Option::Some(p) => s_expand_product(u, p, (fuel - 1) as nat),
        }
    } else {
        s_simplify(Exv::binary(KindV::Power, u, Exv::int_v(n)), (fuel - 1) as nat)
    }
}

/// The fueled expansion of a power of an expanded base.
pub fn expand_power_fuel(u: &Expr, n: i64, fuel: u64) -> (out: Option<Expr>)
    ensures
        opt_view(out) == s_expand_power(u@, n as int, fuel as nat),
    decreases fuel as nat, 0int,
{
    if fuel == 0 {
        Option::None
    } else if n == 2 {
        expand_product_fuel(u, u, fuel - 1)
    } else if n > 2 {
        match expand_power_fuel(u, n - 1, fuel - 1) {
            Option::None => Option::None,
            Option::Some(p) => expand_product_fuel(u, &p, fuel - 1),
        }
    } else {
        let p = Expr::power(u.duplicate(), Expr::integer(n));
        simplify_fuel(&p, fuel - 1)
    }
}

/// The fueled algebraic expansion.
pub fn algebraic_expand_fuel(e: &Expr, fuel: u64) -> (r: Option<Expr>)
    ensures
        opt_view(r) == s_algebraic_expand(e@, fuel as nat),
    decreases fuel as nat, 0int,
{
    proof {
        lemma_view_facts(*e);
        if e.operands@.len() >= 1 {
            lemma_view_facts(e.operands@[0]);
        }
        if e.operands@.len() >= 2 {
            lemma_view_facts(e.operands@[1]);
        }
        assert(views_of(e.operands@) =~= e@.ops);
    }
    if fuel == 0 {
        Option::None
    } else {
        match e.kind {
            ExprKind::Sum => {
                if e.operands.len() == 0 {
                    Option::Some(Expr::integer(0))
                } else if e.operands.len() == 1 {
                    algebraic_expand_fuel(&e.operands[0], fuel - 1)
                } else {
                    match algebraic_expand_fuel(&e.operands[0], fuel - 1) {
                        Option::None => Option::None,
                        Option::Some(a) => {
                            let rest = crate::expression::tail_exprs(&e.operands, 1);
                            proof {
                                assert(views_of(e.operands@).skip(1) =~= e@.ops.drop_first());
                            }
                            let rs = fold_nary(ExprKind::Sum, rest, 0);
                            match simplify_fuel(&rs, fuel - 1) {
                                Option::None => Option::None,
                                Option::Some(m) => match algebraic_expand_fuel(&m, fuel - 1) {
                                    Option::None => Option::None,
                                    Option::Some(b) => {
                                        let p = Expr::plus(a, b);
                                        simplify_fuel(&p, fuel - 1)
                                    }
                                },
                            }
                        }
                    }
                }
            }
            ExprKind::Product => {
                if e.operands.len() == 0 {
                    Option::Some(Expr::integer(1))
                } else if e.operands.len() == 1 {
                    algebraic_expand_fuel(&e.operands[0], fuel - 1)
                } else {
                    match algebraic_expand_fuel(&e.operands[0], fuel - 1) {
                        Option::None => Option::None,
                        Option::Some(a) => {
                            let rest = crate::expression::tail_exprs(&e.operands, 1);
                            proof {
                                assert(views_of(e.operands@).skip(1) =~= e@.ops.drop_first());
                            }
                            let rs = fold_nary(ExprKind::Product, rest, 1);
                            match simplify_fuel(&rs, fuel - 1) {
                                Option::None => Option::None,
                                Option::Some(m) => match algebraic_expand_fuel(&m, fuel - 1) {
                                    Option::None => Option::None,
                                    Option::Some(b) => expand_product_fuel(&a, &b, fuel - 1),
                                },
                            }
                        }
                    }
                }
            }
            ExprKind::Power => {
                let good = e.operands.len() == 2 && match e.operands[1].kind {
                    ExprKind::Integer(k) => k >= 2,
                    _ => false,
                };
                if good {
                    let k = match e.operands[1].kind {
                        ExprKind::Integer(k) => k,
                        _ => 0,
                    };
                    match algebraic_expand_fuel(&e.operands[0], fuel - 1) {
                        Option::None => Option::None,
                        Option::Some(b) => expand_power_fuel(&b, k, fuel - 1),
                    }
                } else {
                    Option::Some(e.duplicate())
                }
            }
            _ => Option::Some(e.duplicate()),
        }
    }
}

/// The fueled expanded product of two expanded expressions.
pub fn expand_product_fuel(r: &Expr, s: &Expr, fuel: u64) -> (out: Option<Expr>)
    ensures
        opt_view(out) == s_expand_product(r@, s@, fuel as nat),
    decreases fuel as nat, 0int,
{
    proof {
        lemma_view_facts(*r);
        lemma_view_facts(*s);
        assert(views_of(r.operands@) =~= r@.ops);
    }
    if fuel == 0 {
        Option::None
    } else if matches!(r.kind, ExprKind::Sum) && r.operands.len() >= 2 {
        match expand_product_fuel(&r.operands[0], s, fuel - 1) {
            Option::None => Option::None,
            Option::Some(a) => {
                let rest = crate::expression::tail_exprs(&r.operands, 1);
                proof {
                    assert(views_of(r.operands@).skip(1) =~= r@.ops.drop_first());
                }
                let rs = fold_nary(ExprKind::Sum, rest, 0);
                match simplify_fuel(&rs, fuel - 1) {
                    Option::None => Option::None,
                    Option::Some(m) => match expand_product_fuel(&m, s, fuel - 1) {
                        Option::None => Option::None,
                        Option::Some(b) => {
                            let p = Expr::plus(a, b);
                            simplify_fuel(&p, fuel - 1)
                        }
                    },
                }
            }
        }
    } else if matches!(r.kind, ExprKind::Sum) && r.operands.len() == 1 {
        expand_product_fuel(&r.operands[0], s, fuel - 1)
    } else if matches!(s.kind, ExprKind::Sum) {
        expand_product_fuel(s, r, fuel - 1)
    } else {
        let p = Expr::times(r.duplicate(), s.duplicate());
        simplify_fuel(&p, fuel - 1)
    }
}

/// The variable bases collected from the monomials of an expression.
pub open spec fn variable_bases_v(ms: Seq<MonomialV>, i: int) -> Seq<Exv>
    decreases ms.len() - i,
    when 0 <= i
{
    if i >= ms.len() {
        Seq::empty()
    } else {
        monomial_bases_v(ms[i].vars, 0) + variable_bases_v(ms, i + 1)
    }
}

/// The non-numeric bases of a monomial's variable part.
pub open spec fn monomial_bases_v(vars: Seq<(Exv, int)>, j: int) -> Seq<Exv>
    decreases vars.len() - j,
    when 0 <= j
{
    if j >= vars.len() {
        Seq::empty()
    } else {
        let rest = monomial_bases_v(vars, j + 1);
        if is_grne_v(vars[j].0) {
            rest
        } else {
            seq![vars[j].0] + rest
        }
    }
}

/// The set of generalized variables of an expression: every non-numeric
/// base in its monomials, as a sorted deduplicated set literal.
pub open spec fn s_variables(e: Exv) -> Exv {
    Exv::node(
        KindV::SetLiteral,
        crate::simplify::set::set_list_v(variable_bases_v(gpe_of_v(e), 0)),
    )
}

/// The non-numeric bases of a monomial's variable part.
fn monomial_bases(vars: &Vec<(Expr, i64)>, j: usize) -> (r: Vec<Expr>)
    requires
        j <= vars@.len(),
    ensures
        views_of(r@) == monomial_bases_v(var_views(vars@), j as int),
    decreases vars@.len() - j,
{
    if j >= vars.len() {
        let r: Vec<Expr> = Vec::new();
        proof {
            assert(views_of(r@) =~= Seq::<Exv>::empty());
        }
        r
    } else {
        let rest = monomial_bases(vars, j + 1);
        proof {
            assert(var_views(vars@)[j as int].0 == vars@[j as int].0@);
        }
        if vars[j].0.is_grne() {
            rest
        } else {
            vec_of_head(vars[j].0.duplicate(), rest)
        }
    }
}

/// The variable bases over the monomials from `i` on.
fn variable_bases(ms: &Vec<Monomial>, i: usize) -> (r: Vec<Expr>)
    requires
        i <= ms@.len(),
    ensures
        views_of(r@) == variable_bases_v(ms@.map_values(|m: Monomial| m@), i as int),
    decreases ms@.len() - i,
{
    if i >= ms.len() {
        let r: Vec<Expr> = Vec::new();
        proof {
            assert(views_of(r@) =~= Seq::<Exv>::empty());
        }
        r
    } else {
        proof {
            assert(ms@.map_values(|m: Monomial| m@)[i as int] == ms@[i as int]@);
        }
        let head = monomial_bases(&ms[i].vars, 0);
        let rest = variable_bases(ms, i + 1);
        let mut out = head;
        let mut more = rest;
        let ghost h = views_of(out@);
        let ghost t = views_of(more@);
        out.append(&mut more);
        proof {
            assert(views_of(out@) =~= h + t);
        }
        out
    }
}

impl Expr {
    /// The algebraic expansion of this expression: sums expand term by
    /// term, products distribute, and integer powers of at least two
    /// expand binomially.
    pub fn algebraic_expand(&self) -> (r: Expr)
        ensures
            r@ == unfuel(s_algebraic_expand(self@, SIMPLIFY_FUEL as nat)),
    {
        match algebraic_expand_fuel(self, SIMPLIFY_FUEL) {
            Option::Some(e) => e,
            Option::None => Expr::undefined(),
        }
    }

    /// The set of generalized variables of this expression.
    pub fn variables(&self) -> (r: Expr)
        ensures
            r@ == s_variables(self@),
    {
        let ms = self.as_gpe();
        proof {
            assert(ms@.map_values(|m: Monomial| m@) == gpe_of_v(self@));
        }
        let bases = variable_bases(&ms, 0);
        let raw = Expr { kind: ExprKind::SetLiteral, operands: bases };
        proof {
            lemma_view_facts(raw);
            assert(raw@.ops =~= variable_bases_v(gpe_of_v(self@), 0));
        }
        crate::simplify::set::simplify_set(&raw)
    }
}

} // verus!
