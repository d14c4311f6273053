//! Single-variable polynomial division and what is built on it: quotient
//! and remainder, repeated-division expansion, and the Euclidean greatest
//! common divisor made monic. The division loop carries the same recursion
//! budget as the simplifier; leading coefficients that are not rational
//! atoms leave the result undefined.

use vstd::prelude::*;

use crate::arith::fits_i64;
use crate::evaluate::{eval_quot_v, evaluate_quotient};
use crate::expression::{lemma_view_facts, unfuel, vec_of2, vec_of_head, views_of, Expr, ExprKind, Exv, KindV};
use crate::simplify::{opt_view, s_simplify, simplify_fuel, SIMPLIFY_FUEL};
use super::{
    algebraic_expand_fuel, coefficient_gpe_fuel, s_algebraic_expand, s_degree_gpe,
    s_leading_coefficient_gpe,
};

verus! {

/// The view of an optional quotient-remainder pair.
pub open spec fn opt_view2(o: Option<(Expr, Expr)>) -> Option<(Exv, Exv)> {
    match o {
        Option::Some(p) => Option::Some((p.0@, p.1@)),
        Option::None => Option::None,
    }
}

/// The value of a fueled pair computation: its pair, or undefined parts
/// where the budget ran out.
pub open spec fn unfuel2(o: Option<(Exv, Exv)>) -> (Exv, Exv) {
    match o {
        Option::Some(p) => p,
        Option::None => (Exv::undef(), Exv::undef()),
    }
}

/// A power view with an integer exponent.
pub open spec fn pow_int_v(x: Exv, e: int) -> Exv {
    Exv::binary(KindV::Power, x, Exv::int_v(e))
}

/// The next quotient of the division loop before simplification:
/// `q + s * x^e`.
#[verifier::opaque]
pub open spec fn div_step_quotient_v(q: Exv, s: Exv, x: Exv, e: int) -> Exv {
    Exv::binary(KindV::Sum, q, Exv::binary(KindV::Product, s, pow_int_v(x, e)))
}

/// The next remainder of the division loop before simplification:
/// `(r - lcr * x^m) - (v - lcv * x^n) * s * x^(m-n)`.
#[verifier::opaque]
pub open spec fn div_step_remainder_v(
    r: Exv,
    lcr: Exv,
    v: Exv,
    lcv: Exv,
    s: Exv,
    x: Exv,
    m: int,
    n: int,
) -> Exv {
    Exv::binary(
        KindV::Difference,
        Exv::binary(KindV::Difference, r, Exv::binary(KindV::Product, lcr, pow_int_v(x, m))),
        Exv::node(
            KindV::Product,
            seq![
                Exv::binary(
                    KindV::Difference,
                    v,
                    Exv::binary(KindV::Product, lcv, pow_int_v(x, n)),
                ),
                s,
                pow_int_v(x, m - n),
            ],
        ),
    )
}

/// One iteration of the division loop, after the leading coefficients are
/// known: the quotient gains the simplified term, and the remainder is
/// reduced, simplified and expanded.
pub open spec fn s_poly_div_step(
    q: Exv,
    r: Exv,
    v: Exv,
    x: Exv,
    lcv: Exv,
    lcr: Exv,
    m: int,
    n: int,
    fuel: nat,
) -> Option<(Exv, Exv)>
    decreases fuel, 0int,
{
    if fuel == 0 {
        Option::None
    } else {
        let s = eval_quot_v(lcr, lcv);
        match s_simplify(div_step_quotient_v(q, s, x, m - n), (fuel - 1) as nat) {
            Option::None => Option::None,
            Option::Some(q2) => match s_simplify(
                div_step_remainder_v(r, lcr, v, lcv, s, x, m, n),
                (fuel - 1) as nat,
            ) {
                Option::None => Option::None,
                Option::Some(r1) => match s_algebraic_expand(r1, (fuel - 1) as nat) {
                    Option::None => Option::None,
                    Option::Some(r2) => Option::Some((q2, r2)),
                },
            },
        }
    }
}

/// The division loop on views: while the remainder's degree reaches the
/// divisor's, the leading coefficients divide, the quotient gains the term
/// `s * x^(m-n)`, and the remainder sheds its leading term, reduced and
/// expanded. A leading coefficient that is not a rational atom, or a term
/// exponent beyond 64 bits, yields the undefined pair.
pub open spec fn s_poly_div_loop(q: Exv, r: Exv, v: Exv, x: Exv, fuel: nat) -> Option<(Exv, Exv)>
    decreases fuel, 1int,
{
    if fuel == 0 {
        Option::None
    } else {
        let m = s_degree_gpe(r, x);
        let n = s_degree_gpe(v, x);
        if m < n {
            Option::Some((q, r))
        } else {
            match s_leading_coefficient_gpe(v, x, (fuel - 1) as nat) {
                Option::None => Option::None,
                Option::Some(lcv) => match s_leading_coefficient_gpe(r, x, (fuel - 1) as nat) {
                    Option::None => Option::None,
                    Option::Some(lcr) => {
                        if !lcv.is_rational() || !lcr.is_rational() || !fits_i64(m - n) {
                            Option::Some((Exv::undef(), Exv::undef()))
                        } else {
                            match s_poly_div_step(q, r, v, x, lcv, lcr, m, n, (fuel - 1) as nat) {
                                Option::None => Option::None,
                                Option::Some(p) => s_poly_div_loop(p.0, p.1, v, x, (fuel - 1) as nat),
                            }
                        }
                    }
                },
            }
        }
    }
}

/// Polynomial division of `u` by `v` in the variable `x`: the loop started
/// from a zero quotient with `u` as the remainder.
pub open spec fn s_polynomial_division(u: Exv, v: Exv, x: Exv, fuel: nat) -> Option<(Exv, Exv)>
    decreases fuel, 2int,
{
    s_poly_div_loop(Exv::int_v(0), u, v, x, fuel)
}

/// Repeated-division expansion of `u` by `v` in `x`, written in `t`: zero
/// stands, and otherwise `t` times the expansion of the quotient plus the
/// remainder, algebraically expanded.
pub open spec fn s_polynomial_expansion(u: Exv, v: Exv, x: Exv, t: Exv, fuel: nat) -> Option<Exv>
    decreases fuel, 0int,
{
    if fuel == 0 {
        Option::None
    } else if u.kind == KindV::Integer(0) {
        Option::Some(u)
    } else {
        match s_polynomial_division(u, v, x, (fuel - 1) as nat) {
            Option::None => Option::None,
            Option::Some(p) => match s_polynomial_expansion(p.0, v, x, t, (fuel - 1) as nat) {
                Option::None => Option::None,
                Option::Some(w) => s_algebraic_expand(
                    Exv::binary(KindV::Sum, Exv::binary(KindV::Product, t, w), p.1),
                    (fuel - 1) as nat,
                ),
            },
        }
    }
}

/// The Euclidean loop: while the second polynomial is not zero it divides
/// the first, and the pair advances to it and the simplified remainder; a
/// zero second polynomial ends the loop with the first made monic in `x`
/// and expanded.
pub open spec fn s_gcd_loop(a: Exv, b: Exv, x: Exv, fuel: nat) -> Option<Exv>
    decreases fuel, 0int,
{
    if fuel == 0 {
        Option::None
    } else if b.kind == KindV::Integer(0) {
        match s_leading_coefficient_gpe(a, x, (fuel - 1) as nat) {
            Option::None => Option::None,
            Option::Some(lc) => {
                let monic = Exv::binary(
                    KindV::Product,
                    Exv::binary(KindV::Quotient, Exv::int_v(1), lc),
                    a,
                );
                match s_algebraic_expand(monic, (fuel - 1) as nat) {
                    Option::None => Option::None,
                    Option::Some(w) => s_simplify(w, (fuel - 1) as nat),
                }
            }
        }
    } else {
        match s_polynomial_division(a, b, x, (fuel - 1) as nat) {
            Option::None => Option::None,
            Option::Some(p) => match s_simplify(p.1, (fuel - 1) as nat) {
                Option::None => Option::None,
                Option::Some(rs) => s_gcd_loop(b, rs, x, (fuel - 1) as nat),
            },
        }
    }
}

/// The greatest common divisor of two polynomials in `x`: zero for the
/// zero pair, and otherwise the Euclidean loop's monic result.
pub open spec fn s_polynomial_gcd(u: Exv, v: Exv, x: Exv, fuel: nat) -> Option<Exv>
    decreases fuel, 1int,
{
    if u.kind == KindV::Integer(0) && v.kind == KindV::Integer(0) {
        Option::Some(Exv::int_v(0))
    } else {
        s_gcd_loop(u, v, x, fuel)
    }
}

/// The fueled leading coefficient of a variable in an expression.
fn leading_coefficient_fuel(u: &Expr, var: &Expr, fuel: u64) -> (r: Option<Expr>)
    ensures
        opt_view(r) == s_leading_coefficient_gpe(u@, var@, fuel as nat),
    decreases fuel as nat, 2int,
{
    let d = u.degree_gpe(var);
    coefficient_gpe_fuel(u, var, d, fuel)
}

/// Builds the unsimplified next quotient `q + s * x^e`.
fn build_step_quotient(q: Expr, s: Expr, x: &Expr, e: i64) -> (qt: Expr)
    ensures
        qt@ == div_step_quotient_v(q@, s@, x@, e as int),
{
    proof {
        reveal(div_step_quotient_v);
    }
    Expr::plus(q, Expr::times(s, Expr::power(x.duplicate(), Expr::integer(e))))
}

/// Builds the unsimplified next remainder
/// `(r - lcr * x^m) - (v - lcv * x^n) * s * x^e`.
fn build_step_remainder(
    r: Expr,
    lcr: Expr,
    v: &Expr,
    lcv: Expr,
    s: Expr,
    x: &Expr,
    m: i64,
    n: i64,
    e: i64,
) -> (red: Expr)
    requires
        e as int == m - n,
    ensures
        red@ == div_step_remainder_v(r@, lcr@, v@, lcv@, s@, x@, m as int, n as int),
{
    let ghost rv = r@;
    let ghost lcrv = lcr@;
    let ghost lcvv = lcv@;
    let ghost sv = s@;
    let factors = vec_of_head(
        Expr::minus(
            v.duplicate(),
            Expr::times(lcv, Expr::power(x.duplicate(), Expr::integer(n))),
        ),
        vec_of2(s, Expr::power(x.duplicate(), Expr::integer(e))),
    );
    proof {
        assert(views_of(factors@) =~= seq![
            Exv::binary(
                KindV::Difference,
                v@,
                Exv::binary(KindV::Product, lcvv, pow_int_v(x@, n as int)),
            ),
            sv,
            pow_int_v(x@, m - n),
        ]);
    }
    let red = Expr::minus(
        Expr::minus(
            r,
            Expr::times(lcr, Expr::power(x.duplicate(), Expr::integer(m))),
        ),
        Expr::node(ExprKind::Product, factors),
    );
    proof {
        reveal(div_step_remainder_v);
        assert(red@ == div_step_remainder_v(rv, lcrv, v@, lcvv, sv, x@, m as int, n as int));
    }
    red
}

/// One fueled iteration of the division loop.
fn poly_div_step_fuel(
    q: Expr,
    r: Expr,
    v: &Expr,
    x: &Expr,
    lcv: Expr,
    lcr: Expr,
    m: i64,
    n: i64,
    e: i64,
    fuel: u64,
) -> (out: Option<(Expr, Expr)>)
    requires
        lcv@.is_rational(),
        lcr@.is_rational(),
        e as int == m - n,
    ensures
        opt_view2(out) == s_poly_div_step(q@, r@, v@, x@, lcv@, lcr@, m as int, n as int, fuel as nat),
    decreases fuel as nat, 0int,
{
    if fuel == 0 {
        return Option::None;
    }
    let s = evaluate_quotient(&lcr, &lcv);
    let qt = build_step_quotient(q, s.duplicate(), x, e);
    let q2 = match simplify_fuel(&qt, fuel - 1) {
        Option::None => {
            return Option::None;
        }
        Option::Some(w) => w,
    };
    let red = build_step_remainder(r, lcr, v, lcv, s, x, m, n, e);
    let r1 = match simplify_fuel(&red, fuel - 1) {
        Option::None => {
            return Option::None;
        }
        Option::Some(w) => w,
    };
    let r2 = match algebraic_expand_fuel(&r1, fuel - 1) {
        Option::None => {
            return Option::None;
        }
        Option::Some(w) => w,
    };
    Option::Some((q2, r2))
}

/// The fueled division loop.
#[verifier::rlimit(50)]
fn poly_div_loop_fuel(q: Expr, r: Expr, v: &Expr, x: &Expr, fuel: u64) -> (out: Option<
    (Expr, Expr),
>)
    ensures
        opt_view2(out) == s_poly_div_loop(q@, r@, v@, x@, fuel as nat),
    decreases fuel as nat, 1int,
{
    if fuel == 0 {
        return Option::None;
    }
    let m = r.degree_gpe(x);
    let n = v.degree_gpe(x);
    if m < n {
        return Option::Some((q, r));
    }
    let lcv = match leading_coefficient_fuel(v, x, fuel - 1) {
        Option::None => {
            return Option::None;
        }
        Option::Some(w) => w,
    };
    let lcr = match leading_coefficient_fuel(&r, x, fuel - 1) {
        Option::None => {
            return Option::None;
        }
        Option::Some(w) => w,
    };
    proof {
        lemma_view_facts(lcv);
        lemma_view_facts(lcr);
    }
    let rational = matches!(lcv.kind, ExprKind::Integer(_) | ExprKind::Fraction(_, _))
        && matches!(lcr.kind, ExprKind::Integer(_) | ExprKind::Fraction(_, _));
    proof {
        assert(rational == (lcv@.is_rational() && lcr@.is_rational()));
    }
    let diff_wide = (m as i128) - (n as i128);
    if !rational || diff_wide > (i64::MAX as i128) {
        proof {
            assert(!(lcv@.is_rational() && lcr@.is_rational() && fits_i64(
                s_degree_gpe(r@, x@) - s_degree_gpe(v@, x@),
            )));
        }
        return Option::Some((Expr::undefined(), Expr::undefined()));
    }
    let e = diff_wide as i64;
    match poly_div_step_fuel(q, r, v, x, lcv, lcr, m, n, e, fuel - 1) {
        Option::None => Option::None,
        Option::Some(p) => poly_div_loop_fuel(p.0, p.1, v, x, fuel - 1),
    }
}

/// The fueled polynomial division.
pub fn polynomial_division_fuel(u: &Expr, v: &Expr, x: &Expr, fuel: u64) -> (out: Option<
    (Expr, Expr),
>)
    ensures
        opt_view2(out) == s_polynomial_division(u@, v@, x@, fuel as nat),
    decreases fuel as nat, 2int,
{
    poly_div_loop_fuel(Expr::integer(0), u.duplicate(), v, x, fuel)
}

/// Divides `u` by `v` as polynomials in `x` and returns the quotient and
/// remainder; both are undefined where the budget ran out.
pub fn polynomial_division(u: &Expr, v: &Expr, x: &Expr) -> (r: (Expr, Expr))
    ensures
        (r.0@, r.1@) == unfuel2(s_polynomial_division(u@, v@, x@, SIMPLIFY_FUEL as nat)),
{
    match polynomial_division_fuel(u, v, x, SIMPLIFY_FUEL) {
        Option::Some(p) => p,
        Option::None => (Expr::undefined(), Expr::undefined()),
    }
}

/// The quotient of the polynomial division of `u` by `v` in `x`.
pub fn polynomial_quotient(u: &Expr, v: &Expr, x: &Expr) -> (r: Expr)
    ensures
        r@ == unfuel2(s_polynomial_division(u@, v@, x@, SIMPLIFY_FUEL as nat)).0,
{
    let (q, _) = polynomial_division(u, v, x);
    q
}

/// The remainder of the polynomial division of `u` by `v` in `x`.
pub fn polynomial_remainder(u: &Expr, v: &Expr, x: &Expr) -> (r: Expr)
    ensures
        r@ == unfuel2(s_polynomial_division(u@, v@, x@, SIMPLIFY_FUEL as nat)).1,
{
    let (_, r) = polynomial_division(u, v, x);
    r
}

/// The fueled repeated-division expansion.
pub fn polynomial_expansion_fuel(u: &Expr, v: &Expr, x: &Expr, t: &Expr, fuel: u64) -> (out:
    Option<Expr>)
    ensures
        opt_view(out) == s_polynomial_expansion(u@, v@, x@, t@, fuel as nat),
    decreases fuel as nat, 0int,
{
    proof {
        lemma_view_facts(*u);
    }
    if fuel == 0 {
        Option::None
    } else if matches!(u.kind, ExprKind::Integer(0)) {
        Option::Some(u.duplicate())
    } else {
        match polynomial_division_fuel(u, v, x, fuel - 1) {
            Option::None => Option::None,
            Option::Some(p) => match polynomial_expansion_fuel(&p.0, v, x, t, fuel - 1) {
                Option::None => Option::None,
                Option::Some(w) => {
                    let sum = Expr::plus(Expr::times(t.duplicate(), w), p.1);
                    algebraic_expand_fuel(&sum, fuel - 1)
                }
            },
        }
    }
}

/// Expands `u` by repeated division by `v` in `x`, written in `t`; the
/// result is undefined where the budget ran out.
pub fn polynomial_expansion(u: &Expr, v: &Expr, x: &Expr, t: &Expr) -> (r: Expr)
    ensures
        r@ == unfuel(s_polynomial_expansion(u@, v@, x@, t@, SIMPLIFY_FUEL as nat)),
{
    match polynomial_expansion_fuel(u, v, x, t, SIMPLIFY_FUEL) {
        Option::Some(e) => e,
        Option::None => Expr::undefined(),
    }
}

/// The fueled Euclidean loop.
fn gcd_loop_fuel(a: Expr, b: Expr, x: &Expr, fuel: u64) -> (out: Option<Expr>)
    ensures
        opt_view(out) == s_gcd_loop(a@, b@, x@, fuel as nat),
    decreases fuel as nat, 0int,
{
    proof {
        lemma_view_facts(b);
    }
    if fuel == 0 {
        Option::None
    } else if matches!(b.kind, ExprKind::Integer(0)) {
        match leading_coefficient_fuel(&a, x, fuel - 1) {
            Option::None => Option::None,
            Option::Some(lc) => {
                let monic = Expr::times(Expr::quotient(Expr::integer(1), lc), a);
                match algebraic_expand_fuel(&monic, fuel - 1) {
                    Option::None => Option::None,
                    Option::Some(w) => simplify_fuel(&w, fuel - 1),
                }
            }
        }
    } else {
        match polynomial_division_fuel(&a, &b, x, fuel - 1) {
            Option::None => Option::None,
            Option::Some(p) => match simplify_fuel(&p.1, fuel - 1) {
                Option::None => Option::None,
                Option::Some(rs) => gcd_loop_fuel(b, rs, x, fuel - 1),
            },
        }
    }
}

/// The fueled greatest common divisor.
pub fn polynomial_gcd_fuel(u: &Expr, v: &Expr, x: &Expr, fuel: u64) -> (out: Option<Expr>)
    ensures
        opt_view(out) == s_polynomial_gcd(u@, v@, x@, fuel as nat),
    decreases fuel as nat, 1int,
{
    proof {
        lemma_view_facts(*u);
        lemma_view_facts(*v);
    }
    if matches!(u.kind, ExprKind::Integer(0)) && matches!(v.kind, ExprKind::Integer(0)) {
        Option::Some(Expr::integer(0))
    } else {
        gcd_loop_fuel(u.duplicate(), v.duplicate(), x, fuel)
    }
}

/// The greatest common divisor of `u` and `v` as polynomials in `x`,
/// monic in `x`; zero for the zero pair, and undefined where the budget
/// ran out.
pub fn polynomial_gcd(u: &Expr, v: &Expr, x: &Expr) -> (r: Expr)
    ensures
        r@ == unfuel(s_polynomial_gcd(u@, v@, x@, SIMPLIFY_FUEL as nat)),
{
    match polynomial_gcd_fuel(u, v, x, SIMPLIFY_FUEL) {
        Option::Some(e) => e,
        Option::None => Expr::undefined(),
    }
}

} // verus!
