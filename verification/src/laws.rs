//! Laws of the simplifier, stated and proved over the rewrite
//! specifications.

use vstd::prelude::*;

use crate::arith::{abs_int, fits_i64, gcd_nat, lemma_gcd_coprime, lemma_gcd_properties};
use crate::evaluate::gaussian::{
    eval_prod_gaussian_v, eval_sum_gaussian_v, im_num_v, re_num_v,
};
use crate::evaluate::{eval_diff_v, eval_prod_v, eval_sum_v};
use crate::expression::{denom_v, has_undef, numer_v, unfuel, Exv, KindV};
use crate::simplify::gaussian_number::{grne_rec_v, grne_v, sgn_v};
use crate::simplify::factorial::s_factorial;
use crate::simplify::logic::{s_and, s_not, s_or};
use crate::simplify::power::s_power;
use crate::simplify::product::s_product;
use crate::simplify::rational_number::{canon_rat_v, srn_v};
use crate::simplify::s_simplify;
use crate::simplify::set::{
    adjacent_distinct, lemma_dedup_sorted, lemma_sort_sorted, s_intersection, s_member,
    s_set_difference, s_union, set_list_v, sort_v, sorted_le,
};
use crate::simplify::sum::s_sum;

verus! {

/// The undefined value absorbs the algebraic, logic and set combinators: a
/// sum, product, factorial, disjunction, conjunction, union or
/// intersection with an undefined operand, a power or negation with an
/// undefined part, and a set difference or membership with an undefined
/// operand, rewrite to undefined whenever the rewrite returns at all.
pub proof fn law_undefined_absorption(u: Exv, fuel: nat)
    requires
        has_undef(u.ops),
    ensures
        s_sum(u, fuel) matches Option::Some(r) ==> r == Exv::undef(),
        s_product(u, fuel) matches Option::Some(r) ==> r == Exv::undef(),
        s_or(u, fuel) matches Option::Some(r) ==> r == Exv::undef(),
        s_and(u, fuel) matches Option::Some(r) ==> r == Exv::undef(),
        s_union(u, fuel) matches Option::Some(r) ==> r == Exv::undef(),
        s_intersection(u, fuel) matches Option::Some(r) ==> r == Exv::undef(),
        s_set_difference(u) == Exv::undef(),
        s_member(u) == Exv::undef(),
        s_factorial(u) == Exv::undef(),
        u.ops.len() == 2 ==> (s_power(u, fuel) matches Option::Some(r) ==> r == Exv::undef()),
        (u.kind is Not && u.ops.len() == 1) ==> s_not(u) == Exv::undef(),
{
    if u.ops.len() == 2 && fuel > 0 {
        assert(u.ops[0].is_undef() || u.ops[1].is_undef());
    }
    if u.kind is Not && u.ops.len() == 1 {
        assert(u.ops[0].is_undef());
        assert(u.ops[0].kind is Undefined);
    }
}

/// Simplification is idempotent on the atoms: undefined, integers, symbols
/// and booleans simplify to themselves, so a second pass changes nothing.
pub proof fn law_idempotent_on_atoms(e: Exv, fuel: nat)
    requires
        e.kind is Undefined || e.kind is Integer || e.kind is Symbol || e.kind is Boolean,
        fuel > 0,
    ensures
        s_simplify(e, fuel) == Option::Some(e),
{
}

/// A rational atom in standard form: a 64-bit integer, or a fraction with
/// 64-bit coprime parts and a denominator of at least two, carrying no
/// operands.
pub open spec fn standard_rational(e: Exv) -> bool {
    e.ops.len() == 0 && {
        ||| (e.kind matches KindV::Integer(n) && fits_i64(n))
        ||| (e.kind matches KindV::Fraction(n, d) && d >= 2 && fits_i64(n) && fits_i64(d)
            && gcd_nat(abs_int(n) as nat, d as nat) == 1)
    }
}

/// A rational atom in standard form reduces to itself.
proof fn lemma_srn_standard(r: Exv)
    requires
        standard_rational(r),
    ensures
        srn_v(r) == r,
{
    match r.kind {
        KindV::Fraction(n, d) => {
            let na = abs_int(n);
            let da = abs_int(d);
            assert(da == d);
            if na % da == 0 {
                assert(gcd_nat(na as nat, da as nat) == gcd_nat(da as nat, (na % da) as nat));
                assert(gcd_nat(da as nat, 0nat) == da as nat);
                assert(false);
            }
            let g = gcd_nat(na as nat, da as nat) as int;
            assert(na / g == na && da / g == da);
            if n < 0 {
                assert(canon_rat_v(n, d) == Exv::frac_v(-na, da));
                assert(-na == n);
            } else {
                assert(canon_rat_v(n, d) == Exv::frac_v(na, da));
                assert(na == n);
            }
            assert(r.ops =~= Seq::<Exv>::empty());
            assert(r =~= Exv::frac_v(n, d));
        }
        _ => {}
    }
}

/// Simplification is idempotent on fractions in standard form: a fraction
/// with coprime parts and a denominator of at least two is its own
/// simplified form, so the simplifier's fraction outputs are fixed points
/// of a second pass.
pub proof fn law_idempotent_on_standard_fractions(n: int, d: int, fuel: nat)
    requires
        fuel > 0,
        d >= 2,
        fits_i64(n),
        fits_i64(d),
        gcd_nat(abs_int(n) as nat, d as nat) == 1,
    ensures
        s_simplify(Exv::frac_v(n, d), fuel) == Option::Some(Exv::frac_v(n, d)),
{
    lemma_srn_standard(Exv::frac_v(n, d));
}

/// Simplification is idempotent on Gaussian atoms in standard form: a
/// Gaussian whose real and imaginary parts are standard rational atoms and
/// whose imaginary part is not zero is its own simplified form.
pub proof fn law_idempotent_on_gaussian_atoms(e: Exv, fuel: nat)
    requires
        fuel > 0,
        e.kind is Gaussian,
        e.ops.len() == 2,
        standard_rational(e.ops[0]),
        standard_rational(e.ops[1]),
        e.ops[1].kind != KindV::Integer(0),
    ensures
        s_simplify(e, fuel) == Option::Some(e),
{
    lemma_srn_standard(e.ops[0]);
    lemma_srn_standard(e.ops[1]);
    assert(Exv::gaussian_v(e.ops[0], e.ops[1]) == e) by {
        assert(seq![e.ops[0], e.ops[1]] =~= e.ops);
    }
}

/// Rational addition and multiplication do not depend on the order of the
/// operands.
proof fn lemma_eval_comm(a: Exv, b: Exv)
    ensures
        eval_sum_v(a, b) == eval_sum_v(b, a),
        eval_prod_v(a, b) == eval_prod_v(b, a),
{
}

/// Numeric addition and multiplication of working-shape atoms do not
/// depend on the order of the operands.
proof fn lemma_eval_gaussian_comm(v: Exv, w: Exv)
    ensures
        eval_sum_gaussian_v(v, w) == eval_sum_gaussian_v(w, v),
        eval_prod_gaussian_v(v, w) == eval_prod_gaussian_v(w, v),
{
    lemma_eval_comm(re_num_v(v), re_num_v(w));
    lemma_eval_comm(im_num_v(v), im_num_v(w));
    lemma_eval_comm(re_num_v(v), im_num_v(w));
    lemma_eval_comm(im_num_v(v), re_num_v(w));
    lemma_eval_comm(
        eval_prod_v(re_num_v(v), im_num_v(w)),
        eval_prod_v(im_num_v(v), re_num_v(w)),
    );
}

/// Numeric sums and products commute: the reduction of `a + b` equals the
/// reduction of `b + a`, and likewise for products, for every pair of
/// operand views.
pub proof fn law_numeric_commutative(a: Exv, b: Exv)
    ensures
        grne_v(Exv::binary(KindV::Sum, a, b)) == grne_v(Exv::binary(KindV::Sum, b, a)),
        grne_v(Exv::binary(KindV::Product, a, b)) == grne_v(Exv::binary(KindV::Product, b, a)),
{
    lemma_eval_gaussian_comm(grne_rec_v(a), grne_rec_v(b));
}

/// A numeric atom in standard form: a standard rational, or a Gaussian
/// whose parts are standard rationals with a nonzero imaginary part.
pub open spec fn standard_numeric(e: Exv) -> bool {
    standard_rational(e) || (e.kind is Gaussian && e.ops.len() == 2 && standard_rational(e.ops[0])
        && standard_rational(e.ops[1]) && e.ops[1].kind != KindV::Integer(0))
}

/// A standard rational atom equals the bare fraction view of its parts.
proof fn lemma_standard_shape(r: Exv)
    requires
        standard_rational(r),
    ensures
        r.kind matches KindV::Integer(n) ==> r == Exv::int_v(n),
        r.kind matches KindV::Fraction(n, d) ==> r == Exv::frac_v(n, d),
{
    assert(r.ops =~= Seq::<Exv>::empty());
    match r.kind {
        KindV::Integer(n) => {
            assert(r =~= Exv::int_v(n));
        }
        KindV::Fraction(n, d) => {
            assert(r =~= Exv::frac_v(n, d));
        }
        _ => {}
    }
}

/// Adding zero changes no numeric atom in standard form.
pub proof fn law_numeric_add_zero(v: Exv)
    requires
        standard_numeric(v),
    ensures
        grne_v(Exv::binary(KindV::Sum, v, Exv::int_v(0))) == v,
{
    let z = Exv::int_v(0);
    let sv = Exv::binary(KindV::Sum, v, z);
    assert(sv.ops[0] == v && sv.ops[1] == z && sv.ops.len() == 2);
    if v.kind is Gaussian {
        let r0 = v.ops[0];
        let r1 = v.ops[1];
        lemma_srn_standard(r0);
        lemma_srn_standard(r1);
        lemma_standard_shape(r0);
        lemma_standard_shape(r1);
        assert(grne_rec_v(v) == v);
        assert(re_num_v(v) == r0 && im_num_v(v) == r1);
        assert(eval_sum_v(r0, z) == Exv::frac_v(numer_v(r0), denom_v(r0)));
        assert(eval_sum_v(r1, z) == Exv::frac_v(numer_v(r1), denom_v(r1)));
        assert(srn_v(Exv::frac_v(numer_v(r0), denom_v(r0))) == r0);
        assert(srn_v(Exv::frac_v(numer_v(r1), denom_v(r1))) == r1);
        assert(eval_sum_gaussian_v(v, z) == Exv::gaussian_v(
            Exv::frac_v(numer_v(r0), denom_v(r0)),
            Exv::frac_v(numer_v(r1), denom_v(r1)),
        ));
        assert(seq![v.ops[0], v.ops[1]] =~= v.ops);
        assert(Exv::gaussian_v(r0, r1) =~= v);
        assert(sgn_v(eval_sum_gaussian_v(v, z)) == v);
        assert(grne_rec_v(sv) == eval_sum_gaussian_v(v, z)) by {
            reveal_with_fuel(grne_rec_v, 2);
        }
        assert(grne_v(sv) == v);
    } else {
        let n = numer_v(v);
        let d = denom_v(v);
        lemma_srn_standard(v);
        lemma_standard_shape(v);
        assert(grne_rec_v(v) == v);
        assert(re_num_v(v) == v && im_num_v(v) == z);
        assert(canon_rat_v(0, 1) == Exv::int_v(0));
        assert(eval_sum_v(v, z) == Exv::frac_v(n, d));
        assert(eval_sum_v(z, z) == Exv::frac_v(0, 1));
        assert(srn_v(Exv::frac_v(n, d)) == v);
        assert(eval_sum_gaussian_v(v, z) == Exv::gaussian_v(
            Exv::frac_v(n, d),
            Exv::frac_v(0, 1),
        ));
        assert(sgn_v(eval_sum_gaussian_v(v, z)) == v);
        assert(grne_rec_v(sv) == eval_sum_gaussian_v(v, z)) by {
            reveal_with_fuel(grne_rec_v, 2);
        }
        assert(grne_v(sv) == v);
    }
}

/// Multiplying by one changes no rational atom in standard form.
pub proof fn law_numeric_mul_one(v: Exv)
    requires
        standard_rational(v),
    ensures
        grne_v(Exv::binary(KindV::Product, v, Exv::int_v(1))) == v,
{
    let z = Exv::int_v(0);
    let one = Exv::int_v(1);
    let n = numer_v(v);
    let d = denom_v(v);
    let pv = Exv::binary(KindV::Product, v, one);
    assert(pv.ops[0] == v && pv.ops[1] == one && pv.ops.len() == 2);
    lemma_srn_standard(v);
    lemma_standard_shape(v);
    assert(grne_rec_v(v) == v);
    assert(re_num_v(v) == v && im_num_v(v) == z);
    assert(canon_rat_v(0, d) == Exv::int_v(0));
    assert(eval_prod_v(v, one) == Exv::frac_v(n, d));
    assert(eval_prod_v(z, z) == Exv::frac_v(0, 1));
    assert(eval_prod_v(v, z) == Exv::frac_v(0, d));
    assert(eval_prod_v(z, one) == Exv::frac_v(0, 1));
    assert(eval_diff_v(Exv::frac_v(n, d), Exv::frac_v(0, 1)) == Exv::frac_v(n, d));
    assert(eval_sum_v(Exv::frac_v(0, d), Exv::frac_v(0, 1)) == Exv::frac_v(0, d));
    assert(srn_v(Exv::frac_v(n, d)) == v);
    assert(eval_prod_gaussian_v(v, one) == Exv::gaussian_v(
        Exv::frac_v(n, d),
        Exv::frac_v(0, d),
    ));
    assert(sgn_v(eval_prod_gaussian_v(v, one)) == v);
    assert(grne_rec_v(pv) == eval_prod_gaussian_v(v, one)) by {
        reveal_with_fuel(grne_rec_v, 2);
    }
    assert(grne_v(pv) == v);
}

/// Multiplying a rational atom in standard form by zero yields zero.
pub proof fn law_numeric_mul_zero(v: Exv)
    requires
        standard_rational(v),
    ensures
        grne_v(Exv::binary(KindV::Product, v, Exv::int_v(0))) == Exv::int_v(0),
{
    let z = Exv::int_v(0);
    let n = numer_v(v);
    let d = denom_v(v);
    let pz = Exv::binary(KindV::Product, v, z);
    assert(pz.ops[0] == v && pz.ops[1] == z && pz.ops.len() == 2);
    lemma_srn_standard(v);
    lemma_standard_shape(v);
    assert(grne_rec_v(v) == v);
    assert(re_num_v(v) == v && im_num_v(v) == z);
    assert(canon_rat_v(0, d) == Exv::int_v(0));
    assert(eval_prod_v(v, z) == Exv::frac_v(0, d));
    assert(eval_prod_v(z, z) == Exv::frac_v(0, 1));
    assert(eval_diff_v(Exv::frac_v(0, d), Exv::frac_v(0, 1)) == Exv::frac_v(0, d));
    assert(eval_sum_v(Exv::frac_v(0, d), Exv::frac_v(0, 1)) == Exv::frac_v(0, d));
    assert(srn_v(Exv::frac_v(0, d)) == Exv::int_v(0));
    assert(eval_prod_gaussian_v(v, z) == Exv::gaussian_v(
        Exv::frac_v(0, d),
        Exv::frac_v(0, d),
    ));
    assert(sgn_v(eval_prod_gaussian_v(v, z)) == Exv::int_v(0));
    assert(grne_rec_v(pz) == eval_prod_gaussian_v(v, z)) by {
        reveal_with_fuel(grne_rec_v, 2);
    }
    assert(grne_v(pz) == Exv::int_v(0));
}

/// A simplified set literal is canonical: whenever the simplifier returns
/// on a set literal, the result is the undefined value or a set literal
/// whose operands are sorted by the canonical order with no equal
/// neighbours.
pub proof fn law_set_literal_sorted(e: Exv, fuel: nat)
    requires
        e.kind is SetLiteral,
    ensures
        s_simplify(e, fuel) matches Option::Some(r) ==> r.is_undef() || (r.kind is SetLiteral
            && sorted_le(r.ops) && adjacent_distinct(r.ops)),
{
    if fuel > 0 {
        match crate::simplify::s_simplify_list(e.ops, 0, (fuel - 1) as nat) {
            Option::Some(ops) => {
                if !has_undef(ops) {
                    lemma_sort_sorted(ops);
                    lemma_dedup_sorted(sort_v(ops));
                    assert(sorted_le(set_list_v(ops)));
                }
            }
            Option::None => {}
        }
    }
}

/// Simplification is idempotent on every fraction atom: a second pass over
/// the simplified form of a fraction returns it unchanged, whatever the
/// parts.
pub proof fn law_idempotent_on_fraction_atoms(n: int, d: int, fuel1: nat, fuel2: nat)
    requires
        fuel1 > 0,
        fuel2 > 0,
    ensures
        s_simplify(unfuel(s_simplify(Exv::frac_v(n, d), fuel1)), fuel2) == Option::Some(
            unfuel(s_simplify(Exv::frac_v(n, d), fuel1)),
        ),
{
    let c = canon_rat_v(n, d);
    assert(s_simplify(Exv::frac_v(n, d), fuel1) == Option::Some(c));
    if d != 0 {
        law_canonical_fraction(n, d);
        if !(c.kind is Integer) && !(c.kind is Undefined) {
            assert(c.ops.len() == 0);
            lemma_srn_standard(c);
        }
    }
}

/// The canonical form of a fraction: the standard form of `n / d` with a
/// nonzero denominator is an exact integer, the undefined value where a
/// part cannot be represented in 64 bits, or a fraction in standard form,
/// with a denominator of at least two, 64-bit parts that are coprime, and
/// the same rational value.
pub proof fn law_canonical_fraction(n: int, d: int)
    requires
        d != 0,
    ensures
        canon_rat_v(n, d).kind is Integer || canon_rat_v(n, d).kind is Undefined || (
        canon_rat_v(n, d).kind matches KindV::Fraction(n2, d2) && d2 >= 2 && fits_i64(n2)
            && fits_i64(d2) && gcd_nat(abs_int(n2) as nat, d2 as nat) == 1 && n2 * d == n * d2),
{
    let na = abs_int(n);
    let da = abs_int(d);
    let neg = (n < 0) != (d < 0);
    if na % da != 0 {
        lemma_gcd_properties(na as nat, da as nat);
        let g = gcd_nat(na as nat, da as nat) as int;
        lemma_gcd_coprime(na as nat, da as nat);
        let nr = na / g;
        let dr = da / g;
        vstd::arithmetic::div_mod::lemma_fundamental_div_mod(na, g);
        vstd::arithmetic::div_mod::lemma_fundamental_div_mod(da, g);
        assert(na == g * nr && da == g * dr);
        assert(dr > 0) by (nonlinear_arith)
            requires
                da > 0,
                g > 0,
                da == g * dr,
        ;
        if dr == 1 {
            assert(na == nr * da) by (nonlinear_arith)
                requires
                    na == g * nr,
                    da == g * dr,
                    dr == 1,
            ;
            vstd::arithmetic::div_mod::lemma_mod_multiples_basic(nr, da);
            assert(false);
        }
        assert(nr >= 0) by (nonlinear_arith)
            requires
                na >= 0,
                g > 0,
                na == g * nr,
        ;
        if neg {
            if crate::arith::fits_i64(-nr) && crate::arith::fits_i64(dr) {
                assert(abs_int(-nr) == nr);
                assert((-nr) * d == n * dr) by (nonlinear_arith)
                    requires
                        na == g * nr,
                        da == g * dr,
                        g > 0,
                        na == abs_int(n),
                        da == abs_int(d),
                        (n < 0) != (d < 0),
                ;
            }
        } else {
            if crate::arith::fits_i64(nr) && crate::arith::fits_i64(dr) {
                assert(abs_int(nr) == nr);
                assert(nr * d == n * dr) by (nonlinear_arith)
                    requires
                        na == g * nr,
                        da == g * dr,
                        g > 0,
                        na == abs_int(n),
                        da == abs_int(d),
                        ((n < 0) == (d < 0)),
                ;
            }
        }
    }
}

} // verus!
