//! Evaluation of named function applications: a dispatch from name and
//! arity to the built-in operations; unknown names are returned unchanged.

use vstd::prelude::*;

use crate::classify::{is_grne_v, is_rne_v};
use crate::expression::{
    has_undef, lemma_view_facts, occurs_v, subst_v, views_of, Expr, ExprKind, Exv, KindV,
};
use crate::numeric::{denominator_fuel, im_fuel, numerator_fuel, re_fuel, s_denominator, s_im, s_numerator, s_re};
use crate::polynomial::{algebraic_expand_fuel, s_algebraic_expand, s_coefficient_gpe, s_variables};
use crate::polynomial::division::{
    polynomial_division_fuel, polynomial_expansion_fuel, polynomial_gcd_fuel,
    s_polynomial_division, s_polynomial_expansion, s_polynomial_gcd,
};
use crate::simplify::{opt_view, SIMPLIFY_FUEL};

verus! {

broadcast use vstd::std_specs::vec::group_vec_axioms, vstd::seq::group_seq_axioms;

/// Evaluation of a function application view by name and arity: the
/// accessors, expansion, coefficient queries, polynomial quotient,
/// remainder, expansion and greatest common divisor, classification
/// predicates, variables, freeness and substitution; an unknown name
/// stands unchanged.
pub open spec fn s_evaluate_function(e: Exv, fuel: nat) -> Option<Exv>
    decreases fuel, 0int,
{
    if fuel == 0 {
        Option::None
    } else if !(e.kind is Func) {
        Option::Some(e)
    } else if has_undef(e.ops) {
        Option::Some(Exv::undef())
    } else {
        let name = e.kind->Func_0;
        let n = e.ops.len();
        if name == "Numerator"@ && n == 1 {
            s_numerator(e.ops[0], (fuel - 1) as nat)
        } else if name == "Denominator"@ && n == 1 {
            s_denominator(e.ops[0], (fuel - 1) as nat)
        } else if name == "Re"@ && n == 1 {
            s_re(e.ops[0], (fuel - 1) as nat)
        } else if name == "Im"@ && n == 1 {
            s_im(e.ops[0], (fuel - 1) as nat)
        } else if name == "Expand"@ && n == 1 {
            s_algebraic_expand(e.ops[0], (fuel - 1) as nat)
        } else if name == "Coefficient"@ && n == 3 {
            if e.ops[2].kind is Integer {
                s_coefficient_gpe(e.ops[0], e.ops[1], e.ops[2].kind->Integer_0, (fuel - 1) as nat)
            } else {
                Option::Some(Exv::undef())
            }
        } else if name == "PolynomialQuotient"@ && n == 3 {
            match s_polynomial_division(e.ops[0], e.ops[1], e.ops[2], (fuel - 1) as nat) {
                Option::None => Option::None,
                Option::Some(p) => Option::Some(p.0),
            }
        } else if name == "PolynomialRemainder"@ && n == 3 {
            match s_polynomial_division(e.ops[0], e.ops[1], e.ops[2], (fuel - 1) as nat) {
                Option::None => Option::None,
                Option::Some(p) => Option::Some(p.1),
            }
        } else if name == "PolynomialGCD"@ && n == 3 {
            s_polynomial_gcd(e.ops[0], e.ops[1], e.ops[2], (fuel - 1) as nat)
        } else if name == "PolynomialExpansion"@ && n == 4 {
            s_polynomial_expansion(e.ops[0], e.ops[1], e.ops[2], e.ops[3], (fuel - 1) as nat)
        } else if name == "IsInteger"@ && n == 1 {
            Option::Some(Exv::bool_v(e.ops[0].kind is Integer))
        } else if name == "IsRNE"@ && n == 1 {
            Option::Some(Exv::bool_v(is_rne_v(e.ops[0])))
        } else if name == "IsGRNE"@ && n == 1 {
            Option::Some(Exv::bool_v(is_grne_v(e.ops[0])))
        } else if name == "Variables"@ && n == 1 {
            Option::Some(s_variables(e.ops[0]))
        } else if name == "FreeOf"@ && n == 2 {
            Option::Some(Exv::bool_v(!occurs_v(e.ops[0], e.ops[1])))
        } else if name == "Substitute"@ && n == 3 {
            Option::Some(subst_v(e.ops[0], e.ops[1], e.ops[2]))
        } else {
            Option::Some(e)
        }
    }
}

/// Whether a name equals a literal.
fn name_is(name: &String, lit: &str) -> (r: bool)
    ensures
        r == (name@ == lit@),
{
    let s = lit.to_owned();
    *name == s
}

/// The fueled evaluation of a function application.
pub fn evaluate_function_fuel(e: &Expr, fuel: u64) -> (r: Option<Expr>)
    ensures
        opt_view(r) == s_evaluate_function(e@, fuel as nat),
    decreases fuel as nat, 0int,
{
    proof {
        lemma_view_facts(*e);
        assert(views_of(e.operands@) =~= e@.ops);
        if e.operands@.len() >= 1 {
            lemma_view_facts(e.operands@[0]);
        }
        if e.operands@.len() >= 3 {
            lemma_view_facts(e.operands@[2]);
        }
    }
    if fuel == 0 {
        return Option::None;
    }
    let name = match &e.kind {
        ExprKind::Func(name) => name,
        _ => {
            return Option::Some(e.duplicate());
        }
    };
    if crate::expression::any_undefined(&e.operands) {
        return Option::Some(Expr::undefined());
    }
    let n = e.operands.len();
    if name_is(name, "Numerator") && n == 1 {
        numerator_fuel(&e.operands[0], fuel - 1)
    } else if name_is(name, "Denominator") && n == 1 {
        denominator_fuel(&e.operands[0], fuel - 1)
    } else if name_is(name, "Re") && n == 1 {
        re_fuel(&e.operands[0], fuel - 1)
    } else if name_is(name, "Im") && n == 1 {
        im_fuel(&e.operands[0], fuel - 1)
    } else if name_is(name, "Expand") && n == 1 {
        algebraic_expand_fuel(&e.operands[0], fuel - 1)
    } else if name_is(name, "Coefficient") && n == 3 {
        match e.operands[2].kind {
            ExprKind::Integer(k) => {
                let ghost pre = s_coefficient_gpe(
                    e@.ops[0],
                    e@.ops[1],
                    k as int,
                    (fuel - 1) as nat,
                );
                let r = coefficient_dispatch(&e.operands[0], &e.operands[1], k, fuel - 1);
                r
            }
            _ => Option::Some(Expr::undefined()),
        }
    } else if name_is(name, "PolynomialQuotient") && n == 3 {
        match polynomial_division_fuel(&e.operands[0], &e.operands[1], &e.operands[2], fuel - 1) {
            Option::None => Option::None,
            Option::Some(p) => Option::Some(p.0),
        }
    } else if name_is(name, "PolynomialRemainder") && n == 3 {
        match polynomial_division_fuel(&e.operands[0], &e.operands[1], &e.operands[2], fuel - 1) {
            Option::None => Option::None,
            Option::Some(p) => Option::Some(p.1),
        }
    } else if name_is(name, "PolynomialGCD") && n == 3 {
        polynomial_gcd_fuel(&e.operands[0], &e.operands[1], &e.operands[2], fuel - 1)
    } else if name_is(name, "PolynomialExpansion") && n == 4 {
        polynomial_expansion_fuel(
            &e.operands[0],
            &e.operands[1],
            &e.operands[2],
            &e.operands[3],
            fuel - 1,
        )
    } else if name_is(name, "IsInteger") && n == 1 {
        Option::Some(Expr::boolean(e.operands[0].is_integer()))
    } else if name_is(name, "IsRNE") && n == 1 {
        Option::Some(Expr::boolean(e.operands[0].is_rne()))
    } else if name_is(name, "IsGRNE") && n == 1 {
        Option::Some(Expr::boolean(e.operands[0].is_grne()))
    } else if name_is(name, "Variables") && n == 1 {
        Option::Some(e.operands[0].variables())
    } else if name_is(name, "FreeOf") && n == 2 {
        Option::Some(e.operands[0].free_of(&e.operands[1]))
    } else if name_is(name, "Substitute") && n == 3 {
        Option::Some(e.operands[0].substitute(&e.operands[1], &e.operands[2]))
    } else {
        Option::Some(e.duplicate())
    }
}

/// The coefficient query behind the dispatch, preserving the budget.
fn coefficient_dispatch(u: &Expr, var: &Expr, exp: i64, fuel: u64) -> (r: Option<Expr>)
    ensures
        opt_view(r) == s_coefficient_gpe(u@, var@, exp as int, fuel as nat),
    decreases fuel as nat, 2int,
{
    crate::polynomial::coefficient_gpe_fuel(u, var, exp, fuel)
}

/// Evaluates a function application by name and arity; an application with
/// an undefined operand is undefined, and an unknown name is unchanged.
pub fn evaluate_function(expr: &Expr) -> (r: Expr)
    ensures
        r@ == crate::expression::unfuel(s_evaluate_function(expr@, SIMPLIFY_FUEL as nat)),
{
    match evaluate_function_fuel(expr, SIMPLIFY_FUEL) {
        Option::Some(e) => e,
        Option::None => Expr::undefined(),
    }
}

} // verus!
