//! Simplification of factorials: an undefined operand absorbs, a
//! non-negative integer argument is evaluated by iterated multiplication;
//! anything else, and a value whose factorial does not fit in 64 bits, is
//! left unchanged.

use vstd::prelude::*;

use crate::arith::fits_i64;
use crate::expression::{
    any_undefined, has_undef, lemma_view_facts, views_of, Expr, ExprKind, Exv, KindV,
};

verus! {

broadcast use vstd::std_specs::vec::group_vec_axioms, vstd::seq::group_seq_axioms;

/// The factorial of a natural number.
pub open spec fn factorial_nat(k: nat) -> nat
    decreases k,
{
    if k == 0 {
        1
    } else {
        k * factorial_nat((k - 1) as nat)
    }
}

/// Simplification of a factorial view: an undefined operand absorbs, a
/// non-negative integer argument whose factorial fits in 64 bits is
/// evaluated; anything else stands.
pub open spec fn s_factorial(e: Exv) -> Exv {
    if has_undef(e.ops) {
        Exv::undef()
    } else if e.kind is Factorial && e.ops.len() == 1 {
        match e.ops[0].kind {
            KindV::Integer(n) => if n >= 0 && fits_i64(factorial_nat(n as nat) as int) {
                Exv::int_v(factorial_nat(n as nat) as int)
            } else {
                e
            },
            _ => e,
        }
    } else {
        e
    }
}

/// The factorial never shrinks as its argument grows.
proof fn lemma_factorial_monotone(a: nat, b: nat)
    requires
        a <= b,
    ensures
        factorial_nat(a) <= factorial_nat(b),
        factorial_nat(b) >= 1,
    decreases b,
{
    if b == 0 {
    } else {
        if a == b {
            lemma_factorial_monotone((b - 1) as nat, (b - 1) as nat);
            assert(factorial_nat(b) == b * factorial_nat((b - 1) as nat));
            assert(b * factorial_nat((b - 1) as nat) >= 1 * factorial_nat(
                (b - 1) as nat,
            )) by (nonlinear_arith)
                requires
                    b >= 1,
                    factorial_nat((b - 1) as nat) >= 1,
            ;
        } else {
            lemma_factorial_monotone(a, (b - 1) as nat);
            assert(factorial_nat(b) == b * factorial_nat((b - 1) as nat));
            assert(b * factorial_nat((b - 1) as nat) >= factorial_nat(
                (b - 1) as nat,
            )) by (nonlinear_arith)
                requires
                    b >= 1,
                    factorial_nat((b - 1) as nat) >= 0,
            ;
        }
    }
}

/// Simplifies a factorial: an undefined operand absorbs, a non-negative
/// integer argument is evaluated by iterated multiplication; a negative,
/// fractional or symbolic argument, or a factorial beyond 64 bits, is left
/// unchanged.
pub fn simplify_factorial(expr: &Expr) -> (r: Expr)
    ensures
        r@ == s_factorial(expr@),
{
    proof {
        lemma_view_facts(*expr);
        assert(views_of(expr.operands@) =~= expr@.ops);
        if expr.operands@.len() >= 1 {
            lemma_view_facts(expr.operands@[0]);
        }
    }
    if any_undefined(&expr.operands) {
        Expr::undefined()
    } else if matches!(expr.kind, ExprKind::Factorial) && expr.operands.len() == 1 {
        match expr.operands[0].kind {
            ExprKind::Integer(n) if n >= 0 => {
                let mut acc: i64 = 1;
                let mut i: i64 = 0;
                while i < n
                    invariant
                        0 <= i <= n,
                        acc >= 1,
                        acc as int == factorial_nat(i as nat),
                        expr@.kind is Factorial,
                        expr@.ops.len() == 1,
                        !has_undef(expr@.ops),
                        expr@.ops[0].kind == KindV::Integer(n as int),
                    decreases n - i,
                {
                    proof {
                        assert(i128::MIN < (acc as int) * ((i + 1) as int)
                            < i128::MAX) by (nonlinear_arith)
                            requires
                                1 <= acc <= i64::MAX,
                                1 <= i + 1 <= i64::MAX,
                        ;
                    }
                    let next = (acc as i128) * ((i + 1) as i128);
                    if next > i64::MAX as i128 {
                        proof {
                            assert(factorial_nat((i + 1) as nat) == (i + 1) * factorial_nat(
                                i as nat,
                            ));
                            assert(factorial_nat((i + 1) as nat) > i64::MAX) by (nonlinear_arith)
                                requires
                                    factorial_nat((i + 1) as nat) == (i + 1) * factorial_nat(
                                        i as nat,
                                    ),
                                    factorial_nat(i as nat) == acc as int,
                                    next == (acc as int) * ((i + 1) as int),
                                    next > i64::MAX as int,
                                    i >= 0,
                            ;
                            lemma_factorial_monotone((i + 1) as nat, n as nat);
                            assert(factorial_nat(n as nat) > i64::MAX);
                            assert(!fits_i64(factorial_nat(n as nat) as int));
                            assert(s_factorial(expr@) == expr@);
                        }
                        return expr.duplicate();
                    }
                    proof {
                        assert(next >= 1) by (nonlinear_arith)
                            requires
                                next == (acc as int) * ((i + 1) as int),
                                acc >= 1,
                                i >= 0,
                        ;
                        assert(factorial_nat((i + 1) as nat) == (i + 1) * factorial_nat(i as nat));
                        assert(factorial_nat((i + 1) as nat) == next) by (nonlinear_arith)
                            requires
                                factorial_nat((i + 1) as nat) == (i + 1) * factorial_nat(i as nat),
                                factorial_nat(i as nat) == acc as int,
                                next == (acc as int) * ((i + 1) as int),
                                i >= 0,
                        ;
                    }
                    acc = next as i64;
                    i = i + 1;
                }
                Expr::integer(acc)
            }
            _ => expr.duplicate(),
        }
    } else {
        expr.duplicate()
    }
}

} // verus!
