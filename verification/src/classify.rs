//! Classification predicates: integer, rational-number-expression and
//! Gaussian-rational-number-expression tests.

use vstd::prelude::*;

use crate::expression::{lemma_view_facts, Expr, ExprKind, Exv, KindV};

verus! {

broadcast use vstd::std_specs::vec::group_vec_axioms, vstd::seq::group_seq_axioms;

/// Whether a view is a rational number expression: a tree of integers and
/// fractions under sum, difference, product, quotient and integer power.
pub open spec fn is_rne_v(e: Exv) -> bool
    decreases e,
{
    if e.is_rational() {
        true
    } else if e.ops.len() == 1 {
        (e.kind is Sum || e.kind is Difference) && is_rne_v(e.ops[0])
    } else if e.ops.len() == 2 {
        match e.kind {
            KindV::Sum | KindV::Difference | KindV::Product | KindV::Quotient => is_rne_v(e.ops[0])
                && is_rne_v(e.ops[1]),
            KindV::Power => is_rne_v(e.ops[0]) && e.ops[1].kind is Integer,
            _ => false,
        }
    } else {
        false
    }
}

/// Whether a view is a Gaussian rational number expression: as an RNE, with
/// Gaussian atoms also admitted.
pub open spec fn is_grne_v(e: Exv) -> bool
    decreases e,
{
    if e.is_numeric() {
        true
    } else if e.ops.len() == 1 {
        (e.kind is Sum || e.kind is Difference) && is_grne_v(e.ops[0])
    } else if e.ops.len() == 2 {
        match e.kind {
            KindV::Sum | KindV::Difference | KindV::Product | KindV::Quotient => is_grne_v(
                e.ops[0],
            ) && is_grne_v(e.ops[1]),
            KindV::Power => is_grne_v(e.ops[0]) && e.ops[1].kind is Integer,
            _ => false,
        }
    } else {
        false
    }
}

impl Expr {
    /// Whether this expression is an integer atom.
    pub fn is_integer(&self) -> (r: bool)
        ensures
            r == (self@.kind is Integer),
    {
        proof {
            lemma_view_facts(*self);
        }
        match self.kind {
            ExprKind::Integer(_) => true,
            _ => false,
        }
    }

    /// Whether this expression is a rational number expression.
    pub fn is_rne(&self) -> (r: bool)
        ensures
            r == is_rne_v(self@),
        decreases *self,
    {
        proof {
            lemma_view_facts(*self);
            if self.operands@.len() >= 1 {
                lemma_view_facts(self.operands@[0]);
            }
            if self.operands@.len() >= 2 {
                lemma_view_facts(self.operands@[1]);
            }
        }
        if let ExprKind::Integer(_) | ExprKind::Fraction(_, _) = self.kind {
            true
        } else if self.operands.len() == 1 {
            if let ExprKind::Sum | ExprKind::Difference = self.kind {
                self.operands[0].is_rne()
            } else {
                false
            }
        } else if self.operands.len() == 2 {
            match self.kind {
                ExprKind::Sum | ExprKind::Difference | ExprKind::Product | ExprKind::Quotient => {
                    self.operands[0].is_rne() && self.operands[1].is_rne()
                }
                ExprKind::Power => self.operands[0].is_rne() && self.operands[1].is_integer(),
                _ => false,
            }
        } else {
            false
        }
    }

    /// Whether this expression is a Gaussian rational number expression.
    pub fn is_grne(&self) -> (r: bool)
        ensures
            r == is_grne_v(self@),
        decreases *self,
    {
        proof {
            lemma_view_facts(*self);
            if self.operands@.len() >= 1 {
                lemma_view_facts(self.operands@[0]);
            }
            if self.operands@.len() >= 2 {
                lemma_view_facts(self.operands@[1]);
            }
        }
        if let ExprKind::Integer(_) | ExprKind::Fraction(_, _) | ExprKind::Gaussian = self.kind {
            true
        } else if self.operands.len() == 1 {
            if let ExprKind::Sum | ExprKind::Difference = self.kind {
                self.operands[0].is_grne()
            } else {
                false
            }
        } else if self.operands.len() == 2 {
            match self.kind {
                ExprKind::Sum | ExprKind::Difference | ExprKind::Product | ExprKind::Quotient => {
                    self.operands[0].is_grne() && self.operands[1].is_grne()
                }
                ExprKind::Power => self.operands[0].is_grne() && self.operands[1].is_integer(),
                _ => false,
            }
        } else {
            false
        }
    }
}

} // verus!
