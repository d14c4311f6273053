//! A small computer-algebra kernel: expressions are tagged trees that the
//! automatic simplifier rewrites into a canonical simplified form, with a
//! rational/Gaussian numeric evaluator and a polynomial toolkit on top.

pub mod arith;
pub mod classify;
pub mod evaluate;
pub mod expression;
pub mod kernel;
pub mod laws;
pub mod numeric;
pub mod order;
pub mod polynomial;
pub mod simplify;
