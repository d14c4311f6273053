//! The session kernel: named bindings applied to each expression line by
//! substitution, in declaration order, before simplification.

use vstd::prelude::*;

use crate::expression::{subst_v, unfuel, Expr, Exv};
use crate::simplify::{s_simplify, simplify, SIMPLIFY_FUEL};

verus! {

/// A binding of a variable symbol to a value.
pub struct Assignment {
    pub var: Expr,
    pub val: Expr,
}

/// One line of a session: an expression to evaluate, an assignment to
/// record, or nothing.
pub enum Line {
    Expression(Expr),
    Binding(Assignment),
    Nothing,
}

/// The session state: the recorded bindings, in declaration order.
pub struct Kernel {
    pub assignments: Vec<Assignment>,
}

/// The view of a binding.
pub ghost struct AssignmentV {
    pub var: Exv,
    pub val: Exv,
}

impl View for Assignment {
    type V = AssignmentV;

    open spec fn view(&self) -> AssignmentV {
        AssignmentV { var: self.var@, val: self.val@ }
    }
}

/// The binding views of a recorded binding list.
pub open spec fn binding_views(s: Seq<Assignment>) -> Seq<AssignmentV> {
    s.map_values(|a: Assignment| a@)
}

/// The bindings after an upsert: the first binding of the same variable is
/// replaced by the new pair, or the pair is appended when there is none.
pub open spec fn upsert_v(bs: Seq<AssignmentV>, var: Exv, val: Exv) -> Seq<AssignmentV>
    decreases bs.len(),
{
    if bs.len() == 0 {
        seq![AssignmentV { var, val }]
    } else if bs[0].var == var {
        seq![AssignmentV { var, val }] + bs.drop_first()
    } else {
        seq![bs[0]] + upsert_v(bs.drop_first(), var, val)
    }
}

/// The bindings with the first binding of the variable removed, if any.
pub open spec fn remove_var_v(bs: Seq<AssignmentV>, var: Exv) -> Seq<AssignmentV>
    decreases bs.len(),
{
    if bs.len() == 0 {
        bs
    } else if bs[0].var == var {
        bs.drop_first()
    } else {
        seq![bs[0]] + remove_var_v(bs.drop_first(), var)
    }
}

/// An upsert whose variable is first bound at `at` replaces that entry.
proof fn lemma_upsert_found(bs: Seq<AssignmentV>, var: Exv, val: Exv, at: int)
    requires
        0 <= at < bs.len(),
        bs[at].var == var,
        forall|j: int| 0 <= j < at ==> bs[j].var != var,
    ensures
        upsert_v(bs, var, val) == bs.update(at, AssignmentV { var, val }),
    decreases at,
{
    if at == 0 {
        assert(upsert_v(bs, var, val) =~= bs.update(0, AssignmentV { var, val }));
    } else {
        lemma_upsert_found(bs.drop_first(), var, val, at - 1);
        assert(seq![bs[0]] + bs.drop_first().update(at - 1, AssignmentV { var, val }) =~= bs
            .update(at, AssignmentV { var, val }));
    }
}

/// An upsert whose variable is bound nowhere appends the pair.
proof fn lemma_upsert_missing(bs: Seq<AssignmentV>, var: Exv, val: Exv)
    requires
        forall|j: int| 0 <= j < bs.len() ==> bs[j].var != var,
    ensures
        upsert_v(bs, var, val) == bs.push(AssignmentV { var, val }),
    decreases bs.len(),
{
    if bs.len() == 0 {
        assert(upsert_v(bs, var, val) =~= bs.push(AssignmentV { var, val }));
    } else {
        lemma_upsert_missing(bs.drop_first(), var, val);
        assert(seq![bs[0]] + bs.drop_first().push(AssignmentV { var, val }) =~= bs.push(
            AssignmentV { var, val },
        ));
    }
}

/// A removal whose variable is first bound at `at` drops that entry.
proof fn lemma_remove_found(bs: Seq<AssignmentV>, var: Exv, at: int)
    requires
        0 <= at < bs.len(),
        bs[at].var == var,
        forall|j: int| 0 <= j < at ==> bs[j].var != var,
    ensures
        remove_var_v(bs, var) == bs.subrange(0, at) + bs.subrange(at + 1, bs.len() as int),
    decreases at,
{
    if at == 0 {
        assert(remove_var_v(bs, var) =~= bs.subrange(0, 0) + bs.subrange(1, bs.len() as int));
    } else {
        lemma_remove_found(bs.drop_first(), var, at - 1);
        assert(seq![bs[0]] + (bs.drop_first().subrange(0, at - 1) + bs.drop_first().subrange(
            at,
            bs.len() - 1,
        )) =~= bs.subrange(0, at) + bs.subrange(at + 1, bs.len() as int));
    }
}

/// A removal whose variable is bound nowhere changes nothing.
proof fn lemma_remove_missing(bs: Seq<AssignmentV>, var: Exv)
    requires
        forall|j: int| 0 <= j < bs.len() ==> bs[j].var != var,
    ensures
        remove_var_v(bs, var) == bs,
    decreases bs.len(),
{
    if bs.len() > 0 {
        lemma_remove_missing(bs.drop_first(), var);
        assert(seq![bs[0]] + bs.drop_first() =~= bs);
    }
}

/// The expression after every binding has been substituted, from `i` on.
pub open spec fn subst_all_v(e: Exv, bs: Seq<AssignmentV>, i: int) -> Exv
    decreases bs.len() - i,
    when 0 <= i
{
    if i >= bs.len() {
        e
    } else {
        subst_all_v(subst_v(e, bs[i].var, bs[i].val), bs, i + 1)
    }
}

impl Kernel {
    /// A fresh session with no bindings.
    pub fn new() -> (r: Kernel)
        ensures
            r.assignments@.len() == 0,
    {
        Kernel { assignments: Vec::new() }
    }

    /// Evaluates one line: an expression has each binding substituted in
    /// declaration order and is then simplified; an assignment is recorded,
    /// replacing an existing binding of the same variable; a blank line
    /// does nothing.
    pub fn evaluate_line(&mut self, line: Line) -> (r: Option<Expr>)
        ensures
            (line matches Line::Expression(e) ==> r matches Option::Some(v) && v@ == unfuel(
                s_simplify(
                    subst_all_v(
                        e@,
                        binding_views(old(self).assignments@),
                        0,
                    ),
                    SIMPLIFY_FUEL as nat,
                ),
            )),
            !(line matches Line::Expression(_)) ==> r is None,
            (line matches Line::Binding(a) ==> binding_views(final(self).assignments@)
                == upsert_v(binding_views(old(self).assignments@), a.var@, a.val@)),
            !(line matches Line::Binding(_)) ==> *final(self) == *old(self),
    {
        match line {
            Line::Expression(e) => {
                let ghost bs = self.assignments@.map_values(|a: Assignment| a@);
                let mut cur = e;
                let mut i: usize = 0;
                while i < self.assignments.len()
                    invariant
                        i <= self.assignments@.len(),
                        bs == self.assignments@.map_values(|a: Assignment| a@),
                        subst_all_v(e@, bs, 0) == subst_all_v(cur@, bs, i as int),
                    decreases self.assignments@.len() - i,
                {
                    proof {
                        assert(bs[i as int] == self.assignments@[i as int]@);
                    }
                    cur = cur.substitute(&self.assignments[i].var, &self.assignments[i].val);
                    i = i + 1;
                }
                Option::Some(simplify(&cur))
            }
            Line::Binding(a) => {
                self.add_assignment(a.var, a.val);
                Option::None
            }
            Line::Nothing => Option::None,
        }
    }

    /// Records a binding: the first binding of the same variable is
    /// replaced, and a new variable is appended.
    pub fn add_assignment(&mut self, var: Expr, val: Expr)
        ensures
            binding_views(final(self).assignments@) == upsert_v(
                binding_views(old(self).assignments@),
                var@,
                val@,
            ),
    {
        let ghost bs = binding_views(self.assignments@);
        let ghost varv = var@;
        let ghost valv = val@;
        let mut i: usize = 0;
        let mut found: bool = false;
        let mut at: usize = 0;
        while i < self.assignments.len()
            invariant
                i <= self.assignments@.len(),
                bs == binding_views(self.assignments@),
                self.assignments@ == old(self).assignments@,
                varv == var@,
                found ==> at < i && bs[at as int].var == varv && (forall|j: int|
                    0 <= j < at ==> bs[j].var != varv),
                !found ==> forall|j: int| 0 <= j < i ==> bs[j].var != varv,
            decreases self.assignments@.len() - i,
        {
            proof {
                assert(bs[i as int] == self.assignments@[i as int]@);
            }
            if !found && crate::expression::eq_expr(&self.assignments[i].var, &var) {
                found = true;
                at = i;
            }
            i = i + 1;
        }
        if found {
            let a = Assignment { var, val };
            self.assignments.set(at, a);
            proof {
                lemma_upsert_found(bs, varv, valv, at as int);
                assert(binding_views(self.assignments@) =~= bs.update(
                    at as int,
                    AssignmentV { var: varv, val: valv },
                ));
            }
        } else {
            self.assignments.push(Assignment { var, val });
            proof {
                lemma_upsert_missing(bs, varv, valv);
                assert(binding_views(self.assignments@) =~= bs.push(
                    AssignmentV { var: varv, val: valv },
                ));
            }
        }
    }

    /// Forgets every binding.
    pub fn clear_session(&mut self)
        ensures
            final(self).assignments@.len() == 0,
    {
        self.assignments.clear();
    }

    /// Removes the first binding of the given variable, if any.
    pub fn clear_variable(&mut self, var: &Expr)
        ensures
            binding_views(final(self).assignments@) == remove_var_v(
                binding_views(old(self).assignments@),
                var@,
            ),
    {
        let ghost bs = binding_views(self.assignments@);
        let mut i: usize = 0;
        while i < self.assignments.len()
            invariant
                i <= self.assignments@.len(),
                bs == binding_views(self.assignments@),
                self.assignments@ == old(self).assignments@,
                forall|j: int| 0 <= j < i ==> bs[j].var != var@,
            decreases self.assignments@.len() - i,
        {
            proof {
                assert(bs[i as int] == self.assignments@[i as int]@);
            }
            if crate::expression::eq_expr(&self.assignments[i].var, var) {
                self.assignments.remove(i);
                proof {
                    lemma_remove_found(bs, var@, i as int);
                    assert(binding_views(self.assignments@) =~= bs.subrange(0, i as int)
                        + bs.subrange(i as int + 1, bs.len() as int));
                }
                return;
            }
            i = i + 1;
        }
        proof {
            lemma_remove_missing(bs, var@);
        }
    }
}

} // verus!
