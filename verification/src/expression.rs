//! The expression model: a tagged tree with an ordered list of operands,
//! together with its mathematical view.

use vstd::prelude::*;

verus! {

broadcast use vstd::std_specs::vec::group_vec_axioms, vstd::seq::group_seq_axioms;

/// The tag of an expression node.
#[derive(Clone, Debug, PartialEq, Eq)]
pub enum ExprKind {
    Undefined,
    Func(String),
    Symbol(String),
    Integer(i64),
    Fraction(i64, i64),
    Gaussian,
    Sum,
    Difference,
    Product,
    Quotient,
    Power,
    Factorial,
    Boolean(bool),
    Not,
    Or,
    And,
    SetLiteral,
    Union,
    Intersection,
    SetDifference,
    Member,
}

/// An expression: a kind tag together with its operand subtrees.
#[derive(Debug, PartialEq, Eq)]
#[verifier::ext_equal]
pub struct Expr {
    pub kind: ExprKind,
    pub operands: Vec<Expr>,
}

/// The view of a kind tag: machine integers become mathematical integers and
/// names become character sequences.
#[verifier::ext_equal]
pub ghost enum KindV {
    Undefined,
    Func(Seq<char>),
    Symbol(Seq<char>),
    Integer(int),
    Fraction(int, int),
    Gaussian,
    Sum,
    Difference,
    Product,
    Quotient,
    Power,
    Factorial,
    Boolean(bool),
    Not,
    Or,
    And,
    SetLiteral,
    Union,
    Intersection,
    SetDifference,
    Member,
}

/// The view of an expression: the same tree, with mathematical leaves.
#[verifier::ext_equal]
pub ghost struct Exv {
    pub kind: KindV,
    pub ops: Seq<Exv>,
}

/// The view of a kind tag.
pub open spec fn kind_view(k: ExprKind) -> KindV {
    match k {
        ExprKind::Undefined => KindV::Undefined,
        ExprKind::Func(name) => KindV::Func(name@),
        ExprKind::Symbol(name) => KindV::Symbol(name@),
        ExprKind::Integer(n) => KindV::Integer(n as int),
        ExprKind::Fraction(n, d) => KindV::Fraction(n as int, d as int),
        ExprKind::Gaussian => KindV::Gaussian,
        ExprKind::Sum => KindV::Sum,
        ExprKind::Difference => KindV::Difference,
        ExprKind::Product => KindV::Product,
        ExprKind::Quotient => KindV::Quotient,
        ExprKind::Power => KindV::Power,
        ExprKind::Factorial => KindV::Factorial,
        ExprKind::Boolean(b) => KindV::Boolean(b),
        ExprKind::Not => KindV::Not,
        ExprKind::Or => KindV::Or,
        ExprKind::And => KindV::And,
        ExprKind::SetLiteral => KindV::SetLiteral,
        ExprKind::Union => KindV::Union,
        ExprKind::Intersection => KindV::Intersection,
        ExprKind::SetDifference => KindV::SetDifference,
        ExprKind::Member => KindV::Member,
    }
}

/// The view of an expression tree.
pub open spec fn exv_of(e: Expr) -> Exv
    decreases e,
{
    Exv {
        kind: kind_view(e.kind),
        ops: Seq::new(
            e.operands@.len(),
            |i: int|
                if 0 <= i < e.operands@.len() {
                    exv_of(e.operands@[i])
                } else {
                    Exv::undef()
                },
        ),
    }
}

impl View for Expr {
    type V = Exv;

    open spec fn view(&self) -> Exv {
        exv_of(*self)
    }
}

/// Size of an expression view: the number of nodes in the tree.
pub open spec fn esize(e: Exv) -> nat
    decreases e,
{
    1 + esize_ops(e.ops)
}

/// Total size of a sequence of expression views.
pub open spec fn esize_ops(s: Seq<Exv>) -> nat
    decreases s,
{
    if s.len() == 0 {
        0
    } else {
        esize(s[0]) + esize_ops(s.drop_first())
    }
}

impl Exv {
    /// An atom view with no operands.
    pub open spec fn atom(kind: KindV) -> Exv {
        Exv { kind, ops: Seq::empty() }
    }

    /// The undefined view.
    pub open spec fn undef() -> Exv {
        Exv::atom(KindV::Undefined)
    }

    /// An integer view.
    pub open spec fn int_v(n: int) -> Exv {
        Exv::atom(KindV::Integer(n))
    }

    /// A fraction view.
    pub open spec fn frac_v(n: int, d: int) -> Exv {
        Exv::atom(KindV::Fraction(n, d))
    }

    /// A node with the given kind and operands.
    pub open spec fn node(kind: KindV, ops: Seq<Exv>) -> Exv {
        Exv { kind, ops }
    }

    /// True of the undefined view.
    pub open spec fn is_undef(self) -> bool {
        self.kind == KindV::Undefined
    }

    /// True of integer and fraction views.
    pub open spec fn is_rational(self) -> bool {
        self.kind is Integer || self.kind is Fraction
    }

    /// True of integer, fraction and Gaussian views: the numeric atoms.
    pub open spec fn is_numeric(self) -> bool {
        self.is_rational() || self.kind is Gaussian
    }
}

/// How a view relates to the expression it is the view of: the kind is the
/// kind's view, and the operand views sit at the same positions.
pub broadcast proof fn lemma_view_facts(e: Expr)
    ensures
        (#[trigger] e@).kind == kind_view(e.kind),
        e@.ops.len() == e.operands@.len(),
        forall|i: int|
            0 <= i < e.operands@.len() ==> e@.ops[i] == #[trigger] e.operands@[i]@,
{
}

/// An expression without operands views to the atom of its kind's view.
pub proof fn lemma_atom_view(e: Expr)
    requires
        e.operands@.len() == 0,
    ensures
        e@ == Exv::atom(kind_view(e.kind)),
{
    assert(e@.ops =~~= Seq::<Exv>::empty());
}

/// An expression whose operand views are `vs` views to the node of its kind's
/// view over `vs`.
pub proof fn lemma_node_view(e: Expr, vs: Seq<Exv>)
    requires
        e.operands@.len() == vs.len(),
        forall|i: int| 0 <= i < vs.len() ==> e.operands@[i]@ == vs[i],
    ensures
        e@ == Exv::node(kind_view(e.kind), vs),
{
    lemma_view_facts(e);
    assert(e@.ops =~~= vs);
}

/// The views of a sequence of expressions.
pub open spec fn views_of(s: Seq<Expr>) -> Seq<Exv> {
    s.map_values(|e: Expr| exv_of(e))
}

/// Whether `outs` lists, position by position, results of the function on
/// the expressions of `src`, and `dst` their views.
pub open spec fn maps_operands<F: Fn(&Expr) -> Expr>(
    f: F,
    src: Seq<Expr>,
    outs: Seq<Expr>,
    dst: Seq<Exv>,
) -> bool {
    &&& outs.len() == src.len()
    &&& dst.len() == src.len()
    &&& forall|j: int| #![trigger outs[j]]
        0 <= j < src.len() ==> f.ensures((&src[j],), outs[j]) && outs[j]@ == dst[j]
}

impl Exv {
    /// A Gaussian view with the given real and imaginary parts.
    pub open spec fn gaussian_v(re: Exv, im: Exv) -> Exv {
        Exv::node(KindV::Gaussian, seq![re, im])
    }

    /// A boolean view.
    pub open spec fn bool_v(b: bool) -> Exv {
        Exv::atom(KindV::Boolean(b))
    }

    /// A binary node view.
    pub open spec fn binary(kind: KindV, a: Exv, b: Exv) -> Exv {
        Exv::node(kind, seq![a, b])
    }
}

impl Expr {
    /// The absorbing error value.
    pub fn undefined() -> (r: Expr)
        ensures
            r@ == Exv::undef(),
    {
        let r = Expr { kind: ExprKind::Undefined, operands: Vec::new() };
        proof {
            lemma_atom_view(r);
        }
        r
    }

    /// An integer atom.
    pub fn integer(n: i64) -> (r: Expr)
        ensures
            r@ == Exv::int_v(n as int),
    {
        let r = Expr { kind: ExprKind::Integer(n), operands: Vec::new() };
        proof {
            lemma_atom_view(r);
        }
        r
    }

    /// A fraction atom; the standard-form invariants are not presumed here.
    pub fn frac(n: i64, d: i64) -> (r: Expr)
        ensures
            r@ == Exv::frac_v(n as int, d as int),
    {
        let r = Expr { kind: ExprKind::Fraction(n, d), operands: Vec::new() };
        proof {
            lemma_atom_view(r);
        }
        r
    }

    /// A symbol atom.
    pub fn symbol(name: &str) -> (r: Expr)
        ensures
            r@ == Exv::atom(KindV::Symbol(name@)),
    {
        let r = Expr { kind: ExprKind::Symbol(name.to_owned()), operands: Vec::new() };
        proof {
            lemma_atom_view(r);
        }
        r
    }

    /// A boolean atom.
    pub fn boolean(b: bool) -> (r: Expr)
        ensures
            r@ == Exv::bool_v(b),
    {
        let r = Expr { kind: ExprKind::Boolean(b), operands: Vec::new() };
        proof {
            lemma_atom_view(r);
        }
        r
    }

    /// A node of the given kind over two operands.
    pub fn binary(kind: ExprKind, lhs: Expr, rhs: Expr) -> (r: Expr)
        ensures
            r@ == Exv::binary(kind_view(kind), lhs@, rhs@),
    {
        let ghost vs = seq![lhs@, rhs@];
        let mut operands: Vec<Expr> = Vec::new();
        operands.push(lhs);
        operands.push(rhs);
        let r = Expr { kind, operands };
        proof {
            lemma_node_view(r, vs);
        }
        r
    }

    /// A node of the given kind over one operand.
    pub fn unary(kind: ExprKind, op: Expr) -> (r: Expr)
        ensures
            r@ == Exv::node(kind_view(kind), seq![op@]),
    {
        let ghost vs = seq![op@];
        let mut operands: Vec<Expr> = Vec::new();
        operands.push(op);
        let r = Expr { kind, operands };
        proof {
            lemma_node_view(r, vs);
        }
        r
    }

    /// A node of the given kind over the given operands.
    pub fn node(kind: ExprKind, operands: Vec<Expr>) -> (r: Expr)
        ensures
            r@ == Exv::node(kind_view(kind), views_of(operands@)),
    {
        let ghost vs = views_of(operands@);
        let r = Expr { kind, operands };
        proof {
            lemma_node_view(r, vs);
        }
        r
    }

    /// A power node: base and exponent.
    pub fn power(base: Expr, exponent: Expr) -> (r: Expr)
        ensures
            r@ == Exv::binary(KindV::Power, base@, exponent@),
    {
        Expr::binary(ExprKind::Power, base, exponent)
    }

    /// A quotient node.
    pub fn quotient(n: Expr, d: Expr) -> (r: Expr)
        ensures
            r@ == Exv::binary(KindV::Quotient, n@, d@),
    {
        Expr::binary(ExprKind::Quotient, n, d)
    }

    /// A binary product node.
    pub fn times(lhs: Expr, rhs: Expr) -> (r: Expr)
        ensures
            r@ == Exv::binary(KindV::Product, lhs@, rhs@),
    {
        Expr::binary(ExprKind::Product, lhs, rhs)
    }

    /// A binary sum node.
    pub fn plus(lhs: Expr, rhs: Expr) -> (r: Expr)
        ensures
            r@ == Exv::binary(KindV::Sum, lhs@, rhs@),
    {
        Expr::binary(ExprKind::Sum, lhs, rhs)
    }

    /// A difference node.
    pub fn minus(lhs: Expr, rhs: Expr) -> (r: Expr)
        ensures
            r@ == Exv::binary(KindV::Difference, lhs@, rhs@),
    {
        Expr::binary(ExprKind::Difference, lhs, rhs)
    }

    /// An n-ary product node; an empty operand list stands for one.
    pub fn product(operands: Vec<Expr>) -> (r: Expr)
        ensures
            operands@.len() > 0 ==> r@ == Exv::node(KindV::Product, views_of(operands@)),
            operands@.len() == 0 ==> r@ == Exv::int_v(1),
    {
        if operands.len() > 0 {
            Expr::node(ExprKind::Product, operands)
        } else {
            Expr::integer(1)
        }
    }

    /// An n-ary sum node; an empty operand list stands for zero.
    pub fn sum(operands: Vec<Expr>) -> (r: Expr)
        ensures
            operands@.len() > 0 ==> r@ == Exv::node(KindV::Sum, views_of(operands@)),
            operands@.len() == 0 ==> r@ == Exv::int_v(0),
    {
        if operands.len() > 0 {
            Expr::node(ExprKind::Sum, operands)
        } else {
            Expr::integer(0)
        }
    }

    /// A factorial node.
    pub fn factorial(expr: Expr) -> (r: Expr)
        ensures
            r@ == Exv::node(KindV::Factorial, seq![expr@]),
    {
        Expr::unary(ExprKind::Factorial, expr)
    }

    /// A Gaussian atom with the given real and imaginary parts.
    pub fn gaussian(re: Expr, im: Expr) -> (r: Expr)
        ensures
            r@ == Exv::gaussian_v(re@, im@),
    {
        Expr::binary(ExprKind::Gaussian, re, im)
    }

    /// A named function application.
    pub fn function(name: &str, operands: Vec<Expr>) -> (r: Expr)
        ensures
            r@ == Exv::node(KindV::Func(name@), views_of(operands@)),
    {
        Expr::node(ExprKind::Func(name.to_owned()), operands)
    }

    /// A logical negation node.
    pub fn not(expr: Expr) -> (r: Expr)
        ensures
            r@ == Exv::node(KindV::Not, seq![expr@]),
    {
        Expr::unary(ExprKind::Not, expr)
    }

    /// A structural copy of this expression.
    pub fn duplicate(&self) -> (r: Expr)
        ensures
            r@ == self@,
        decreases *self,
    {
        let kind = match &self.kind {
            ExprKind::Undefined => ExprKind::Undefined,
            ExprKind::Func(name) => ExprKind::Func(name.clone()),
            ExprKind::Symbol(name) => ExprKind::Symbol(name.clone()),
            ExprKind::Integer(n) => ExprKind::Integer(*n),
            ExprKind::Fraction(n, d) => ExprKind::Fraction(*n, *d),
            ExprKind::Gaussian => ExprKind::Gaussian,
            ExprKind::Sum => ExprKind::Sum,
            ExprKind::Difference => ExprKind::Difference,
            ExprKind::Product => ExprKind::Product,
            ExprKind::Quotient => ExprKind::Quotient,
            ExprKind::Power => ExprKind::Power,
            ExprKind::Factorial => ExprKind::Factorial,
            ExprKind::Boolean(b) => ExprKind::Boolean(*b),
            ExprKind::Not => ExprKind::Not,
            ExprKind::Or => ExprKind::Or,
            ExprKind::And => ExprKind::And,
            ExprKind::SetLiteral => ExprKind::SetLiteral,
            ExprKind::Union => ExprKind::Union,
            ExprKind::Intersection => ExprKind::Intersection,
            ExprKind::SetDifference => ExprKind::SetDifference,
            ExprKind::Member => ExprKind::Member,
        };
        let mut operands: Vec<Expr> = Vec::new();
        let mut i: usize = 0;
        while i < self.operands.len()
            invariant
                i <= self.operands.len(),
                operands@.len() == i as nat,
                forall|j: int| 0 <= j < i ==> operands@[j]@ == self.operands@[j]@,
            decreases self.operands.len() - i,
        {
            operands.push(self.operands[i].duplicate());
            i = i + 1;
        }
        let r = Expr { kind, operands };
        proof {
            lemma_view_facts(*self);
            assert(kind_view(kind) == kind_view(self.kind));
            lemma_node_view(r, self@.ops);
            assert(self@ == Exv::node(kind_view(self.kind), self@.ops));
        }
        r
    }
}

/// Numerator of a rational atom view.
pub open spec fn numer_v(e: Exv) -> int
    recommends
        e.is_rational(),
{
    match e.kind {
        KindV::Integer(n) => n,
        KindV::Fraction(n, _) => n,
        _ => 0,
    }
}

/// Denominator of a rational atom view; one for integers.
pub open spec fn denom_v(e: Exv) -> int
    recommends
        e.is_rational(),
{
    match e.kind {
        KindV::Integer(_) => 1,
        KindV::Fraction(_, d) => d,
        _ => 1,
    }
}

/// Whether a rational atom view is strictly positive.
pub open spec fn is_positive_v(e: Exv) -> bool
    recommends
        e.is_rational(),
{
    match e.kind {
        KindV::Integer(n) => n > 0,
        KindV::Fraction(n, d) => (n > 0) <==> (d > 0),
        _ => false,
    }
}

/// The base of a power view; any other view is its own base.
pub open spec fn base_v(e: Exv) -> Exv {
    if e.kind is Power && e.ops.len() == 2 {
        e.ops[0]
    } else {
        e
    }
}

/// The exponent of a power view; any other view has exponent one.
pub open spec fn exponent_v(e: Exv) -> Exv {
    if e.kind is Power && e.ops.len() == 2 {
        e.ops[1]
    } else {
        Exv::int_v(1)
    }
}

/// The numeric coefficient of a product view whose first operand is numeric;
/// one otherwise.
pub open spec fn product_coeff_v(e: Exv) -> Exv {
    if e.kind is Product && e.ops.len() >= 1 && e.ops[0].is_numeric() {
        e.ops[0]
    } else {
        Exv::int_v(1)
    }
}

/// The non-coefficient part of a product view whose first operand is numeric;
/// the view itself otherwise.
pub open spec fn product_rest_v(e: Exv) -> Exv {
    if e.kind is Product && e.ops.len() >= 1 && e.ops[0].is_numeric() {
        if e.ops.len() == 2 {
            e.ops[1]
        } else {
            Exv::node(KindV::Product, e.ops.drop_first())
        }
    } else {
        e
    }
}

/// Whether a view is an atom: undefined, a symbol, a number or a boolean.
pub open spec fn is_atomic_v(e: Exv) -> bool {
    match e.kind {
        KindV::Undefined => true,
        KindV::Symbol(_) => true,
        KindV::Integer(_) => true,
        KindV::Fraction(_, _) => true,
        KindV::Gaussian => true,
        KindV::Boolean(_) => true,
        _ => false,
    }
}

/// Whether `t` occurs in `u`: either `u` itself equals `t`, or `t` occurs in
/// an operand of a non-atomic `u`. Atoms are leaves here, so the parts of a
/// Gaussian atom are not searched.
pub open spec fn occurs_v(u: Exv, t: Exv) -> bool
    decreases u,
{
    u == t || (!is_atomic_v(u) && exists|i: int|
        0 <= i < u.ops.len() && occurs_v(#[trigger] u.ops[i], t))
}

/// Substitution: a subtree equal to `t` becomes `r`; atoms are left alone;
/// any other node keeps its kind with each operand substituted.
pub open spec fn subst_v(u: Exv, t: Exv, r: Exv) -> Exv
    decreases u,
{
    if u == t {
        r
    } else if is_atomic_v(u) {
        u
    } else {
        Exv::node(
            u.kind,
            Seq::new(
                u.ops.len(),
                |i: int|
                    if 0 <= i < u.ops.len() {
                        subst_v(u.ops[i], t, r)
                    } else {
                        Exv::undef()
                    },
            ),
        )
    }
}

/// Whether two kind tags have equal views.
pub fn kind_eq(a: &ExprKind, b: &ExprKind) -> (r: bool)
    ensures
        r == (kind_view(*a) == kind_view(*b)),
{
    match (a, b) {
        (ExprKind::Undefined, ExprKind::Undefined) => true,
        (ExprKind::Func(f1), ExprKind::Func(f2)) => *f1 == *f2,
        (ExprKind::Symbol(s1), ExprKind::Symbol(s2)) => *s1 == *s2,
        (ExprKind::Integer(n1), ExprKind::Integer(n2)) => n1 == n2,
        (ExprKind::Fraction(n1, d1), ExprKind::Fraction(n2, d2)) => n1 == n2 && d1 == d2,
        (ExprKind::Gaussian, ExprKind::Gaussian) => true,
        (ExprKind::Sum, ExprKind::Sum) => true,
        (ExprKind::Difference, ExprKind::Difference) => true,
        (ExprKind::Product, ExprKind::Product) => true,
        (ExprKind::Quotient, ExprKind::Quotient) => true,
        (ExprKind::Power, ExprKind::Power) => true,
        (ExprKind::Factorial, ExprKind::Factorial) => true,
        (ExprKind::Boolean(b1), ExprKind::Boolean(b2)) => b1 == b2,
        (ExprKind::Not, ExprKind::Not) => true,
        (ExprKind::Or, ExprKind::Or) => true,
        (ExprKind::And, ExprKind::And) => true,
        (ExprKind::SetLiteral, ExprKind::SetLiteral) => true,
        (ExprKind::Union, ExprKind::Union) => true,
        (ExprKind::Intersection, ExprKind::Intersection) => true,
        (ExprKind::SetDifference, ExprKind::SetDifference) => true,
        (ExprKind::Member, ExprKind::Member) => true,
        _ => false,
    }
}

/// Whether two expressions are structurally equal, that is, have equal views.
pub fn eq_expr(a: &Expr, b: &Expr) -> (r: bool)
    ensures
        r == (a@ == b@),
    decreases *a,
{
    proof {
        lemma_view_facts(*a);
        lemma_view_facts(*b);
    }
    if !kind_eq(&a.kind, &b.kind) {
        return false;
    }
    if a.operands.len() != b.operands.len() {
        return false;
    }
    let mut i: usize = 0;
    while i < a.operands.len()
        invariant
            i <= a.operands.len(),
            a.operands@.len() == b.operands@.len(),
            kind_view(a.kind) == kind_view(b.kind),
            forall|j: int| 0 <= j < i ==> a.operands@[j]@ == b.operands@[j]@,
        decreases a.operands.len() - i,
    {
        if !eq_expr(&a.operands[i], &b.operands[i]) {
            proof {
                lemma_view_facts(*a);
                lemma_view_facts(*b);
                assert(a@.ops[i as int] != b@.ops[i as int]);
            }
            return false;
        }
        i = i + 1;
    }
    proof {
        lemma_view_facts(*a);
        lemma_view_facts(*b);
        assert(a@.ops =~~= b@.ops);
        assert(a@ == b@);
    }
    true
}

impl Expr {
    /// Whether this expression is the undefined atom.
    pub fn is_undefined(&self) -> (r: bool)
        ensures
            r == self@.is_undef(),
    {
        proof {
            lemma_view_facts(*self);
        }
        match self.kind {
            ExprKind::Undefined => true,
            _ => false,
        }
    }

    /// Whether this expression is an atom.
    pub fn is_atomic(&self) -> (r: bool)
        ensures
            r == is_atomic_v(self@),
    {
        proof {
            lemma_view_facts(*self);
        }
        match self.kind {
            ExprKind::Undefined => true,
            ExprKind::Symbol(_) => true,
            ExprKind::Integer(_) => true,
            ExprKind::Fraction(_, _) => true,
            ExprKind::Gaussian => true,
            ExprKind::Boolean(_) => true,
            _ => false,
        }
    }

    /// The number of operands.
    pub fn num_operands(&self) -> (r: usize)
        ensures
            r == self@.ops.len(),
    {
        proof {
            lemma_view_facts(*self);
        }
        self.operands.len()
    }

    /// Whether a rational atom is strictly positive.
    pub fn is_positive_num(&self) -> (r: bool)
        requires
            self@.is_rational(),
        ensures
            r == is_positive_v(self@),
    {
        proof {
            lemma_view_facts(*self);
        }
        match self.kind {
            ExprKind::Integer(n) => n > 0,
            ExprKind::Fraction(n, d) => !((n > 0) ^ (d > 0)),
            _ => false,
        }
    }

    /// The numerator of a rational atom.
    pub fn numerator_rne(&self) -> (r: i64)
        requires
            self@.is_rational(),
        ensures
            r as int == numer_v(self@),
    {
        proof {
            lemma_view_facts(*self);
        }
        match self.kind {
            ExprKind::Integer(n) => n,
            ExprKind::Fraction(n, _) => n,
            _ => 0,
        }
    }

    /// The denominator of a rational atom; one for integers.
    pub fn denominator_rne(&self) -> (r: i64)
        requires
            self@.is_rational(),
        ensures
            r as int == denom_v(self@),
    {
        proof {
            lemma_view_facts(*self);
        }
        match self.kind {
            ExprKind::Integer(_) => 1,
            ExprKind::Fraction(_, d) => d,
            _ => 1,
        }
    }

    /// The base of a power; any other expression is its own base.
    pub fn base(&self) -> (r: Expr)
        ensures
            r@ == base_v(self@),
    {
        proof {
            lemma_view_facts(*self);
        }
        match self.kind {
            ExprKind::Power if self.operands.len() == 2 => self.operands[0].duplicate(),
            _ => self.duplicate(),
        }
    }

    /// The exponent of a power; any other expression has exponent one.
    pub fn exponent(&self) -> (r: Expr)
        ensures
            r@ == exponent_v(self@),
    {
        proof {
            lemma_view_facts(*self);
        }
        match self.kind {
            ExprKind::Power if self.operands.len() == 2 => self.operands[1].duplicate(),
            _ => Expr::integer(1),
        }
    }

    /// The numeric coefficient of a product whose first operand is numeric.
    pub fn product_coeff(&self) -> (r: Expr)
        ensures
            r@ == product_coeff_v(self@),
    {
        proof {
            lemma_view_facts(*self);
            if self.operands@.len() >= 1 {
                lemma_view_facts(self.operands@[0]);
            }
        }
        match self.kind {
            ExprKind::Product if self.operands.len() >= 1 => match self.operands[0].kind {
                ExprKind::Integer(_) | ExprKind::Fraction(_, _) | ExprKind::Gaussian => self
                    .operands[0].duplicate(),
                _ => Expr::integer(1),
            },
            _ => Expr::integer(1),
        }
    }

    /// The non-coefficient part of a product whose first operand is numeric.
    pub fn product_rest(&self) -> (r: Expr)
        ensures
            r@ == product_rest_v(self@),
    {
        proof {
            lemma_view_facts(*self);
            if self.operands@.len() >= 1 {
                lemma_view_facts(self.operands@[0]);
            }
        }
        match self.kind {
            ExprKind::Product if self.operands.len() >= 1 => match self.operands[0].kind {
                ExprKind::Integer(_) | ExprKind::Fraction(_, _) | ExprKind::Gaussian => {
                    if self.operands.len() == 2 {
                        self.operands[1].duplicate()
                    } else {
                        let mut rest: Vec<Expr> = Vec::new();
                        let mut i: usize = 1;
                        while i < self.operands.len()
                            invariant
                                1 <= i <= self.operands.len(),
                                rest@.len() == i - 1,
                                forall|j: int|
                                    0 <= j < i - 1 ==> rest@[j]@ == self.operands@[j + 1]@,
                            decreases self.operands.len() - i,
                        {
                            rest.push(self.operands[i].duplicate());
                            i = i + 1;
                        }
                        let r = Expr { kind: ExprKind::Product, operands: rest };
                        proof {
                            lemma_view_facts(*self);
                            lemma_node_view(r, self@.ops.drop_first());
                        }
                        r
                    }
                }
                _ => self.duplicate(),
            },
            _ => self.duplicate(),
        }
    }

    /// A copy of this expression with the given function applied to each
    /// operand; the kind is kept, and some list of results of the function
    /// on the operands views to the new operand list.
    pub fn map<F: Fn(&Expr) -> Expr>(&self, f: F) -> (r: Expr)
        requires
            forall|e: &Expr| #[trigger] f.requires((e,)),
        ensures
            r@.kind == self@.kind,
            r@.ops.len() == self@.ops.len(),
            exists|outs: Seq<Expr>| #[trigger] maps_operands(f, self.operands@, outs, r@.ops),
    {
        proof {
            lemma_view_facts(*self);
        }
        let mut ops: Vec<Expr> = Vec::new();
        let ghost mut outs: Seq<Expr> = Seq::empty();
        let mut i: usize = 0;
        while i < self.operands.len()
            invariant
                i <= self.operands@.len(),
                ops@.len() == i as nat,
                outs.len() == i as nat,
                forall|e: &Expr| #[trigger] f.requires((e,)),
                forall|j: int| #![trigger outs[j]]
                    0 <= j < i ==> f.ensures((&self.operands@[j],), outs[j])
                        && outs[j]@ == ops@[j]@,
            decreases self.operands@.len() - i,
        {
            let o = f(&self.operands[i]);
            proof {
                outs = outs.push(o);
            }
            ops.push(o);
            i = i + 1;
        }
        let r = Expr { kind: self.duplicate_kind(), operands: ops };
        proof {
            lemma_view_facts(r);
            assert(maps_operands(f, self.operands@, outs, r@.ops)) by {
                assert forall|j: int| #![trigger outs[j]]
                    0 <= j < self.operands@.len() implies f.ensures(
                    (&self.operands@[j],),
                    outs[j],
                ) && outs[j]@ == r@.ops[j] by {
                    assert(f.ensures((&self.operands@[j],), outs[j]));
                    assert(outs[j]@ == r.operands@[j]@);
                    assert(r@.ops[j] == r.operands@[j]@);
                }
            }
        }
        r
    }

    /// Whether no subtree of this expression equals `t`, as a boolean atom.
    /// Atoms are leaves of the search, so the parts of a Gaussian atom are
    /// not searched.
    pub fn free_of(&self, t: &Expr) -> (r: Expr)
        ensures
            r@ == Exv::bool_v(!occurs_v(self@, t@)),
    {
        Expr::boolean(Expr::free_of_bool(self, t))
    }

    /// Whether no subtree of `u` equals `t`.
    pub fn free_of_bool(u: &Expr, t: &Expr) -> (r: bool)
        ensures
            r == !occurs_v(u@, t@),
        decreases *u,
    {
        proof {
            lemma_view_facts(*u);
        }
        if eq_expr(u, t) {
            false
        } else if u.is_atomic() {
            true
        } else {
            let mut i: usize = 0;
            while i < u.operands.len()
                invariant
                    i <= u.operands.len(),
                    u@ != t@,
                    !is_atomic_v(u@),
                    forall|j: int| 0 <= j < i ==> !occurs_v(u@.ops[j], t@),
                decreases u.operands.len() - i,
            {
                proof {
                    lemma_view_facts(*u);
                }
                if !Expr::free_of_bool(&u.operands[i], t) {
                    proof {
                        lemma_view_facts(*u);
                        assert(occurs_v(u@.ops[i as int], t@));
                    }
                    return false;
                }
                i = i + 1;
            }
            proof {
                lemma_view_facts(*u);
            }
            true
        }
    }

    /// Substitution of `replacement` for `target` throughout this expression.
    pub fn substitute(&self, target: &Expr, replacement: &Expr) -> (r: Expr)
        ensures
            r@ == subst_v(self@, target@, replacement@),
        decreases *self,
    {
        proof {
            lemma_view_facts(*self);
        }
        if eq_expr(self, target) {
            replacement.duplicate()
        } else if self.is_atomic() {
            self.duplicate()
        } else {
            let mut operands: Vec<Expr> = Vec::new();
            let mut i: usize = 0;
            while i < self.operands.len()
                invariant
                    i <= self.operands.len(),
                    self@ != target@,
                    !is_atomic_v(self@),
                    operands@.len() == i as nat,
                    forall|j: int|
                        0 <= j < i ==> operands@[j]@ == subst_v(
                            self@.ops[j],
                            target@,
                            replacement@,
                        ),
                decreases self.operands.len() - i,
            {
                proof {
                    lemma_view_facts(*self);
                }
                operands.push(self.operands[i].substitute(target, replacement));
                i = i + 1;
            }
            let kind = self.duplicate_kind();
            let r = Expr { kind, operands };
            proof {
                lemma_view_facts(*self);
                lemma_node_view(r, subst_v(self@, target@, replacement@).ops);
                assert(r@ =~~= subst_v(self@, target@, replacement@));
            }
            r
        }
    }

    /// A copy of the kind tag alone.
    pub fn duplicate_kind(&self) -> (r: ExprKind)
        ensures
            kind_view(r) == kind_view(self.kind),
    {
        match &self.kind {
            ExprKind::Undefined => ExprKind::Undefined,
            ExprKind::Func(name) => ExprKind::Func(name.clone()),
            ExprKind::Symbol(name) => ExprKind::Symbol(name.clone()),
            ExprKind::Integer(n) => ExprKind::Integer(*n),
            ExprKind::Fraction(n, d) => ExprKind::Fraction(*n, *d),
            ExprKind::Gaussian => ExprKind::Gaussian,
            ExprKind::Sum => ExprKind::Sum,
            ExprKind::Difference => ExprKind::Difference,
            ExprKind::Product => ExprKind::Product,
            ExprKind::Quotient => ExprKind::Quotient,
            ExprKind::Power => ExprKind::Power,
            ExprKind::Factorial => ExprKind::Factorial,
            ExprKind::Boolean(b) => ExprKind::Boolean(*b),
            ExprKind::Not => ExprKind::Not,
            ExprKind::Or => ExprKind::Or,
            ExprKind::And => ExprKind::And,
            ExprKind::SetLiteral => ExprKind::SetLiteral,
            ExprKind::Union => ExprKind::Union,
            ExprKind::Intersection => ExprKind::Intersection,
            ExprKind::SetDifference => ExprKind::SetDifference,
            ExprKind::Member => ExprKind::Member,
        }
    }
}

} // verus!

verus! {

/// Whether some view in a list is the undefined value.
pub open spec fn has_undef(s: Seq<Exv>) -> bool {
    exists|i: int| 0 <= i < s.len() && (#[trigger] s[i]).is_undef()
}

/// Whether some view in a list is the integer zero.
pub open spec fn has_int(s: Seq<Exv>, n: int) -> bool {
    exists|i: int| 0 <= i < s.len() && (#[trigger] s[i]).kind == KindV::Integer(n)
}

/// The value of a fueled computation: its result, or undefined where the
/// recursion budget ran out.
pub open spec fn unfuel(o: Option<Exv>) -> Exv {
    match o {
        Option::Some(v) => v,
        Option::None => Exv::undef(),
    }
}

/// The operand list of a fueled computation: its list, or the empty list
/// where the recursion budget ran out.
pub open spec fn unfuel_list(o: Option<Seq<Exv>>) -> Seq<Exv> {
    match o {
        Option::Some(s) => s,
        Option::None => Seq::empty(),
    }
}

/// Copies of the operands from position `start` on.
pub fn tail_exprs(v: &Vec<Expr>, start: usize) -> (r: Vec<Expr>)
    requires
        start <= v@.len(),
    ensures
        views_of(r@) == views_of(v@).skip(start as int),
{
    let mut r: Vec<Expr> = Vec::new();
    let mut i: usize = start;
    while i < v.len()
        invariant
            start <= i <= v@.len(),
            r@.len() == i - start,
            forall|j: int| 0 <= j < i - start ==> r@[j]@ == v@[j + start]@,
        decreases v@.len() - i,
    {
        r.push(v[i].duplicate());
        i = i + 1;
    }
    proof {
        assert(views_of(r@) =~= views_of(v@).skip(start as int));
    }
    r
}

/// A one-element operand list.
pub fn vec_of1(a: Expr) -> (r: Vec<Expr>)
    ensures
        views_of(r@) == seq![a@],
{
    let mut r: Vec<Expr> = Vec::new();
    r.push(a);
    proof {
        assert(views_of(r@) =~= seq![a@]);
    }
    r
}

/// A two-element operand list.
pub fn vec_of2(a: Expr, b: Expr) -> (r: Vec<Expr>)
    ensures
        views_of(r@) == seq![a@, b@],
{
    let mut r: Vec<Expr> = Vec::new();
    r.push(a);
    r.push(b);
    proof {
        assert(views_of(r@) =~= seq![a@, b@]);
    }
    r
}

/// A list with `h` in front of `t`.
pub fn vec_of_head(h: Expr, t: Vec<Expr>) -> (r: Vec<Expr>)
    ensures
        views_of(r@) == seq![h@] + views_of(t@),
{
    let mut r: Vec<Expr> = Vec::new();
    r.push(h);
    let mut i: usize = 0;
    while i < t.len()
        invariant
            i <= t@.len(),
            r@.len() == i + 1,
            r@[0]@ == h@,
            forall|j: int| 0 <= j < i ==> r@[j + 1]@ == t@[j]@,
        decreases t@.len() - i,
    {
        r.push(t[i].duplicate());
        i = i + 1;
    }
    proof {
        assert(views_of(r@) =~= seq![h@] + views_of(t@));
    }
    r
}

/// Whether some operand is the undefined value.
pub fn any_undefined(v: &Vec<Expr>) -> (r: bool)
    ensures
        r == has_undef(views_of(v@)),
{
    let mut i: usize = 0;
    while i < v.len()
        invariant
            i <= v@.len(),
            forall|j: int| 0 <= j < i ==> !(#[trigger] views_of(v@)[j]).is_undef(),
        decreases v@.len() - i,
    {
        if v[i].is_undefined() {
            proof {
                assert(views_of(v@)[i as int].is_undef());
            }
            return true;
        }
        i = i + 1;
    }
    false
}

/// Whether some operand is the given integer atom.
pub fn any_int(v: &Vec<Expr>, n: i64) -> (r: bool)
    ensures
        r == has_int(views_of(v@), n as int),
{
    let mut i: usize = 0;
    while i < v.len()
        invariant
            i <= v@.len(),
            forall|j: int|
                0 <= j < i ==> (#[trigger] views_of(v@)[j]).kind != KindV::Integer(n as int),
        decreases v@.len() - i,
    {
        let hit = match v[i].kind {
            ExprKind::Integer(m) => m == n,
            _ => false,
        };
        proof {
            lemma_view_facts(v@[i as int]);
        }
        if hit {
            proof {
                assert(views_of(v@)[i as int].kind == KindV::Integer(n as int));
            }
            return true;
        }
        i = i + 1;
    }
    false
}

} // verus!
