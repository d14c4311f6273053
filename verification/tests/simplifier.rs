//! Tests of the automatic simplifier and the toolkits around it.

use algomy::expression::{Expr, ExprKind};
use algomy::kernel::{Assignment, Kernel, Line};
use algomy::simplify::difference::simplify_difference;
use algomy::simplify::factorial::simplify_factorial;
use algomy::simplify::gaussian_number::simplify_grne;
use algomy::simplify::power::simplify_power;
use algomy::simplify::product::simplify_product;
use algomy::simplify::quotient::simplify_quotient;
use algomy::simplify::rational_number::{simplify_rational_number, simplify_rne};
use algomy::simplify::set::{simplify_member, simplify_union};
use algomy::simplify::simplify;
use algomy::polynomial::division::{
    polynomial_division, polynomial_expansion, polynomial_gcd, polynomial_quotient,
    polynomial_remainder,
};
use algomy::polynomial::Monomial;
use algomy::simplify::sum::simplify_sum;

fn sym(s: &str) -> Expr {
    Expr::symbol(s)
}

fn num(n: i64) -> Expr {
    Expr::integer(n)
}

fn sum_of(ops: Vec<Expr>) -> Expr {
    Expr::node(ExprKind::Sum, ops)
}

fn product_of(ops: Vec<Expr>) -> Expr {
    Expr::node(ExprKind::Product, ops)
}

#[test]
fn test_simplify_rational_number() {
    assert_eq!(simplify_rational_number(&Expr::frac(1, 2)), Expr::frac(1, 2));
    assert_eq!(simplify_rational_number(&Expr::frac(6, 2)), num(3));
    assert_eq!(simplify_rational_number(&Expr::frac(-4, 8)), Expr::frac(-1, 2));
    assert_eq!(simplify_rational_number(&Expr::frac(5, -7)), Expr::frac(-5, 7));
    assert_eq!(simplify_rational_number(&Expr::frac(-5, -15)), Expr::frac(1, 3));
}

#[test]
fn test_simplify_rne() {
    assert_eq!(
        simplify_rne(&Expr::plus(Expr::frac(2, 3), Expr::frac(3, 4))),
        Expr::frac(17, 12)
    );
    assert_eq!(simplify_rne(&Expr::power(Expr::frac(4, 2), num(3))), num(8));
    assert_eq!(
        simplify_rne(&Expr::quotient(
            num(1),
            Expr::minus(Expr::frac(2, 4), Expr::frac(1, 2))
        )),
        Expr::undefined()
    );
}

#[test]
fn test_simplify_factorial() {
    assert_eq!(simplify_factorial(&Expr::factorial(num(0))), num(1));
    assert_eq!(simplify_factorial(&Expr::factorial(num(5))), num(120));
    assert_eq!(
        simplify_factorial(&Expr::factorial(num(-5))),
        Expr::factorial(num(-5))
    );
    assert_eq!(
        simplify_factorial(&Expr::factorial(Expr::frac(3, 2))),
        Expr::factorial(Expr::frac(3, 2))
    );
}

#[test]
fn test_simplify_power() {
    // (((x^(1/2))^(1/2))^8 -> x^4 by exponent multiplication
    assert_eq!(
        simplify_power(&Expr::power(
            Expr::power(Expr::power(sym("x"), Expr::frac(1, 2)), Expr::frac(1, 2)),
            num(8)
        )),
        Expr::power(sym("x"), num(2))
    );
    // ((x*y)^(1/2)*z^2)^2 -> x*y*z^4
    assert_eq!(
        simplify_power(&Expr::power(
            Expr::times(
                Expr::power(Expr::times(sym("x"), sym("y")), Expr::frac(1, 2)),
                Expr::power(sym("z"), num(2))
            ),
            num(2)
        )),
        product_of(vec![sym("x"), sym("y"), Expr::power(sym("z"), num(4))])
    );
}

#[test]
fn test_simplify_product() {
    // a^(-1) * a -> 1
    assert_eq!(
        simplify_product(&product_of(vec![
            Expr::power(sym("a"), num(-1)),
            sym("a"),
        ])),
        num(1)
    );
    // a^(-1) * b * a -> b
    assert_eq!(
        simplify_product(&product_of(vec![
            Expr::power(sym("a"), num(-1)),
            sym("b"),
            sym("a"),
        ])),
        sym("b")
    );
    // c * 2 * b * c * a -> 2 * a * b * c^2
    assert_eq!(
        simplify_product(&product_of(vec![
            sym("c"),
            num(2),
            sym("b"),
            sym("c"),
            sym("a"),
        ])),
        simplify_product(&product_of(vec![
            num(2),
            sym("a"),
            sym("b"),
            Expr::power(sym("c"), num(2)),
        ]))
    );
    // (2 * a * c * e) * (3 * b * d * e) -> 6 * a * b * c * d * e^2
    assert_eq!(
        simplify_product(&Expr::times(
            product_of(vec![num(2), sym("a"), sym("c"), sym("e")]),
            product_of(vec![num(3), sym("b"), sym("d"), sym("e")])
        )),
        product_of(vec![
            num(6),
            sym("a"),
            sym("b"),
            sym("c"),
            sym("d"),
            Expr::power(sym("e"), num(2)),
        ])
    );
}

#[test]
fn test_simplify_sum() {
    // (-1)*a + a -> 0
    assert_eq!(
        simplify_sum(&sum_of(vec![
            Expr::times(num(-1), sym("a")),
            sym("a"),
        ])),
        num(0)
    );
    // (-1)*a + b + a -> b
    assert_eq!(
        simplify_sum(&sum_of(vec![
            Expr::times(num(-1), sym("a")),
            sym("b"),
            sym("a"),
        ])),
        sym("b")
    );
    // c + 2 + b + c + a -> 2 + a + b + 2*c
    assert_eq!(
        simplify_sum(&sum_of(vec![
            sym("c"),
            num(2),
            sym("b"),
            sym("c"),
            sym("a"),
        ])),
        simplify_sum(&sum_of(vec![
            num(2),
            sym("a"),
            sym("b"),
            Expr::times(num(2), sym("c")),
        ])),
    );
    // (2 + a + c + e) + (3 + b + d + e) -> 5 + a + b + c + d + 2*e
    assert_eq!(
        simplify_sum(&Expr::times(
            sum_of(vec![num(2), sym("a"), sym("c"), sym("e")]),
            sum_of(vec![num(3), sym("b"), sym("d"), sym("e")])
        )),
        sum_of(vec![
            num(5),
            sym("a"),
            sym("b"),
            sym("c"),
            sym("d"),
            Expr::times(num(2), sym("e")),
        ])
    );
}

#[test]
fn test_algebraic_expand() {
    // (x+2)*(x+3)*(x+4) = x^3 + 9 x^2 + 26 x + 24
    let x = sym("x");
    let u = simplify(&product_of(vec![
        Expr::plus(x.duplicate(), num(2)),
        Expr::plus(x.duplicate(), num(3)),
        Expr::plus(x.duplicate(), num(4)),
    ]));
    let expected = simplify(&sum_of(vec![
        Expr::power(x.duplicate(), num(3)),
        Expr::times(num(9), Expr::power(x.duplicate(), num(2))),
        Expr::times(num(26), x.duplicate()),
        num(24),
    ]));
    assert_eq!(u.algebraic_expand(), expected);

    // (x+1)^2 = 1 + 2x + x^2
    let u = simplify(&Expr::power(Expr::plus(x.duplicate(), num(1)), num(2)));
    let expected = simplify(&sum_of(vec![
        num(1),
        Expr::times(num(2), x.duplicate()),
        Expr::power(x.duplicate(), num(2)),
    ]));
    assert_eq!(u.algebraic_expand(), expected);

    // (x+2)^5 * (x+3)^3 * (x+4)^2 expands to the full degree-ten polynomial
    let u = simplify(&product_of(vec![
        Expr::power(Expr::plus(x.duplicate(), num(2)), num(5)),
        Expr::power(Expr::plus(x.duplicate(), num(3)), num(3)),
        Expr::power(Expr::plus(x.duplicate(), num(4)), num(2)),
    ]));
    let expected = simplify(&sum_of(vec![
        num(13824),
        Expr::times(num(55296), x.duplicate()),
        Expr::times(num(98784), Expr::power(x.duplicate(), num(2))),
        Expr::times(num(103760), Expr::power(x.duplicate(), num(3))),
        Expr::times(num(70944), Expr::power(x.duplicate(), num(4))),
        Expr::times(num(32984), Expr::power(x.duplicate(), num(5))),
        Expr::times(num(10558), Expr::power(x.duplicate(), num(6))),
        Expr::times(num(2297), Expr::power(x.duplicate(), num(7))),
        Expr::times(num(325), Expr::power(x.duplicate(), num(8))),
        Expr::times(num(27), Expr::power(x.duplicate(), num(9))),
        Expr::power(x.duplicate(), num(10)),
    ]));
    assert_eq!(u.algebraic_expand(), expected);

    // (x*(y+1)^3+1) * (x*(y+1)^2+1)
    let y = sym("y");
    let u = simplify(&product_of(vec![
        Expr::plus(
            Expr::times(
                x.duplicate(),
                Expr::power(Expr::plus(y.duplicate(), num(1)), num(3)),
            ),
            num(1),
        ),
        Expr::plus(
            Expr::times(
                x.duplicate(),
                Expr::power(Expr::plus(y.duplicate(), num(1)), num(2)),
            ),
            num(1),
        ),
    ]));
    let xy = |cx: i64, px: i64, py: i64| -> Expr {
        let mut ops: Vec<Expr> = Vec::new();
        if cx != 1 {
            ops.push(num(cx));
        }
        ops.push(if px == 1 {
            x.duplicate()
        } else {
            Expr::power(x.duplicate(), num(px))
        });
        if py >= 1 {
            ops.push(if py == 1 {
                y.duplicate()
            } else {
                Expr::power(y.duplicate(), num(py))
            });
        }
        product_of(ops)
    };
    let expected = simplify(&sum_of(vec![
        num(1),
        Expr::times(num(2), x.duplicate()),
        Expr::power(x.duplicate(), num(2)),
        xy(5, 1, 1),
        xy(5, 2, 1),
        xy(4, 1, 2),
        xy(10, 2, 2),
        xy(1, 1, 3),
        xy(10, 2, 3),
        xy(5, 2, 4),
        xy(1, 2, 5),
    ]));
    assert_eq!(u.algebraic_expand(), expected);
}

#[test]
fn test_is_gme() {
    // x^2 * y^2 * z^5
    let expr = simplify(&product_of(vec![
        Expr::power(sym("x"), num(2)),
        Expr::power(sym("y"), num(2)),
        Expr::power(sym("z"), num(5)),
    ]));
    assert_eq!(
        expr.as_gpe(),
        vec![Monomial {
            coeffs: Vec::new(),
            vars: vec![(sym("x"), 2), (sym("y"), 2), (sym("z"), 5)],
        }]
    );

    // x^2 + y^3 * z^2
    let expr = simplify(&Expr::plus(
        Expr::power(sym("x"), num(2)),
        Expr::times(Expr::power(sym("y"), num(3)), Expr::power(sym("z"), num(2))),
    ));
    assert_eq!(
        expr.as_gpe(),
        vec![
            Monomial { coeffs: Vec::new(), vars: vec![(sym("x"), 2)] },
            Monomial {
                coeffs: Vec::new(),
                vars: vec![(sym("y"), 3), (sym("z"), 2)],
            },
        ]
    );

    // (1/3)*x^1 + 3*y^3 + (x + 1)
    let expr = simplify(&sum_of(vec![
        Expr::times(Expr::frac(1, 3), Expr::power(sym("x"), num(1))),
        Expr::times(num(3), Expr::power(sym("y"), num(3))),
        Expr::plus(sym("x"), num(1)),
    ]));
    assert_eq!(
        expr.as_gpe(),
        vec![
            Monomial::new_coeff(num(1)),
            Monomial {
                coeffs: vec![Expr::frac(4, 3)],
                vars: vec![(sym("x"), 1)],
            },
            Monomial {
                coeffs: vec![num(3)],
                vars: vec![(sym("y"), 3)],
            },
        ]
    );
}

#[test]
fn test_degree_gpe() {
    let expr = simplify(&sum_of(vec![
        Expr::times(Expr::frac(1, 3), Expr::power(sym("x"), num(1))),
        Expr::times(num(3), Expr::power(sym("y"), num(3))),
        Expr::plus(sym("x"), num(1)),
    ]));
    assert_eq!(expr.degree_gpe(&sym("y")), 3);

    let expr = simplify(&product_of(vec![
        Expr::power(sym("x"), num(2)),
        Expr::power(sym("y"), num(2)),
        Expr::power(sym("z"), num(5)),
    ]));
    assert_eq!(expr.degree_gpe(&sym("z")), 5);

    let expr = simplify(&Expr::plus(
        product_of(vec![
            Expr::power(sym("x"), num(2)),
            Expr::power(sym("y"), num(2)),
            Expr::power(sym("z"), num(5)),
        ]),
        num(5),
    ));
    assert_eq!(expr.degree_gpe(&num(1)), 1);
    assert_eq!(expr.degree_gpe(&sym("a")), 0);
}

#[test]
fn scenario_quotient_of_sum() {
    // (1 + 2) / 4 = 3/4
    assert_eq!(
        simplify(&Expr::quotient(Expr::plus(num(1), num(2)), num(4))),
        Expr::frac(3, 4)
    );
}

#[test]
fn scenario_undefined_from_zero_division() {
    // 1 / (2/4 - 1/2) is undefined
    assert_eq!(
        simplify(&Expr::quotient(
            num(1),
            Expr::minus(Expr::frac(2, 4), Expr::frac(1, 2))
        )),
        Expr::undefined()
    );
}

#[test]
fn scenario_gaussian_division() {
    // (3 + 2 I) / (1 - I) = 1/2 + 5/2 I
    let r = simplify_grne(&Expr::quotient(
        Expr::gaussian(num(3), num(2)),
        Expr::gaussian(num(1), num(-1)),
    ));
    assert_eq!(r, Expr::gaussian(Expr::frac(1, 2), Expr::frac(5, 2)));
}

#[test]
fn scenario_coefficient_query() {
    // Coefficient((1/3) x + 3 y^3 + (x + 1), x, 1) = 4/3
    let expr = simplify(&sum_of(vec![
        Expr::times(Expr::frac(1, 3), sym("x")),
        Expr::times(num(3), Expr::power(sym("y"), num(3))),
        Expr::plus(sym("x"), num(1)),
    ]));
    assert_eq!(expr.coefficient_gpe(&sym("x"), 1), Expr::frac(4, 3));
}

#[test]
fn scenario_undefined_absorbs() {
    assert_eq!(
        simplify(&Expr::plus(sym("a"), Expr::undefined())),
        Expr::undefined()
    );
    assert_eq!(
        simplify(&Expr::times(num(0), Expr::undefined())),
        Expr::undefined()
    );
    assert_eq!(
        simplify(&Expr::power(Expr::undefined(), num(2))),
        Expr::undefined()
    );
    assert_eq!(
        simplify(&Expr::not(Expr::undefined())),
        Expr::undefined()
    );
    assert_eq!(
        simplify(&Expr::factorial(Expr::undefined())),
        Expr::undefined()
    );
    assert_eq!(
        simplify_factorial(&Expr::factorial(Expr::undefined())),
        Expr::undefined()
    );
    assert_eq!(
        simplify(&Expr::function("Mystery", vec![Expr::undefined()])),
        Expr::undefined()
    );
}

#[test]
fn scenario_idempotent_on_examples() {
    let samples = vec![
        sum_of(vec![sym("c"), num(2), sym("b"), sym("c"), sym("a")]),
        Expr::quotient(Expr::plus(num(1), num(2)), num(4)),
        Expr::power(Expr::plus(sym("x"), num(1)), num(2)),
        Expr::frac(-4, 8),
        Expr::gaussian(num(2), num(0)),
    ];
    for s in samples {
        let once = simplify(&s);
        let twice = simplify(&once);
        assert_eq!(once, twice);
    }
}

#[test]
fn scenario_like_terms_collect() {
    // 2 e + 3 e = 5 e for a symbol e
    let lhs = simplify(&Expr::plus(
        Expr::times(num(2), sym("e")),
        Expr::times(num(3), sym("e")),
    ));
    let rhs = simplify(&Expr::times(num(5), sym("e")));
    assert_eq!(lhs, rhs);
}

#[test]
fn scenario_ring_identities() {
    // a + 0 = a, a * 1 = a, a * 0 = 0, a - a = 0, a / a = 1
    assert_eq!(simplify(&Expr::plus(sym("a"), num(0))), sym("a"));
    assert_eq!(simplify(&Expr::times(sym("a"), num(1))), sym("a"));
    assert_eq!(simplify(&Expr::times(sym("a"), num(0))), num(0));
    assert_eq!(simplify(&Expr::minus(sym("a"), sym("a"))), num(0));
    assert_eq!(simplify(&Expr::quotient(sym("a"), sym("a"))), num(1));
    // commutativity on numerics
    assert_eq!(
        simplify(&Expr::plus(Expr::frac(2, 3), Expr::frac(3, 4))),
        simplify(&Expr::plus(Expr::frac(3, 4), Expr::frac(2, 3)))
    );
}

#[test]
fn scenario_sets_sorted_and_deduplicated() {
    let s = Expr::set(vec![sym("b"), num(3), sym("a"), num(3), sym("b")]);
    assert_eq!(
        s,
        Expr::node(ExprKind::SetLiteral, vec![num(3), sym("a"), sym("b")])
    );
    // membership
    let m = simplify_member(&Expr::binary(ExprKind::Member, sym("a"), s.duplicate()));
    assert_eq!(m, Expr::boolean(true));
    let m = simplify_member(&Expr::binary(ExprKind::Member, sym("z"), s));
    assert_eq!(m, Expr::boolean(false));
    // union of two set literals
    let u = simplify_union(&Expr::binary(
        ExprKind::Union,
        Expr::set(vec![num(1), num(2)]),
        Expr::set(vec![num(2), num(3)]),
    ));
    assert_eq!(u, Expr::set(vec![num(1), num(2), num(3)]));
}

#[test]
fn scenario_logic() {
    assert_eq!(
        simplify(&Expr::node(
            ExprKind::Or,
            vec![Expr::boolean(false), sym("p"), Expr::boolean(false)]
        )),
        sym("p")
    );
    assert_eq!(
        simplify(&Expr::node(
            ExprKind::And,
            vec![sym("p"), Expr::boolean(false)]
        )),
        Expr::boolean(false)
    );
    assert_eq!(
        simplify(&Expr::not(Expr::not(sym("p")))),
        sym("p")
    );
}

#[test]
fn scenario_free_of_and_substitute() {
    let u = Expr::plus(sym("x"), Expr::times(num(2), sym("y")));
    assert_eq!(u.free_of(&sym("z")), Expr::boolean(true));
    assert_eq!(u.free_of(&sym("y")), Expr::boolean(false));
    let swapped = u.substitute(&sym("y"), &sym("w"));
    assert_eq!(swapped, Expr::plus(sym("x"), Expr::times(num(2), sym("w"))));
}

#[test]
fn scenario_kernel_bindings() {
    let mut k = Kernel::new();
    let none = k.evaluate_line(Line::Binding(Assignment { var: sym("x"), val: num(4) }));
    assert!(none.is_none());
    let r = k.evaluate_line(Line::Expression(Expr::plus(sym("x"), num(1))));
    assert_eq!(r, Some(num(5)));
    k.clear_variable(&sym("x"));
    let r = k.evaluate_line(Line::Expression(Expr::plus(sym("x"), num(1))));
    assert_eq!(r, Some(simplify(&Expr::plus(num(1), sym("x")))));
    k.clear_session();
    assert_eq!(k.assignments.len(), 0);
}

#[test]
fn scenario_difference_and_quotient_rules() {
    // 0 - v = (-1) v
    assert_eq!(
        simplify_difference(&Expr::minus(num(0), sym("v"))),
        Expr::times(num(-1), sym("v"))
    );
    // n / d = n * d^(-1)
    assert_eq!(
        simplify_quotient(&Expr::quotient(sym("n"), sym("d"))),
        simplify(&Expr::times(sym("n"), Expr::power(sym("d"), num(-1))))
    );
}

#[test]
fn scenario_numerator_denominator_re_im() {
    assert_eq!(Expr::frac(3, 4).numerator(), num(3));
    assert_eq!(Expr::frac(3, 4).denominator(), num(4));
    assert_eq!(Expr::quotient(sym("n"), sym("d")).numerator(), sym("n"));
    assert_eq!(Expr::gaussian(num(1), num(2)).re(), num(1));
    assert_eq!(Expr::gaussian(num(1), num(2)).im(), num(2));
    assert_eq!(num(7).im(), num(0));
}

#[test]
fn scenario_zero_denominator_is_undefined() {
    assert_eq!(simplify(&Expr::frac(1, 0)), Expr::undefined());
    assert_eq!(simplify(&Expr::power(num(0), num(-1))), Expr::undefined());
    assert_eq!(simplify(&Expr::power(num(0), num(3))), num(0));
}

#[test]
fn scenario_polynomial_quotient_and_remainder() {
    // (x^2 - 1) / (x - 1) = x + 1 with remainder 0
    let u = simplify(&Expr::minus(Expr::power(sym("x"), num(2)), num(1)));
    let v = simplify(&Expr::minus(sym("x"), num(1)));
    let (q, r) = polynomial_division(&u, &v, &sym("x"));
    assert_eq!(q, simplify(&Expr::plus(sym("x"), num(1))));
    assert_eq!(r, num(0));
    assert_eq!(polynomial_quotient(&u, &v, &sym("x")), q);
    assert_eq!(polynomial_remainder(&u, &v, &sym("x")), num(0));
}

#[test]
fn scenario_polynomial_gcd() {
    // gcd(x^2 - 1, x^2 - 3x + 2) = x - 1
    let u = simplify(&Expr::minus(Expr::power(sym("x"), num(2)), num(1)));
    let v = simplify(&sum_of(vec![
        Expr::power(sym("x"), num(2)),
        Expr::times(num(-3), sym("x")),
        num(2),
    ]));
    let g = polynomial_gcd(&u, &v, &sym("x"));
    assert_eq!(g, simplify(&Expr::plus(num(-1), sym("x"))));
    // the gcd divides both inputs
    assert_eq!(polynomial_remainder(&u, &g, &sym("x")), num(0));
    assert_eq!(polynomial_remainder(&v, &g, &sym("x")), num(0));
    // gcd(0, 0) = 0
    assert_eq!(polynomial_gcd(&num(0), &num(0), &sym("x")), num(0));
}

#[test]
fn scenario_polynomial_builtins_dispatch() {
    // the named functions reach the division toolkit through simplify
    let u = simplify(&Expr::minus(Expr::power(sym("x"), num(2)), num(1)));
    let v = simplify(&Expr::minus(sym("x"), num(1)));
    let q = simplify(&Expr::function(
        "PolynomialQuotient",
        vec![u.duplicate(), v.duplicate(), sym("x")],
    ));
    assert_eq!(q, simplify(&Expr::plus(sym("x"), num(1))));
    let r = simplify(&Expr::function(
        "PolynomialRemainder",
        vec![u.duplicate(), v.duplicate(), sym("x")],
    ));
    assert_eq!(r, num(0));
    let w = simplify(&sum_of(vec![
        Expr::power(sym("x"), num(2)),
        Expr::times(num(-3), sym("x")),
        num(2),
    ]));
    let g = simplify(&Expr::function("PolynomialGCD", vec![u, w, sym("x")]));
    assert_eq!(g, simplify(&Expr::plus(num(-1), sym("x"))));
}

#[test]
fn scenario_polynomial_expansion() {
    // x^2 + 3x + 2 written in t = x + 1 is t^2 + t, expanded in t and x
    let u = simplify(&sum_of(vec![
        Expr::power(sym("x"), num(2)),
        Expr::times(num(3), sym("x")),
        num(2),
    ]));
    let v = simplify(&Expr::plus(sym("x"), num(1)));
    let e = polynomial_expansion(&u, &v, &sym("x"), &sym("t"));
    assert_eq!(
        e,
        simplify(&Expr::plus(Expr::power(sym("t"), num(2)), sym("t")))
    );
}

#[test]
fn scenario_set_combinators_absorb_undefined() {
    // a set literal, union, intersection, difference or membership with an
    // undefined operand is undefined
    assert_eq!(
        simplify(&Expr::node(ExprKind::SetLiteral, vec![Expr::undefined()])),
        Expr::undefined()
    );
    let s = Expr::node(ExprKind::SetLiteral, vec![num(1), num(2)]);
    assert_eq!(
        simplify(&Expr::node(ExprKind::Union, vec![s.duplicate(), Expr::undefined()])),
        Expr::undefined()
    );
    assert_eq!(
        simplify(&Expr::node(
            ExprKind::Intersection,
            vec![Expr::undefined(), s.duplicate()],
        )),
        Expr::undefined()
    );
    assert_eq!(
        simplify(&Expr::node(
            ExprKind::SetDifference,
            vec![s.duplicate(), Expr::undefined()],
        )),
        Expr::undefined()
    );
    assert_eq!(
        simplify(&Expr::node(ExprKind::Member, vec![Expr::undefined(), s])),
        Expr::undefined()
    );
}

#[test]
fn scenario_gaussian_coefficient_collects() {
    // (1 + i) a + 2 a = (3 + i) a: a Gaussian coefficient is numeric
    let input = Expr::plus(
        Expr::times(Expr::gaussian(num(1), num(1)), sym("a")),
        Expr::times(num(2), sym("a")),
    );
    assert_eq!(
        simplify(&input),
        simplify(&Expr::times(Expr::gaussian(num(3), num(1)), sym("a")))
    );
    let p = Expr::times(Expr::gaussian(num(1), num(1)), sym("a"));
    assert_eq!(p.product_coeff(), Expr::gaussian(num(1), num(1)));
    assert_eq!(p.product_rest(), sym("a"));
}

#[test]
fn scenario_kernel_rebinding() {
    // a second binding of the same variable replaces the first
    let mut k = Kernel::new();
    k.add_assignment(sym("x"), num(1));
    k.add_assignment(sym("y"), num(2));
    k.add_assignment(sym("x"), num(7));
    assert_eq!(k.assignments.len(), 2);
    let r = k.evaluate_line(Line::Expression(Expr::plus(sym("x"), sym("y"))));
    assert_eq!(r, Some(num(9)));
    k.clear_variable(&sym("y"));
    assert_eq!(k.assignments.len(), 1);
    let r = k.evaluate_line(Line::Expression(sym("y")));
    assert_eq!(r, Some(sym("y")));
}

#[test]
fn scenario_numeric_ring_identities() {
    // commutativity, adding zero, multiplying by one and by zero
    let a = Expr::frac(3, 4);
    let b = Expr::gaussian(num(1), num(2));
    assert_eq!(
        simplify(&Expr::plus(a.duplicate(), b.duplicate())),
        simplify(&Expr::plus(b.duplicate(), a.duplicate()))
    );
    assert_eq!(
        simplify(&Expr::times(a.duplicate(), b.duplicate())),
        simplify(&Expr::times(b.duplicate(), a.duplicate()))
    );
    assert_eq!(simplify(&Expr::plus(a.duplicate(), num(0))), a);
    assert_eq!(simplify(&Expr::plus(b.duplicate(), num(0))), b);
    assert_eq!(simplify(&Expr::times(a.duplicate(), num(1))), a);
    assert_eq!(simplify(&Expr::times(a.duplicate(), num(0))), num(0));
}
