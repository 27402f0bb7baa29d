use wavesurf::calculus::integration_rules::IntegrationTable;
use wavesurf::calculus::integration_state::IntegrationState;
use wavesurf::calculus::IntegrationError;
use wavesurf::num::NumUnit;
use wavesurf::{Expression, ExpressionParser, Num};

fn x() -> Expression {
    Expression::variable("x")
}

fn c(n: i64) -> Expression {
    Expression::constant(Num::from_int(n))
}

/// Numeric evaluation of a tree at x = v, for sample-point checks.
fn eval(e: &Expression, v: f64) -> f64 {
    let nv = |c: &Num| -> f64 {
        let unit = match c.unit {
            NumUnit::One => 1.0,
            NumUnit::Pi => std::f64::consts::PI,
            NumUnit::Euler => std::f64::consts::E,
        };
        (c.num as f64) / (c.den as f64) * unit
    };
    match e {
        Expression::Constant(k) => nv(k),
        Expression::Variable(_) => v,
        Expression::Add(a, b) => eval(a, v) + eval(b, v),
        Expression::Subtract(a, b) => eval(a, v) - eval(b, v),
        Expression::Multiply(a, b) => eval(a, v) * eval(b, v),
        Expression::Divide(a, b) => eval(a, v) / eval(b, v),
        Expression::Power(a, b) => eval(a, v).powf(eval(b, v)),
        Expression::Root(a, b) => eval(a, v).powf(1.0 / eval(b, v)),
        Expression::Sin(a) => eval(a, v).sin(),
        Expression::Cos(a) => eval(a, v).cos(),
        Expression::Tan(a) => eval(a, v).tan(),
        Expression::Arcsin(a) => eval(a, v).asin(),
        Expression::Arccos(a) => eval(a, v).acos(),
        Expression::Arctan(a) => eval(a, v).atan(),
        Expression::Exp(a) => eval(a, v).exp(),
        Expression::Ln(a) => eval(a, v).ln(),
        Expression::Log(b, a) => eval(a, v).ln() / eval(b, v).ln(),
        Expression::Sinh(a) => eval(a, v).sinh(),
        Expression::Cosh(a) => eval(a, v).cosh(),
        Expression::Tanh(a) => eval(a, v).tanh(),
    }
}

#[test]
fn derivative_of_constant_is_zero() {
    assert_eq!(c(17).differentiate("x"), c(0));
    assert_eq!(
        Expression::constant(Num::rational(3, 4)).differentiate("x"),
        c(0)
    );
}

#[test]
fn derivative_of_variable() {
    assert_eq!(x().differentiate("x"), c(1));
    assert_eq!(Expression::variable("y").differentiate("x"), c(0));
}

#[test]
fn product_rule_shape_and_values() {
    // d(f*g) == f'*g + f*g' exactly as a tree, and numerically.
    let f = Expression::add(x(), c(1));
    let g = Expression::power(x(), c(2));
    let d = Expression::multiply(f.clone(), g.clone()).differentiate("x");
    let expected = Expression::add(
        Expression::multiply(f.differentiate("x"), g.clone()),
        Expression::multiply(f.clone(), g.differentiate("x")),
    );
    assert_eq!(d, expected);
    for v in [0.5_f64, 1.0, 2.0, 3.7] {
        // derivative of (x+1)*x^2 = 3x^2 + 2x
        let want = 3.0 * v * v + 2.0 * v;
        assert!((eval(&d, v) - want).abs() < 1e-9);
    }
}

#[test]
fn round_trip_integrate_then_differentiate() {
    let cases = vec![
        c(5),
        x(),
        Expression::add(x(), c(3)),
        Expression::subtract(Expression::power(x(), c(4)), x()),
        Expression::power(x(), c(2)),
        Expression::sin(x()),
        Expression::cos(x()),
        Expression::exp(x()),
    ];
    for e in cases {
        let integral = e.integrate("x").expect("integrable primitive");
        let back = integral.differentiate("x").simplify();
        let orig = e.simplify();
        for v in [0.3_f64, 1.1, 2.4] {
            assert!(
                (eval(&back, v) - eval(&orig, v)).abs() < 1e-9,
                "round trip failed at {v}"
            );
        }
    }
}

#[test]
fn cycle_guard_reports_max_depth() {
    // A product whose by-parts expansion keeps regenerating products of
    // exponentials must stop with the depth guard, not hang.
    let e = Expression::multiply(Expression::exp(x()), Expression::exp(x()));
    assert_eq!(e.integrate("x"), Err(IntegrationError::MaxDepthExceeded));
}

#[test]
fn simplify_is_idempotent_on_samples() {
    let samples = vec![
        Expression::add(x(), x()),
        Expression::multiply(x(), x()),
        Expression::root(x(), c(2)),
        Expression::exp(Expression::ln(x())),
        Expression::add(
            Expression::multiply(c(0), x()),
            Expression::power(x(), c(0)),
        ),
        Expression::arcsin(c(1)),
    ];
    for e in samples {
        let once = e.simplify();
        assert_eq!(once.simplify(), once);
    }
}

#[test]
fn scenario_quadratic() {
    // x^2 + 2*x + 1: already in normal form; derivative simplifies to 2*x + 2.
    let e = Expression::add(
        Expression::add(
            Expression::power(x(), c(2)),
            Expression::multiply(c(2), x()),
        ),
        c(1),
    );
    assert_eq!(e.simplify(), e);
    let d = e.differentiate("x").simplify();
    assert_eq!(d, Expression::add(Expression::multiply(c(2), x()), c(2)));
}

#[test]
fn scenario_sin() {
    let e = Expression::sin(x());
    assert_eq!(e.differentiate("x").simplify(), Expression::cos(x()));
    assert_eq!(
        e.integrate("x"),
        Ok(Expression::multiply(c(-1), Expression::cos(x())))
    );
}

#[test]
fn scenario_cube_integral() {
    let e = Expression::power(x(), c(3));
    assert_eq!(
        e.integrate("x"),
        Ok(Expression::divide(Expression::power(x(), c(4)), c(4)))
    );
}

#[test]
fn scenario_one_times_x() {
    assert_eq!(Expression::multiply(c(1), x()).simplify(), x());
}

#[test]
fn scenario_x_to_zero() {
    assert_eq!(Expression::power(x(), c(0)).simplify(), c(1));
}

#[test]
fn scenario_termwise_direct() {
    // x^2 + x^3 integrates termwise through the Direct strategy.
    let e = Expression::add(
        Expression::power(x(), c(2)),
        Expression::power(x(), c(3)),
    );
    let got = e.integrate("x").expect("termwise");
    let want = Expression::add(
        Expression::divide(Expression::power(x(), c(3)), c(3)),
        Expression::divide(Expression::power(x(), c(4)), c(4)),
    );
    assert_eq!(got, want);
}

#[test]
fn unsupported_shapes_report_no_method() {
    assert_eq!(
        Expression::arcsin(x()).integrate("x"),
        Err(IntegrationError::NoMethodFound)
    );
    assert_eq!(
        Expression::ln(Expression::sin(x())).integrate("x"),
        Err(IntegrationError::NoMethodFound)
    );
}

#[test]
fn error_messages() {
    assert_eq!(
        IntegrationError::MaxDepthExceeded.message(),
        "maximum recursion depth exceeded"
    );
    assert_eq!(
        IntegrationError::NoMethodFound.message(),
        "no integration method found"
    );
    assert_eq!(
        IntegrationError::NotImplemented.message(),
        "integration strategy not implemented"
    );
}

#[test]
fn special_value_folds() {
    assert_eq!(
        Expression::arcsin(c(1)).simplify(),
        Expression::constant(Num::scaled(1, 2, NumUnit::Pi))
    );
    assert_eq!(
        Expression::arctan(c(-1)).simplify(),
        Expression::constant(Num::scaled(-1, 4, NumUnit::Pi))
    );
    assert_eq!(
        Expression::exp(c(1)).simplify(),
        Expression::constant(Num::scaled(1, 1, NumUnit::Euler))
    );
    assert_eq!(
        Expression::ln(Expression::constant(Num::scaled(1, 1, NumUnit::Euler))).simplify(),
        c(1)
    );
    assert_eq!(Expression::cos(c(0)).simplify(), c(1));
}

#[test]
fn constant_folding_is_exact() {
    let half = Num::rational(1, 2);
    let sum = Expression::add(
        Expression::constant(half),
        Expression::constant(half),
    )
    .simplify();
    assert_eq!(sum, c(1));
    assert_eq!(Num::rational(2, 4), Num::rational(1, 2));
    let prod = Expression::multiply(
        Expression::constant(Num::rational(2, 3)),
        Expression::constant(Num::rational(3, 2)),
    )
    .simplify();
    assert_eq!(prod, c(1));
}

#[test]
fn rendering() {
    let e = Expression::multiply(Expression::add(x(), c(1)), c(2));
    assert_eq!(e.render(), "(x + 1) * 2");
    assert_eq!(Expression::add(x(), c(-2)).render(), "x - 2");
    assert_eq!(Expression::multiply(c(-1), x()).render(), "-x");
    assert_eq!(Expression::multiply(c(1), x()).render(), "x");
    assert_eq!(
        Expression::constant(Num::scaled(1, 2, NumUnit::Pi)).render(),
        "pi/2"
    );
    assert_eq!(Expression::constant(Num::rational(3, 4)).render(), "3/4");
    assert_eq!(
        Expression::power(Expression::add(x(), c(1)), c(2)).render(),
        "(x + 1)^2"
    );
    assert_eq!(Expression::sin(x()).render(), "sin(x)");
}

#[test]
fn cycle_state_similarity() {
    let mut state = IntegrationState::new(5);
    let a = Expression::multiply(x(), Expression::exp(x()));
    let commuted = Expression::multiply(Expression::exp(x()), x());
    assert!(!state.should_prune(&a));
    state.push_expression(a.clone());
    assert!(state.should_prune(&a));
    assert!(state.should_prune(&commuted));
    state.pop_expression();
    assert!(!state.should_prune(&a));
}

#[test]
fn depth_bound_prunes() {
    let state = IntegrationState::new(0);
    assert!(state.should_prune(&x()));
}

#[test]
fn table_lookup_is_inert() {
    let table = IntegrationTable::new();
    assert!(table.lookup(&Expression::sin(x()), "x").is_none());
    assert!(table.lookup(&Expression::power(x(), c(5)), "x").is_none());
}

#[test]
fn scanner_primitives() {
    let mut p = ExpressionParser::new("  sin (x)");
    p.skip_whitespace();
    let name = p.parse_identifier().expect("identifier");
    assert_eq!(name, "sin");
    assert!(p.expect_char('(').is_ok());
    assert_eq!(p.peek(), Some('x'));
    let mut q = ExpressionParser::new("y + 1");
    let err = q.expect_char('(').unwrap_err();
    assert_eq!(err, "Expected '(', found 'y'");
    let mut r = ExpressionParser::new("   ");
    assert_eq!(r.parse_identifier().unwrap_err(), "Expected identifier");
}

#[test]
fn quotient_rule_numeric() {
    // d((x^2+1)/x) = 1 - 1/x^2
    let e = Expression::divide(
        Expression::add(Expression::power(x(), c(2)), c(1)),
        x(),
    );
    let d = e.differentiate("x");
    for v in [0.7_f64, 1.3, 2.9] {
        let want = 1.0 - 1.0 / (v * v);
        assert!((eval(&d, v) - want).abs() < 1e-9);
    }
}

fn parse_ok(s: &str) -> Expression {
    ExpressionParser::new(s).parse().expect("parse")
}

#[test]
fn parse_quadratic_scenario() {
    // "x^2 + 2*x + 1": already normal; derivative simplifies to 2*x + 2.
    let e = parse_ok("x^2 + 2*x + 1");
    let want = Expression::add(
        Expression::add(
            Expression::power(x(), c(2)),
            Expression::multiply(c(2), x()),
        ),
        c(1),
    );
    assert_eq!(e, want);
    assert_eq!(e.simplify(), e);
    assert_eq!(
        e.differentiate("x").simplify(),
        Expression::add(Expression::multiply(c(2), x()), c(2))
    );
}

#[test]
fn parse_simple_scenarios() {
    assert_eq!(parse_ok("sin(x)"), Expression::sin(x()));
    assert_eq!(parse_ok("1*x").simplify(), x());
    assert_eq!(parse_ok("x^0").simplify(), c(1));
    assert_eq!(
        parse_ok("x^3").integrate("x"),
        Ok(Expression::divide(Expression::power(x(), c(4)), c(4)))
    );
    assert!(parse_ok("x^2 + x^3").integrate("x").is_ok());
    assert!(parse_ok("(x^2 * x^3) / (2*x)").integrate("x").is_err());
    assert!(parse_ok("sin(x)*cos(x) + e^x/x").differentiate("x").simplify() != c(0));
}

#[test]
fn parse_euler_forms() {
    assert_eq!(
        parse_ok("e"),
        Expression::constant(Num::scaled(1, 1, NumUnit::Euler))
    );
    assert_eq!(parse_ok("e^x"), Expression::exp(x()));
    assert_eq!(
        parse_ok("e^(2*x)"),
        Expression::exp(Expression::multiply(c(2), x()))
    );
    assert_eq!(parse_ok("exp(x)"), Expression::exp(x()));
}

#[test]
fn parse_decimal_is_exact() {
    assert_eq!(
        parse_ok("2.50"),
        Expression::constant(Num::rational(5, 2))
    );
    assert_eq!(parse_ok("0.125"), Expression::constant(Num::rational(1, 8)));
    assert_eq!(parse_ok("12."), c(12));
}

#[test]
fn parse_errors() {
    assert_eq!(
        ExpressionParser::new("@").parse().unwrap_err(),
        "Unexpected character: @"
    );
    assert_eq!(
        ExpressionParser::new("").parse().unwrap_err(),
        "Unexpected end of input"
    );
    assert_eq!(
        ExpressionParser::new("sin x").parse().unwrap_err(),
        "Expected '(' after function name"
    );
    assert_eq!(
        ExpressionParser::new("(x").parse().unwrap_err(),
        "Expected ')', found end of input"
    );
    assert_eq!(
        ExpressionParser::new("1.2.3").parse().unwrap_err(),
        "Invalid number: 1.2.3"
    );
}

#[test]
fn hyperbolic_similarity_is_commutativity_aware() {
    // sinh(x+y) counts as similar to sinh(y+x) for the cycle guard.
    let y = Expression::variable("y");
    let a = Expression::sinh(Expression::add(x(), y.clone()));
    let b = Expression::sinh(Expression::add(y, x()));
    let mut state = IntegrationState::new(5);
    state.push_expression(a);
    assert!(state.should_prune(&b));
}

#[test]
fn power_rule_with_symbolic_exponent() {
    // d(x^pi) keeps the power rule; the lowered exponent stays symbolic.
    let pi = Num::scaled(1, 1, NumUnit::Pi);
    let e = Expression::power(x(), Expression::constant(pi));
    let lowered = Expression::subtract(Expression::constant(pi), c(1));
    let want = Expression::multiply(
        Expression::constant(pi),
        Expression::multiply(
            Expression::power(x(), lowered),
            x().differentiate("x"),
        ),
    );
    assert_eq!(e.differentiate("x"), want);
}

#[test]
fn integral_with_symbolic_exponent() {
    // integral of x^pi keeps the closed form with a symbolic n+1.
    let pi = Num::scaled(1, 1, NumUnit::Pi);
    let e = Expression::power(x(), Expression::constant(pi));
    let raised = Expression::add(Expression::constant(pi), c(1));
    let want = Expression::divide(
        Expression::power(x(), raised.clone()),
        raised,
    );
    assert_eq!(e.integrate("x"), Ok(want));
}

#[test]
fn root_renders_as_radical() {
    assert_eq!(Expression::root(x(), c(2)).render(), "\u{221a}[2](x)");
}

#[test]
fn chained_exponents_associate_left() {
    // "a^b^c" parses as (a^b)^c: each '^' right side is a single primary.
    let a = Expression::variable("a");
    let b = Expression::variable("b");
    let cc = Expression::variable("c");
    assert_eq!(
        parse_ok("a^b^c"),
        Expression::power(Expression::power(a, b), cc)
    );
}

#[test]
fn parse_leaves_trailing_input_unread() {
    // Reading stops at the first unconsumable character; it is not an error.
    let mut p = ExpressionParser::new("x + 1 @ rest");
    let e = p.parse().expect("prefix parses");
    assert_eq!(e, Expression::add(x(), c(1)));
}

#[test]
fn parse_respects_precedence() {
    // "1 + 2*x" groups the product under the sum.
    assert_eq!(
        parse_ok("1 + 2*x"),
        Expression::add(c(1), Expression::multiply(c(2), x()))
    );
    // "2*x + 1" likewise, left-associatively.
    assert_eq!(
        parse_ok("2*x + 1"),
        Expression::add(Expression::multiply(c(2), x()), c(1))
    );
}
