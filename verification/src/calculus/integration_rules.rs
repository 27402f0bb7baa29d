//! The integration rule table: a fixed, ordered list of antiderivative
//! patterns with their closed-form results, built once per engine run.
//!
//! The table is carried as data, but its pattern matcher is intentionally
//! inert: `matches` always reports a miss, so every lookup falls through
//! to the strategy chain.  Completing true pattern unification and
//! template substitution is an open design question; until then the table
//! stays explicit rather than being silently approximated.

use vstd::prelude::*;
use crate::expression::{Expression, ExprView};
use crate::num::Num;
use crate::calculus::IntegrationError;

verus! {

/// A fixed antiderivative pattern and its closed-form result template.
#[derive(Debug)]
pub struct IntegrationRule {
    pub pattern: Expression,
    pub result: Expression,
}

/// The ordered list of integration rules.
#[derive(Debug)]
pub struct IntegrationTable {
    rules: Vec<IntegrationRule>,
}

/// Shorthand for a variable leaf in a rule.
pub open spec fn rv(name: Seq<char>) -> Box<ExprView> {
    Box::new(ExprView::Variable(name))
}

/// The fixed contents of the table: common power, trigonometric,
/// exponential, logarithmic and hyperbolic antiderivatives, in order.
pub open spec fn spec_rule_table() -> Seq<(ExprView, ExprView)> {
    seq![
        (
            ExprView::Power(rv("x"@), rv("n"@)),
            ExprView::Divide(
                Box::new(ExprView::Power(
                    rv("x"@),
                    Box::new(ExprView::Add(
                        rv("n"@),
                        Box::new(ExprView::Constant(Num::spec_one())),
                    )),
                )),
                Box::new(ExprView::Add(
                    rv("n"@),
                    Box::new(ExprView::Constant(Num::spec_one())),
                )),
            ),
        ),
        (
            ExprView::Sin(rv("x"@)),
            ExprView::Multiply(
                Box::new(ExprView::Constant(Num::spec_int(-1i64))),
                Box::new(ExprView::Cos(rv("x"@))),
            ),
        ),
        (ExprView::Cos(rv("x"@)), ExprView::Sin(rv("x"@))),
        (
            ExprView::Tan(rv("x"@)),
            ExprView::Multiply(
                Box::new(ExprView::Constant(Num::spec_int(-1i64))),
                Box::new(ExprView::Ln(Box::new(ExprView::Cos(rv("x"@))))),
            ),
        ),
        (ExprView::Exp(rv("x"@)), ExprView::Exp(rv("x"@))),
        (
            ExprView::Ln(rv("x"@)),
            ExprView::Subtract(
                Box::new(ExprView::Multiply(
                    rv("x"@),
                    Box::new(ExprView::Ln(rv("x"@))),
                )),
                rv("x"@),
            ),
        ),
        (ExprView::Sinh(rv("x"@)), ExprView::Cosh(rv("x"@))),
        (ExprView::Cosh(rv("x"@)), ExprView::Sinh(rv("x"@))),
        (ExprView::Tanh(rv("x"@)), ExprView::Ln(Box::new(ExprView::Cosh(rv("x"@))))),
    ]
}

impl View for IntegrationTable {
    type V = Seq<(ExprView, ExprView)>;

    closed spec fn view(&self) -> Seq<(ExprView, ExprView)> {
        self.rules@.map_values(|r: IntegrationRule| (r.pattern@, r.result@))
    }
}

impl IntegrationTable {
    /// Builds the table with its fixed rule set.
    pub fn new() -> (r: IntegrationTable)
        ensures
            r@ == spec_rule_table(),
    {
        let mut table = IntegrationTable { rules: Vec::new() };
        proof {
            assert(table@ =~= Seq::<(ExprView, ExprView)>::empty());
        }
        table.initialize_rules();
        proof {
            assert(table@ =~= spec_rule_table());
        }
        table
    }

    /// Installs the fixed rules, in order.
    fn initialize_rules(&mut self)
        ensures
            final(self)@ == old(self)@ + spec_rule_table(),
    {
        let ghost initial = self@;
        // x^n -> x^(n+1) / (n+1)
        self.add_rule(
            Expression::power(Expression::variable("x"), Expression::variable("n")),
            Expression::divide(
                Expression::power(
                    Expression::variable("x"),
                    Expression::add(
                        Expression::variable("n"),
                        Expression::constant(Num::from_int(1)),
                    ),
                ),
                Expression::add(
                    Expression::variable("n"),
                    Expression::constant(Num::from_int(1)),
                ),
            ),
        );
        // sin(x) -> -cos(x)
        self.add_rule(
            Expression::sin(Expression::variable("x")),
            Expression::multiply(
                Expression::constant(Num::from_int(-1)),
                Expression::cos(Expression::variable("x")),
            ),
        );
        // cos(x) -> sin(x)
        self.add_rule(
            Expression::cos(Expression::variable("x")),
            Expression::sin(Expression::variable("x")),
        );
        // tan(x) -> -ln(cos(x))
        self.add_rule(
            Expression::tan(Expression::variable("x")),
            Expression::multiply(
                Expression::constant(Num::from_int(-1)),
                Expression::ln(Expression::cos(Expression::variable("x"))),
            ),
        );
        // e^x -> e^x
        self.add_rule(
            Expression::exp(Expression::variable("x")),
            Expression::exp(Expression::variable("x")),
        );
        // ln(x) -> x*ln(x) - x
        self.add_rule(
            Expression::ln(Expression::variable("x")),
            Expression::subtract(
                Expression::multiply(
                    Expression::variable("x"),
                    Expression::ln(Expression::variable("x")),
                ),
                Expression::variable("x"),
            ),
        );
        // sinh(x) -> cosh(x)
        self.add_rule(
            Expression::sinh(Expression::variable("x")),
            Expression::cosh(Expression::variable("x")),
        );
        // cosh(x) -> sinh(x)
        self.add_rule(
            Expression::cosh(Expression::variable("x")),
            Expression::sinh(Expression::variable("x")),
        );
        // tanh(x) -> ln(cosh(x))
        self.add_rule(
            Expression::tanh(Expression::variable("x")),
            Expression::ln(Expression::cosh(Expression::variable("x"))),
        );
        proof {
            assert(final(self)@ =~= initial + spec_rule_table());
        }
    }

    /// Appends one rule.
    fn add_rule(&mut self, pattern: Expression, result: Expression)
        ensures
            final(self)@ == old(self)@.push((pattern@, result@)),
    {
        let ghost prior = self@;
        let ghost pv = pattern@;
        let ghost sv = result@;
        self.rules.push(IntegrationRule { pattern, result });
        proof {
            assert(self@ =~= prior.push((pv, sv)));
        }
    }

    /// Looks `expr` up in the table.  Because the matcher is inert this
    /// always reports a miss; the engine then falls back to its
    /// strategies.
    pub fn lookup(&self, expr: &Expression, var: &str) -> (r: Option<
        Result<Expression, IntegrationError>,
    >)
        ensures
            r is None,
    {
        let n = self.rules.len();
        let mut i: usize = 0;
        while i < n
            invariant
                n == self.rules.len(),
                i <= n,
            decreases n - i,
        {
            let rule = &self.rules[i];
            if self.matches(&rule.pattern, expr, var) {
                return Some(Ok(self.apply_rule(&rule.result, expr, var)));
            }
            i = i + 1;
        }
        None
    }

    /// Whether `expr` is an instance of `pattern` with the schematic
    /// variables bound.  Intentionally inert: unification is not
    /// implemented, so this always reports a miss.
    fn matches(&self, pattern: &Expression, expr: &Expression, var: &str) -> (r: bool)
        ensures
            r == false,
    {
        let _ = pattern;
        let _ = expr;
        let _ = var;
        false
    }

    /// Instantiates a rule's result template for `expr`.  With the inert
    /// matcher this is never reached by `lookup`; it returns the template
    /// as it stands.
    fn apply_rule(&self, result: &Expression, expr: &Expression, var: &str) -> (r: Expression)
        ensures
            r@ == result@,
    {
        let _ = expr;
        let _ = var;
        result.dup()
    }
}

} // verus!
