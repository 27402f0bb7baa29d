//! Symbolic differentiation: a total structural recursion over expression
//! trees, one textbook rule per variant, with the chain rule applied to
//! every inner expression.

use vstd::prelude::*;
use crate::expression::{Expression, ExprView, wsize, wf_expr, str_eq};
use crate::num::{
    Num, NumUnit, spec_sub, lemma_int_wf, lemma_half_norm, lemma_spec_sub_wf,
};

verus! {

/// The symbolic derivative of `e` with respect to the variable `var`.
///
/// A constant exponent is always handled by the power rule (the lowered
/// exponent stays symbolic when the exact difference is not representable);
/// a non-constant exponent falls back to the logarithmic form
/// `exp * ln(base) * base'`, which is exact only when the exponent does not
/// depend on `var` (a documented limitation, not a failure).
pub open spec fn spec_differentiate(e: ExprView, var: Seq<char>) -> ExprView
    decreases wsize(e),
    via spec_differentiate_decreases
{
    match e {
        ExprView::Constant(_) => ExprView::Constant(Num::spec_zero()),
        ExprView::Variable(name) => if name == var {
            ExprView::Constant(Num::spec_one())
        } else {
            ExprView::Constant(Num::spec_zero())
        },
        ExprView::Add(l, r) => ExprView::Add(
            Box::new(spec_differentiate(*l, var)),
            Box::new(spec_differentiate(*r, var)),
        ),
        ExprView::Subtract(l, r) => ExprView::Subtract(
            Box::new(spec_differentiate(*l, var)),
            Box::new(spec_differentiate(*r, var)),
        ),
        ExprView::Multiply(l, r) => ExprView::Add(
            Box::new(ExprView::Multiply(Box::new(spec_differentiate(*l, var)), r)),
            Box::new(ExprView::Multiply(l, Box::new(spec_differentiate(*r, var)))),
        ),
        ExprView::Divide(l, r) => ExprView::Divide(
            Box::new(ExprView::Subtract(
                Box::new(ExprView::Multiply(r, Box::new(spec_differentiate(*l, var)))),
                Box::new(ExprView::Multiply(l, Box::new(spec_differentiate(*r, var)))),
            )),
            Box::new(ExprView::Power(r, Box::new(ExprView::Constant(Num::spec_int(2))))),
        ),
        ExprView::Power(base, exponent) => {
            match *exponent {
                ExprView::Constant(n) => ExprView::Multiply(
                    Box::new(ExprView::Constant(n)),
                    Box::new(ExprView::Multiply(
                        Box::new(ExprView::Power(Box::new(*base), Box::new(spec_lowered(n)))),
                        Box::new(spec_differentiate(*base, var)),
                    )),
                ),
                _ => ExprView::Multiply(
                    exponent,
                    Box::new(ExprView::Multiply(
                        Box::new(ExprView::Ln(base)),
                        Box::new(spec_differentiate(*base, var)),
                    )),
                ),
            }
        },
        ExprView::Root(base, n) => spec_differentiate(
            ExprView::Power(
                base,
                Box::new(ExprView::Divide(
                    Box::new(ExprView::Constant(Num::spec_one())),
                    n,
                )),
            ),
            var,
        ),
        ExprView::Sin(x) => ExprView::Multiply(
            Box::new(ExprView::Cos(x)),
            Box::new(spec_differentiate(*x, var)),
        ),
        ExprView::Cos(x) => ExprView::Multiply(
            Box::new(ExprView::Multiply(
                Box::new(ExprView::Constant(Num::spec_int(-1i64))),
                Box::new(ExprView::Sin(x)),
            )),
            Box::new(spec_differentiate(*x, var)),
        ),
        ExprView::Tan(x) => ExprView::Multiply(
            Box::new(ExprView::Divide(
                Box::new(ExprView::Constant(Num::spec_one())),
                Box::new(ExprView::Power(
                    Box::new(ExprView::Cos(x)),
                    Box::new(ExprView::Constant(Num::spec_int(2))),
                )),
            )),
            Box::new(spec_differentiate(*x, var)),
        ),
        ExprView::Arcsin(x) => ExprView::Multiply(
            Box::new(spec_differentiate(*x, var)),
            Box::new(ExprView::Divide(
                Box::new(ExprView::Constant(Num::spec_one())),
                Box::new(arc_sqrt_term(*x)),
            )),
        ),
        ExprView::Arccos(x) => ExprView::Multiply(
            Box::new(spec_differentiate(*x, var)),
            Box::new(ExprView::Multiply(
                Box::new(ExprView::Constant(Num::spec_int(-1i64))),
                Box::new(ExprView::Divide(
                    Box::new(ExprView::Constant(Num::spec_one())),
                    Box::new(arc_sqrt_term(*x)),
                )),
            )),
        ),
        ExprView::Arctan(x) => ExprView::Multiply(
            Box::new(spec_differentiate(*x, var)),
            Box::new(ExprView::Divide(
                Box::new(ExprView::Constant(Num::spec_one())),
                Box::new(ExprView::Add(
                    Box::new(ExprView::Constant(Num::spec_one())),
                    Box::new(ExprView::Power(
                        x,
                        Box::new(ExprView::Constant(Num::spec_int(2))),
                    )),
                )),
            )),
        ),
        ExprView::Exp(x) => ExprView::Multiply(
            Box::new(ExprView::Exp(x)),
            Box::new(spec_differentiate(*x, var)),
        ),
        ExprView::Ln(x) => ExprView::Multiply(
            Box::new(ExprView::Divide(
                Box::new(ExprView::Constant(Num::spec_one())),
                x,
            )),
            Box::new(spec_differentiate(*x, var)),
        ),
        ExprView::Log(base, x) => ExprView::Multiply(
            Box::new(spec_differentiate(*x, var)),
            Box::new(ExprView::Divide(
                Box::new(ExprView::Constant(Num::spec_one())),
                Box::new(ExprView::Multiply(x, Box::new(ExprView::Ln(base)))),
            )),
        ),
        ExprView::Sinh(x) => ExprView::Multiply(
            Box::new(ExprView::Cosh(x)),
            Box::new(spec_differentiate(*x, var)),
        ),
        ExprView::Cosh(x) => ExprView::Multiply(
            Box::new(ExprView::Sinh(x)),
            Box::new(spec_differentiate(*x, var)),
        ),
        ExprView::Tanh(x) => ExprView::Multiply(
            Box::new(ExprView::Subtract(
                Box::new(ExprView::Constant(Num::spec_one())),
                Box::new(ExprView::Power(
                    Box::new(ExprView::Tanh(x)),
                    Box::new(ExprView::Constant(Num::spec_int(2))),
                )),
            )),
            Box::new(spec_differentiate(*x, var)),
        ),
    }
}

#[via_fn]
proof fn spec_differentiate_decreases(e: ExprView, var: Seq<char>) {
    reveal_with_fuel(wsize, 5);
}

/// A constant exponent lowered by one for the power rule: the exact
/// difference when it is representable, the symbolic difference otherwise.
pub open spec fn spec_lowered(n: Num) -> ExprView {
    match spec_sub(n, Num::spec_one()) {
        Some(nm1) => ExprView::Constant(nm1),
        None => ExprView::Subtract(
            Box::new(ExprView::Constant(n)),
            Box::new(ExprView::Constant(Num::spec_one())),
        ),
    }
}

/// The square root `(1 - x^2)^(1/2)` that appears in the derivatives of
/// arcsine and arccosine.
pub open spec fn arc_sqrt_term(x: ExprView) -> ExprView {
    ExprView::Power(
        Box::new(ExprView::Subtract(
            Box::new(ExprView::Constant(Num::spec_one())),
            Box::new(ExprView::Power(
                Box::new(x),
                Box::new(ExprView::Constant(Num::spec_int(2))),
            )),
        )),
        Box::new(ExprView::Constant(Num { num: 1, den: 2, unit: NumUnit::One })),
    )
}

/// Differentiation keeps every constant in the tree normalized.
pub proof fn lemma_differentiate_wf(e: ExprView, var: Seq<char>)
    requires
        wf_expr(e),
    ensures
        wf_expr(spec_differentiate(e, var)),
    decreases wsize(e),
{
    reveal_with_fuel(wf_expr, 10);
    lemma_int_wf(0);
    lemma_int_wf(1);
    lemma_int_wf(2);
    lemma_int_wf(-1i64);
    lemma_half_norm();
    match e {
        ExprView::Constant(_) => {},
        ExprView::Variable(_) => {},
        ExprView::Add(l, r) => {
            lemma_differentiate_wf(*l, var);
            lemma_differentiate_wf(*r, var);
        },
        ExprView::Subtract(l, r) => {
            lemma_differentiate_wf(*l, var);
            lemma_differentiate_wf(*r, var);
        },
        ExprView::Multiply(l, r) => {
            lemma_differentiate_wf(*l, var);
            lemma_differentiate_wf(*r, var);
        },
        ExprView::Divide(l, r) => {
            lemma_differentiate_wf(*l, var);
            lemma_differentiate_wf(*r, var);
        },
        ExprView::Power(base, exponent) => {
            lemma_differentiate_wf(*base, var);
            assert(wf_expr(*exponent));
            match *exponent {
                ExprView::Constant(n) => {
                    assert(n.wf());
                    lemma_spec_sub_wf(n, Num::spec_one());
                    assert(wf_expr(spec_lowered(n)));
                },
                _ => {},
            }
        },
        ExprView::Root(base, n) => {
            reveal_with_fuel(wsize, 5);
            assert(wf_expr(*base) && wf_expr(*n));
            lemma_int_wf(1);
            assert(wf_expr(ExprView::Constant(Num::spec_one())));
            assert(wf_expr(ExprView::Divide(
                Box::new(ExprView::Constant(Num::spec_one())),
                n,
            )));
            lemma_differentiate_wf(
                ExprView::Power(
                    base,
                    Box::new(ExprView::Divide(
                        Box::new(ExprView::Constant(Num::spec_one())),
                        n,
                    )),
                ),
                var,
            );
        },
        ExprView::Sin(x) => lemma_differentiate_wf(*x, var),
        ExprView::Cos(x) => lemma_differentiate_wf(*x, var),
        ExprView::Tan(x) => lemma_differentiate_wf(*x, var),
        ExprView::Arcsin(x) => lemma_differentiate_wf(*x, var),
        ExprView::Arccos(x) => lemma_differentiate_wf(*x, var),
        ExprView::Arctan(x) => lemma_differentiate_wf(*x, var),
        ExprView::Exp(x) => lemma_differentiate_wf(*x, var),
        ExprView::Ln(x) => lemma_differentiate_wf(*x, var),
        ExprView::Log(base, x) => lemma_differentiate_wf(*x, var),
        ExprView::Sinh(x) => lemma_differentiate_wf(*x, var),
        ExprView::Cosh(x) => lemma_differentiate_wf(*x, var),
        ExprView::Tanh(x) => lemma_differentiate_wf(*x, var),
    }
}

/// The derivative of any constant is the constant zero.
pub proof fn lemma_differentiate_constant(c: Num, var: Seq<char>)
    ensures
        spec_differentiate(ExprView::Constant(c), var)
            == ExprView::Constant(Num::spec_zero()),
{
}

/// The derivative of the differentiation variable is one; the derivative of
/// any other variable is zero.
pub proof fn lemma_differentiate_variable(name: Seq<char>, var: Seq<char>)
    ensures
        name == var ==> spec_differentiate(ExprView::Variable(name), var)
            == ExprView::Constant(Num::spec_one()),
        name != var ==> spec_differentiate(ExprView::Variable(name), var)
            == ExprView::Constant(Num::spec_zero()),
{
}

/// The product rule: the derivative of `f * g` is exactly `f' * g + f * g'`.
pub proof fn lemma_differentiate_product(f: ExprView, g: ExprView, var: Seq<char>)
    ensures
        spec_differentiate(ExprView::Multiply(Box::new(f), Box::new(g)), var)
            == ExprView::Add(
                Box::new(ExprView::Multiply(
                    Box::new(spec_differentiate(f, var)),
                    Box::new(g),
                )),
                Box::new(ExprView::Multiply(
                    Box::new(f),
                    Box::new(spec_differentiate(g, var)),
                )),
            ),
{
}

impl Expression {
    /// The symbolic derivative of this expression with respect to `var`.
    ///
    /// Total: every expression has a derivative under these rules, possibly
    /// an unwieldy but well-defined one.
    pub fn differentiate(&self, var: &str) -> (r: Expression)
        requires
            wf_expr(self@),
        ensures
            r@ == spec_differentiate(self@, var@),
            wf_expr(r@),
        decreases wsize(self@),
    {
        proof {
            lemma_differentiate_wf(self@, var@);
        }
        match self {
            Expression::Constant(_) => Expression::constant(Num::from_int(0)),
            Expression::Variable(name) => {
                if str_eq(name.as_str(), var) {
                    Expression::constant(Num::from_int(1))
                } else {
                    Expression::constant(Num::from_int(0))
                }
            }
            Expression::Add(left, right) => {
                Expression::add(left.differentiate(var), right.differentiate(var))
            }
            Expression::Subtract(left, right) => {
                Expression::subtract(left.differentiate(var), right.differentiate(var))
            }
            Expression::Multiply(left, right) => {
                // Product rule: d(u*v) = du*v + u*dv
                let du_v = Expression::multiply(left.differentiate(var), right.dup());
                let u_dv = Expression::multiply(left.dup(), right.differentiate(var));
                Expression::add(du_v, u_dv)
            }
            Expression::Divide(left, right) => {
                // Quotient rule: d(u/v) = (v*du - u*dv) / v^2
                let v_du = Expression::multiply(right.dup(), left.differentiate(var));
                let u_dv = Expression::multiply(left.dup(), right.differentiate(var));
                let numerator = Expression::subtract(v_du, u_dv);
                let denominator = Expression::power(
                    right.dup(),
                    Expression::constant(Num::from_int(2)),
                );
                Expression::divide(numerator, denominator)
            }
            Expression::Power(base, exponent) => {
                proof {
                    assert(wf_expr((**exponent)@));
                }
                match &**exponent {
                    Expression::Constant(n) => {
                        // Power rule: d(u^n) = n * u^(n-1) * du.  When n-1
                        // has no exact constant the lowered exponent stays
                        // symbolic.
                        proof {
                            assert((**exponent)@ == ExprView::Constant(*n));
                            assert(n.wf());
                        }
                        let lowered = match n.checked_sub(Num::from_int(1)) {
                            Some(nm1) => Expression::constant(nm1),
                            None => Expression::subtract(
                                Expression::constant(*n),
                                Expression::constant(Num::from_int(1)),
                            ),
                        };
                        let new_power = Expression::power(base.dup(), lowered);
                        Expression::multiply(
                            Expression::constant(*n),
                            Expression::multiply(new_power, base.differentiate(var)),
                        )
                    }
                    _ => {
                        // Logarithmic fallback: exp * ln(base) * d(base)
                        let ln_base = Expression::ln(base.dup());
                        Expression::multiply(
                            exponent.dup(),
                            Expression::multiply(ln_base, base.differentiate(var)),
                        )
                    }
                }
            }
            Expression::Root(base, n) => {
                // Rewrite the root as a power and differentiate that.
                let power = Expression::divide(
                    Expression::constant(Num::from_int(1)),
                    n.dup(),
                );
                let rewritten = Expression::power(base.dup(), power);
                proof {
                    reveal_with_fuel(wsize, 5);
                    assert(wsize(rewritten@) < wsize(self@));
                    lemma_int_wf(1);
                    assert(wf_expr(power@)) by {
                        assert(wf_expr(ExprView::Constant(Num::spec_int(1))));
                    }
                    assert(wf_expr(rewritten@));
                }
                rewritten.differentiate(var)
            }
            Expression::Sin(x) => {
                // d sin(u) = cos(u) * du
                Expression::multiply(Expression::cos(x.dup()), x.differentiate(var))
            }
            Expression::Cos(x) => {
                // d cos(u) = -sin(u) * du
                Expression::multiply(
                    Expression::multiply(
                        Expression::constant(Num::from_int(-1)),
                        Expression::sin(x.dup()),
                    ),
                    x.differentiate(var),
                )
            }
            Expression::Tan(x) => {
                // d tan(u) = (1 / cos(u)^2) * du
                Expression::multiply(
                    Expression::divide(
                        Expression::constant(Num::from_int(1)),
                        Expression::power(
                            Expression::cos(x.dup()),
                            Expression::constant(Num::from_int(2)),
                        ),
                    ),
                    x.differentiate(var),
                )
            }
            Expression::Arcsin(x) => {
                // d arcsin(u) = du * (1 / (1 - u^2)^(1/2))
                let inner_deriv = x.differentiate(var);
                let denom = self::sqrt_one_minus_square(x);
                Expression::multiply(
                    inner_deriv,
                    Expression::divide(Expression::constant(Num::from_int(1)), denom),
                )
            }
            Expression::Arccos(x) => {
                // d arccos(u) = du * (-1 * (1 / (1 - u^2)^(1/2)))
                let inner_deriv = x.differentiate(var);
                let denom = self::sqrt_one_minus_square(x);
                Expression::multiply(
                    inner_deriv,
                    Expression::multiply(
                        Expression::constant(Num::from_int(-1)),
                        Expression::divide(Expression::constant(Num::from_int(1)), denom),
                    ),
                )
            }
            Expression::Arctan(x) => {
                // d arctan(u) = du * (1 / (1 + u^2))
                let inner_deriv = x.differentiate(var);
                let denom = Expression::add(
                    Expression::constant(Num::from_int(1)),
                    Expression::power(x.dup(), Expression::constant(Num::from_int(2))),
                );
                Expression::multiply(
                    inner_deriv,
                    Expression::divide(Expression::constant(Num::from_int(1)), denom),
                )
            }
            Expression::Exp(x) => {
                // d e^u = e^u * du
                Expression::multiply(Expression::exp(x.dup()), x.differentiate(var))
            }
            Expression::Ln(x) => {
                // d ln(u) = (1/u) * du
                Expression::multiply(
                    Expression::divide(Expression::constant(Num::from_int(1)), x.dup()),
                    x.differentiate(var),
                )
            }
            Expression::Log(base, x) => {
                // d log_b(u) = du * (1 / (u * ln(b)))
                let inner_deriv = x.differentiate(var);
                let denom = Expression::multiply(x.dup(), Expression::ln(base.dup()));
                Expression::multiply(
                    inner_deriv,
                    Expression::divide(Expression::constant(Num::from_int(1)), denom),
                )
            }
            Expression::Sinh(x) => {
                // d sinh(u) = cosh(u) * du
                Expression::multiply(Expression::cosh(x.dup()), x.differentiate(var))
            }
            Expression::Cosh(x) => {
                // d cosh(u) = sinh(u) * du
                Expression::multiply(Expression::sinh(x.dup()), x.differentiate(var))
            }
            Expression::Tanh(x) => {
                // d tanh(u) = (1 - tanh(u)^2) * du
                Expression::multiply(
                    Expression::subtract(
                        Expression::constant(Num::from_int(1)),
                        Expression::power(
                            Expression::tanh(x.dup()),
                            Expression::constant(Num::from_int(2)),
                        ),
                    ),
                    x.differentiate(var),
                )
            }
        }
    }
}

/// Builds `(1 - x^2)^(1/2)`.
fn sqrt_one_minus_square(x: &Expression) -> (r: Expression)
    ensures
        r@ == arc_sqrt_term(x@),
{
    proof {
        lemma_half_norm();
    }
    Expression::power(
        Expression::subtract(
            Expression::constant(Num::from_int(1)),
            Expression::power(x.dup(), Expression::constant(Num::from_int(2))),
        ),
        Expression::constant(Num::rational(1, 2)),
    )
}

} // verus!
