//! The integration strategy engine.
//!
//! A top-level call builds a fresh rule table and traversal state (the
//! table is immutable and its matcher inert, so building it per call and
//! sharing one process-wide copy are indistinguishable), then
//! works through a fixed strategy chain -- Direct, ByParts, Substitution --
//! each attempted against the whole expression.  Recursive attempts thread
//! the same state so the depth bound and the cycle guard span the entire
//! call tree: integration by parts can regenerate an equivalent
//! sub-problem, and without the guard the engine would expand forever.

use vstd::prelude::*;
use crate::expression::{Expression, ExprView, wsize, wf_expr, str_eq, lemma_view_ctor};
use crate::num::{Num, NumUnit, spec_add, lemma_spec_add_wf, lemma_int_wf};
use crate::calculus::IntegrationError;
use crate::calculus::differentiate::{spec_differentiate, lemma_differentiate_wf};
use crate::calculus::integration_rules::IntegrationTable;
use crate::calculus::integration_state::{
    IntegrationState, IntegrationMethod, spec_prune_at, spec_similar,
};

verus! {

/// The default bound on nested expansion attempts; deliberately small so
/// the explicit counter trips long before the host stack could.
pub const DEFAULT_MAX_DEPTH: usize = 5;

/// An integration outcome with the expression replaced by its shape.
pub open spec fn integ_result_view(r: &Result<Expression, IntegrationError>) -> Result<
    ExprView,
    IntegrationError,
> {
    match r {
        Ok(e) => Ok(e@),
        Err(x) => Err(*x),
    }
}

/// How hard a factor is to differentiate repeatedly; integration by parts
/// differentiates the easier factor.
pub open spec fn spec_difficulty(e: ExprView) -> int {
    match e {
        ExprView::Constant(_) => 1,
        ExprView::Variable(_) => 2,
        ExprView::Add(_, _) => 3,
        ExprView::Subtract(_, _) => 3,
        ExprView::Multiply(_, _) => 4,
        ExprView::Sin(_) => 4,
        ExprView::Cos(_) => 4,
        ExprView::Exp(_) => 4,
        ExprView::Divide(_, _) => 5,
        ExprView::Tan(_) => 5,
        ExprView::Power(_, _) => 6,
        ExprView::Ln(_) => 7,
        _ => 10,
    }
}

/// The Substitution strategy is an explicit stub: u-substitution is not
/// implemented, and the stub reports that rather than approximating.
pub open spec fn spec_try_substitution(e: ExprView) -> Result<ExprView, IntegrationError> {
    Err(IntegrationError::NotImplemented)
}

/// A constant exponent raised by one for the power rule: the exact sum
/// when it is representable, the symbolic sum otherwise.
pub open spec fn spec_raised(n: Num) -> ExprView {
    match spec_add(n, Num::spec_one()) {
        Some(np1) => ExprView::Constant(np1),
        None => ExprView::Add(
            Box::new(ExprView::Constant(n)),
            Box::new(ExprView::Constant(Num::spec_one())),
        ),
    }
}

/// The single closed-form antiderivatives of the Direct strategy: forms
/// integrable in one step, on the integration variable itself.
pub open spec fn spec_direct_closed(e: ExprView, var: Seq<char>) -> Result<
    ExprView,
    IntegrationError,
> {
    match e {
        ExprView::Constant(c) => Ok(ExprView::Multiply(
            Box::new(ExprView::Constant(c)),
            Box::new(ExprView::Variable(var)),
        )),
        ExprView::Variable(name) => if name == var {
            Ok(ExprView::Divide(
                Box::new(ExprView::Power(
                    Box::new(ExprView::Variable(var)),
                    Box::new(ExprView::Constant(Num::spec_int(2))),
                )),
                Box::new(ExprView::Constant(Num::spec_int(2))),
            ))
        } else {
            Ok(ExprView::Multiply(
                Box::new(ExprView::Variable(name)),
                Box::new(ExprView::Variable(var)),
            ))
        },
        ExprView::Power(base, exponent) => match (*base, *exponent) {
            (ExprView::Variable(name), ExprView::Constant(n)) => if name == var {
                if !n.is_neg_one() {
                    Ok(ExprView::Divide(
                        Box::new(ExprView::Power(
                            Box::new(ExprView::Variable(var)),
                            Box::new(spec_raised(n)),
                        )),
                        Box::new(spec_raised(n)),
                    ))
                } else {
                    Ok(ExprView::Ln(Box::new(ExprView::Variable(var))))
                }
            } else {
                Err(IntegrationError::NoMethodFound)
            },
            _ => Err(IntegrationError::NoMethodFound),
        },
        ExprView::Divide(num, den) => match (*den, *num) {
            (ExprView::Variable(v), ExprView::Constant(c)) => if c.is_one() && v == var {
                Ok(ExprView::Multiply(
                    Box::new(ExprView::Constant(Num::spec_one())),
                    Box::new(ExprView::Ln(Box::new(ExprView::Variable(var)))),
                ))
            } else {
                Err(IntegrationError::NoMethodFound)
            },
            _ => Err(IntegrationError::NoMethodFound),
        },
        ExprView::Sin(x) => match *x {
            ExprView::Variable(v) => if v == var {
                Ok(ExprView::Multiply(
                    Box::new(ExprView::Constant(Num::spec_int(-1i64))),
                    Box::new(ExprView::Cos(Box::new(ExprView::Variable(var)))),
                ))
            } else {
                Err(IntegrationError::NoMethodFound)
            },
            _ => Err(IntegrationError::NoMethodFound),
        },
        ExprView::Cos(x) => match *x {
            ExprView::Variable(v) => if v == var {
                Ok(ExprView::Sin(Box::new(ExprView::Variable(var))))
            } else {
                Err(IntegrationError::NoMethodFound)
            },
            _ => Err(IntegrationError::NoMethodFound),
        },
        ExprView::Tan(x) => match *x {
            ExprView::Variable(v) => if v == var {
                Ok(ExprView::Multiply(
                    Box::new(ExprView::Constant(Num::spec_int(-1i64))),
                    Box::new(ExprView::Ln(Box::new(ExprView::Cos(Box::new(
                        ExprView::Variable(var),
                    ))))),
                ))
            } else {
                Err(IntegrationError::NoMethodFound)
            },
            _ => Err(IntegrationError::NoMethodFound),
        },
        ExprView::Exp(x) => match *x {
            ExprView::Variable(v) => if v == var {
                Ok(ExprView::Exp(Box::new(ExprView::Variable(var))))
            } else {
                Err(IntegrationError::NoMethodFound)
            },
            _ => Err(IntegrationError::NoMethodFound),
        },
        ExprView::Ln(x) => match *x {
            ExprView::Variable(v) => if v == var {
                Ok(ExprView::Subtract(
                    Box::new(ExprView::Multiply(
                        Box::new(ExprView::Variable(var)),
                        Box::new(ExprView::Ln(Box::new(ExprView::Variable(var)))),
                    )),
                    Box::new(ExprView::Variable(var)),
                ))
            } else {
                Err(IntegrationError::NoMethodFound)
            },
            _ => Err(IntegrationError::NoMethodFound),
        },
        ExprView::Sinh(x) => match *x {
            ExprView::Variable(v) => if v == var {
                Ok(ExprView::Cosh(Box::new(ExprView::Variable(var))))
            } else {
                Err(IntegrationError::NoMethodFound)
            },
            _ => Err(IntegrationError::NoMethodFound),
        },
        ExprView::Cosh(x) => match *x {
            ExprView::Variable(v) => if v == var {
                Ok(ExprView::Sinh(Box::new(ExprView::Variable(var))))
            } else {
                Err(IntegrationError::NoMethodFound)
            },
            _ => Err(IntegrationError::NoMethodFound),
        },
        ExprView::Tanh(x) => match *x {
            ExprView::Variable(v) => if v == var {
                Ok(ExprView::Ln(Box::new(ExprView::Cosh(Box::new(
                    ExprView::Variable(var),
                )))))
            } else {
                Err(IntegrationError::NoMethodFound)
            },
            _ => Err(IntegrationError::NoMethodFound),
        },
        _ => Err(IntegrationError::NoMethodFound),
    }
}

/// The Direct strategy: closed-form antiderivatives needing no auxiliary
/// recursion beyond linear decomposition.  Sums and differences integrate
/// termwise through the engine with the same state; a constant factor is
/// pulled out; a root is rewritten as a power; the remaining forms are the
/// single closed-form rules of [`spec_direct_closed`].
pub open spec fn spec_try_direct(
    e: ExprView,
    var: Seq<char>,
    depth: int,
    max_depth: int,
    visited: Seq<ExprView>,
) -> Result<ExprView, IntegrationError>
    decreases max_depth - depth, wsize(e), 1int,
    via spec_try_direct_decreases
{
    match e {
        ExprView::Add(l, r) => match spec_integrate_with(*l, var, depth, max_depth, visited) {
            Ok(li) => match spec_integrate_with(*r, var, depth, max_depth, visited) {
                Ok(ri) => Ok(ExprView::Add(Box::new(li), Box::new(ri))),
                Err(x) => Err(x),
            },
            Err(x) => Err(x),
        },
        ExprView::Subtract(l, r) => match spec_integrate_with(
            *l,
            var,
            depth,
            max_depth,
            visited,
        ) {
            Ok(li) => match spec_integrate_with(*r, var, depth, max_depth, visited) {
                Ok(ri) => Ok(ExprView::Subtract(Box::new(li), Box::new(ri))),
                Err(x) => Err(x),
            },
            Err(x) => Err(x),
        },
        ExprView::Multiply(l, r) => match (*l, *r) {
            (ExprView::Constant(c), f) => match spec_integrate_with(
                f,
                var,
                depth,
                max_depth,
                visited,
            ) {
                Ok(fi) => Ok(ExprView::Multiply(
                    Box::new(ExprView::Constant(c)),
                    Box::new(fi),
                )),
                Err(x) => Err(x),
            },
            (f, ExprView::Constant(c)) => match spec_integrate_with(
                f,
                var,
                depth,
                max_depth,
                visited,
            ) {
                Ok(fi) => Ok(ExprView::Multiply(
                    Box::new(ExprView::Constant(c)),
                    Box::new(fi),
                )),
                Err(x) => Err(x),
            },
            (ExprView::Variable(n1), ExprView::Variable(n2)) => if n1 == n2 && n1 == var {
                Ok(ExprView::Divide(
                    Box::new(ExprView::Power(
                        Box::new(ExprView::Variable(n1)),
                        Box::new(ExprView::Constant(Num::spec_int(3))),
                    )),
                    Box::new(ExprView::Constant(Num::spec_int(3))),
                ))
            } else {
                Err(IntegrationError::NoMethodFound)
            },
            _ => Err(IntegrationError::NoMethodFound),
        },
        ExprView::Root(base, n) => spec_integrate_with(
            ExprView::Power(
                base,
                Box::new(ExprView::Divide(
                    Box::new(ExprView::Constant(Num::spec_one())),
                    n,
                )),
            ),
            var,
            depth,
            max_depth,
            visited,
        ),
        _ => spec_direct_closed(e, var),
    }
}

#[via_fn]
proof fn spec_try_direct_decreases(
    e: ExprView,
    var: Seq<char>,
    depth: int,
    max_depth: int,
    visited: Seq<ExprView>,
) {
    reveal_with_fuel(wsize, 5);
}

/// The ByParts strategy, for products only.  The factor with the lower
/// difficulty score is differentiated (`u`), the other integrated (`dv`);
/// the expression is pushed onto the visited stack around both recursive
/// integrations and the result is `u*v - integral(v*du)`.
pub open spec fn spec_try_by_parts(
    e: ExprView,
    var: Seq<char>,
    depth: int,
    max_depth: int,
    visited: Seq<ExprView>,
) -> Result<ExprView, IntegrationError>
    decreases max_depth - depth, wsize(e), 1int,
{
    match e {
        ExprView::Multiply(l, r) => if depth >= max_depth {
            Err(IntegrationError::MaxDepthExceeded)
        } else {
            let u = if spec_difficulty(*l) <= spec_difficulty(*r) { *l } else { *r };
            let dv = if spec_difficulty(*l) <= spec_difficulty(*r) { *r } else { *l };
            let pushed = visited.push(e);
            let du = spec_differentiate(u, var);
            match spec_integrate_with(dv, var, depth + 1, max_depth, pushed) {
                Ok(v) => match spec_integrate_with(
                    ExprView::Multiply(Box::new(v), Box::new(du)),
                    var,
                    depth + 1,
                    max_depth,
                    pushed,
                ) {
                    Ok(w) => Ok(ExprView::Subtract(
                        Box::new(ExprView::Multiply(Box::new(u), Box::new(v))),
                        Box::new(w),
                    )),
                    Err(x) => Err(x),
                },
                Err(x) => Err(x),
            }
        },
        _ => Err(IntegrationError::NoMethodFound),
    }
}

/// One engine step: prune by depth or cycle, consult the (inert) rule
/// table, then try Direct, ByParts and Substitution in that order.  A
/// `MaxDepthExceeded` from any strategy is final; any other failure falls
/// through to the next strategy, and when every strategy has failed the
/// engine reports `NoMethodFound`.
pub open spec fn spec_integrate_with(
    e: ExprView,
    var: Seq<char>,
    depth: int,
    max_depth: int,
    visited: Seq<ExprView>,
) -> Result<ExprView, IntegrationError>
    decreases max_depth - depth, wsize(e), 2int,
{
    if spec_prune_at(e, depth, max_depth, visited) {
        Err(IntegrationError::MaxDepthExceeded)
    } else {
        match spec_try_direct(e, var, depth, max_depth, visited) {
            Ok(r) => Ok(r),
            Err(IntegrationError::MaxDepthExceeded) => Err(IntegrationError::MaxDepthExceeded),
            Err(_) => match spec_try_by_parts(e, var, depth, max_depth, visited) {
                Ok(r) => Ok(r),
                Err(IntegrationError::MaxDepthExceeded) => Err(
                    IntegrationError::MaxDepthExceeded,
                ),
                Err(_) => match spec_try_substitution(e) {
                    Ok(r) => Ok(r),
                    Err(IntegrationError::MaxDepthExceeded) => Err(
                        IntegrationError::MaxDepthExceeded,
                    ),
                    Err(_) => Err(IntegrationError::NoMethodFound),
                },
            },
        }
    }
}

/// A whole integration attempt: a fresh state with the default depth
/// bound and an empty visited stack.
pub open spec fn spec_integrate(e: ExprView, var: Seq<char>) -> Result<
    ExprView,
    IntegrationError,
> {
    spec_integrate_with(e, var, 0, DEFAULT_MAX_DEPTH as int, Seq::<ExprView>::empty())
}

/// A pruned attempt reports the guard error and nothing else.
pub proof fn lemma_prune_reports_max_depth(
    e: ExprView,
    var: Seq<char>,
    depth: int,
    max_depth: int,
    visited: Seq<ExprView>,
)
    requires
        depth >= max_depth || exists|i: int|
            0 <= i < visited.len() && spec_similar(#[trigger] visited[i], e),
    ensures
        spec_integrate_with(e, var, depth, max_depth, visited) == Err::<
            ExprView,
            IntegrationError,
        >(IntegrationError::MaxDepthExceeded),
{
}

/// Decides [`spec_difficulty`] on a concrete tree.
fn difficulty(e: &Expression) -> (r: u32)
    ensures
        r as int == spec_difficulty(e@),
{
    match e {
        Expression::Constant(_) => 1,
        Expression::Variable(_) => 2,
        Expression::Add(_, _) => 3,
        Expression::Subtract(_, _) => 3,
        Expression::Multiply(_, _) => 4,
        Expression::Sin(_) => 4,
        Expression::Cos(_) => 4,
        Expression::Exp(_) => 4,
        Expression::Divide(_, _) => 5,
        Expression::Tan(_) => 5,
        Expression::Power(_, _) => 6,
        Expression::Ln(_) => 7,
        _ => 10,
    }
}

impl Expression {
    /// The symbolic antiderivative of this expression with respect to
    /// `var`, or the error saying why no closed form was found.  Failure
    /// is expected and common for complex shapes.
    pub fn integrate(&self, var: &str) -> (r: Result<Expression, IntegrationError>)
        requires
            wf_expr(self@),
        ensures
            integ_result_view(&r) == spec_integrate(self@, var@),
            r matches Ok(e) ==> wf_expr(e@),
    {
        let table = IntegrationTable::new();
        let mut state = IntegrationState::new(DEFAULT_MAX_DEPTH);
        self.integrate_with_state(var, &mut state, &table)
    }

    /// One engine step over an explicit state: prune, consult the table,
    /// then try each strategy in order.  The state comes back exactly as
    /// it went in, whatever the outcome.
    #[verifier::rlimit(50)]
    pub fn integrate_with_state(
        &self,
        var: &str,
        state: &mut IntegrationState,
        table: &IntegrationTable,
    ) -> (r: Result<Expression, IntegrationError>)
        requires
            wf_expr(self@),
        ensures
            final(state)@ == old(state)@,
            integ_result_view(&r) == spec_integrate_with(
                self@,
                var@,
                old(state)@.depth,
                old(state)@.max_depth,
                old(state)@.visited,
            ),
            r matches Ok(e) ==> wf_expr(e@),
        decreases state@.max_depth - state@.depth, wsize(self@), 2int,
    {
        let ghost s0 = state@;
        proof {
            state.lemma_view_bounds();
        }
        // Depth bound and cycle guard.
        if state.should_prune(self) {
            return Err(IntegrationError::MaxDepthExceeded);
        }
        proof {
            assert(s0.depth < s0.max_depth);
        }
        // Rule-table lookup; the inert matcher always falls through.
        match table.lookup(self, var) {
            Some(result) => {
                return result;
            }
            None => {}
        }
        // Direct strategy.
        let prev = state.get_method();
        state.set_method(IntegrationMethod::Direct);
        let direct = self.try_direct(var, state, table);
        state.set_method(prev);
        match direct {
            Ok(r) => {
                return Ok(r);
            }
            Err(IntegrationError::MaxDepthExceeded) => {
                return Err(IntegrationError::MaxDepthExceeded);
            }
            Err(_) => {}
        }
        // Integration by parts.
        state.set_method(IntegrationMethod::ByParts);
        let by_parts = self.try_by_parts(var, state, table);
        state.set_method(prev);
        match by_parts {
            Ok(r) => {
                return Ok(r);
            }
            Err(IntegrationError::MaxDepthExceeded) => {
                return Err(IntegrationError::MaxDepthExceeded);
            }
            Err(_) => {}
        }
        // Substitution (a stub).
        state.set_method(IntegrationMethod::Substitution);
        let sub = self.try_substitution();
        state.set_method(prev);
        match sub {
            Ok(r) => Ok(r),
            Err(IntegrationError::MaxDepthExceeded) => Err(IntegrationError::MaxDepthExceeded),
            Err(_) => Err(IntegrationError::NoMethodFound),
        }
    }

    /// The Direct strategy on concrete trees; see [`spec_try_direct`].
    fn try_direct(
        &self,
        var: &str,
        state: &mut IntegrationState,
        table: &IntegrationTable,
    ) -> (r: Result<Expression, IntegrationError>)
        requires
            wf_expr(self@),
        ensures
            final(state)@ == old(state)@,
            integ_result_view(&r) == spec_try_direct(
                self@,
                var@,
                old(state)@.depth,
                old(state)@.max_depth,
                old(state)@.visited,
            ),
            r matches Ok(e) ==> wf_expr(e@),
        decreases state@.max_depth - state@.depth, wsize(self@), 1int,
    {
        proof {
            reveal_with_fuel(wf_expr, 6);
            reveal_with_fuel(Expression::deep_view, 4);
        }
        match self {
            Expression::Add(left, right) => {
                // termwise, with the same state
                let left_int = match left.integrate_with_state(var, state, table) {
                    Ok(v) => v,
                    Err(x) => {
                        return Err(x);
                    }
                };
                let right_int = match right.integrate_with_state(var, state, table) {
                    Ok(v) => v,
                    Err(x) => {
                        return Err(x);
                    }
                };
                Ok(Expression::add(left_int, right_int))
            }
            Expression::Subtract(left, right) => {
                let left_int = match left.integrate_with_state(var, state, table) {
                    Ok(v) => v,
                    Err(x) => {
                        return Err(x);
                    }
                };
                let right_int = match right.integrate_with_state(var, state, table) {
                    Ok(v) => v,
                    Err(x) => {
                        return Err(x);
                    }
                };
                Ok(Expression::subtract(left_int, right_int))
            }
            Expression::Multiply(left, right) => {
                match (&**left, &**right) {
                    (Expression::Constant(c), _) => {
                        // integral of c*f dx = c * integral of f dx
                        match right.integrate_with_state(var, state, table) {
                            Ok(fi) => Ok(Expression::multiply(
                                Expression::constant(*c),
                                fi,
                            )),
                            Err(x) => Err(x),
                        }
                    }
                    (_, Expression::Constant(c)) => {
                        match left.integrate_with_state(var, state, table) {
                            Ok(fi) => Ok(Expression::multiply(
                                Expression::constant(*c),
                                fi,
                            )),
                            Err(x) => Err(x),
                        }
                    }
                    (Expression::Variable(n1), Expression::Variable(n2)) => {
                        proof {
                            lemma_int_wf(3);
                        }
                        if str_eq(n1.as_str(), n2.as_str()) && str_eq(n1.as_str(), var) {
                            // integral of x*x dx = x^3 / 3
                            Ok(Expression::divide(
                                Expression::power(
                                    Expression::variable(n1.as_str()),
                                    Expression::constant(Num::from_int(3)),
                                ),
                                Expression::constant(Num::from_int(3)),
                            ))
                        } else {
                            Err(IntegrationError::NoMethodFound)
                        }
                    }
                    _ => {
                        proof {
                            lemma_view_ctor(&**left);
                            lemma_view_ctor(&**right);
                        }
                        Err(IntegrationError::NoMethodFound)
                    }
                }
            }
            Expression::Root(base, n) => {
                // Rewrite the root as a power and integrate that.
                proof {
                    lemma_int_wf(1);
                }
                let power = Expression::divide(
                    Expression::constant(Num::from_int(1)),
                    n.dup(),
                );
                let rewritten = Expression::power(base.dup(), power);
                proof {
                    reveal_with_fuel(wsize, 5);
                    assert(wsize(rewritten@) < wsize(self@));
                    assert(wf_expr(rewritten@));
                }
                rewritten.integrate_with_state(var, state, table)
            }
            _ => {
                proof {
                    lemma_view_ctor(self);
                }
                self.direct_closed(var)
            }
        }
    }

    /// The one-step closed forms of the Direct strategy; see
    /// [`spec_direct_closed`].
    #[verifier::rlimit(100)]
    fn direct_closed(&self, var: &str) -> (r: Result<Expression, IntegrationError>)
        requires
            wf_expr(self@),
        ensures
            integ_result_view(&r) == spec_direct_closed(self@, var@),
            r matches Ok(e) ==> wf_expr(e@),
    {
        proof {
            reveal_with_fuel(wf_expr, 6);
            reveal_with_fuel(Expression::deep_view, 4);
        }
        match self {
            Expression::Constant(c) => {
                // integral of c dx = c*x
                Ok(Expression::multiply(
                    Expression::constant(*c),
                    Expression::variable(var),
                ))
            }
            Expression::Variable(name) => {
                proof {
                    lemma_int_wf(2);
                }
                if str_eq(name.as_str(), var) {
                    // integral of x dx = x^2 / 2
                    Ok(Expression::divide(
                        Expression::power(
                            Expression::variable(var),
                            Expression::constant(Num::from_int(2)),
                        ),
                        Expression::constant(Num::from_int(2)),
                    ))
                } else {
                    // integral of y dx = y*x for an unrelated variable
                    Ok(Expression::multiply(
                        Expression::variable(name.as_str()),
                        Expression::variable(var),
                    ))
                }
            }
            Expression::Power(base, exponent) => {
                match (&**base, &**exponent) {
                    (Expression::Variable(name), Expression::Constant(n)) => {
                        proof {
                            assert((**exponent)@ == ExprView::Constant(*n));
                            assert(n.wf());
                            lemma_int_wf(1);
                            lemma_spec_add_wf(*n, Num::spec_one());
                        }
                        if str_eq(name.as_str(), var) {
                            if !(n.num == -n.den && matches!(n.unit, NumUnit::One)) {
                                // integral of x^n dx = x^(n+1) / (n+1); the
                                // raised exponent stays symbolic when n+1
                                // has no exact constant
                                let raised = match n.checked_add(Num::from_int(1)) {
                                    Some(np1) => Expression::constant(np1),
                                    None => Expression::add(
                                        Expression::constant(*n),
                                        Expression::constant(Num::from_int(1)),
                                    ),
                                };
                                Ok(Expression::divide(
                                    Expression::power(
                                        Expression::variable(var),
                                        raised.dup(),
                                    ),
                                    raised,
                                ))
                            } else {
                                // integral of x^(-1) dx = ln(x)
                                Ok(Expression::ln(Expression::variable(var)))
                            }
                        } else {
                            Err(IntegrationError::NoMethodFound)
                        }
                    }
                    _ => {
                        proof {
                            lemma_view_ctor(&**base);
                            lemma_view_ctor(&**exponent);
                        }
                        Err(IntegrationError::NoMethodFound)
                    }
                }
            }
            Expression::Divide(num, den) => {
                match (&**den, &**num) {
                    (Expression::Variable(v), Expression::Constant(c)) => {
                        proof {
                            lemma_int_wf(1);
                        }
                        if c.num == c.den && matches!(c.unit, NumUnit::One)
                            && str_eq(v.as_str(), var) {
                            // integral of 1/x dx = ln(x)
                            Ok(Expression::multiply(
                                Expression::constant(Num::from_int(1)),
                                Expression::ln(Expression::variable(var)),
                            ))
                        } else {
                            Err(IntegrationError::NoMethodFound)
                        }
                    }
                    _ => {
                        proof {
                            lemma_view_ctor(&**den);
                            lemma_view_ctor(&**num);
                        }
                        Err(IntegrationError::NoMethodFound)
                    }
                }
            }
            Expression::Sin(x) => {
                match &**x {
                    Expression::Variable(v) => {
                        proof {
                            lemma_int_wf(-1i64);
                        }
                        if str_eq(v.as_str(), var) {
                            // integral of sin(x) dx = -cos(x)
                            Ok(Expression::multiply(
                                Expression::constant(Num::from_int(-1)),
                                Expression::cos(Expression::variable(var)),
                            ))
                        } else {
                            Err(IntegrationError::NoMethodFound)
                        }
                    }
                    _ => {
                        proof {
                            lemma_view_ctor(&**x);
                        }
                        Err(IntegrationError::NoMethodFound)
                    }
                }
            }
            Expression::Cos(x) => {
                match &**x {
                    Expression::Variable(v) => {
                        if str_eq(v.as_str(), var) {
                            // integral of cos(x) dx = sin(x)
                            Ok(Expression::sin(Expression::variable(var)))
                        } else {
                            Err(IntegrationError::NoMethodFound)
                        }
                    }
                    _ => {
                        proof {
                            lemma_view_ctor(&**x);
                        }
                        Err(IntegrationError::NoMethodFound)
                    }
                }
            }
            Expression::Tan(x) => {
                match &**x {
                    Expression::Variable(v) => {
                        proof {
                            lemma_int_wf(-1i64);
                        }
                        if str_eq(v.as_str(), var) {
                            // integral of tan(x) dx = -ln(cos(x))
                            Ok(Expression::multiply(
                                Expression::constant(Num::from_int(-1)),
                                Expression::ln(Expression::cos(Expression::variable(var))),
                            ))
                        } else {
                            Err(IntegrationError::NoMethodFound)
                        }
                    }
                    _ => {
                        proof {
                            lemma_view_ctor(&**x);
                        }
                        Err(IntegrationError::NoMethodFound)
                    }
                }
            }
            Expression::Exp(x) => {
                match &**x {
                    Expression::Variable(v) => {
                        if str_eq(v.as_str(), var) {
                            // integral of e^x dx = e^x
                            Ok(Expression::exp(Expression::variable(var)))
                        } else {
                            Err(IntegrationError::NoMethodFound)
                        }
                    }
                    _ => {
                        proof {
                            lemma_view_ctor(&**x);
                        }
                        Err(IntegrationError::NoMethodFound)
                    }
                }
            }
            Expression::Ln(x) => {
                match &**x {
                    Expression::Variable(v) => {
                        if str_eq(v.as_str(), var) {
                            // integral of ln(x) dx = x*ln(x) - x
                            Ok(Expression::subtract(
                                Expression::multiply(
                                    Expression::variable(var),
                                    Expression::ln(Expression::variable(var)),
                                ),
                                Expression::variable(var),
                            ))
                        } else {
                            Err(IntegrationError::NoMethodFound)
                        }
                    }
                    _ => {
                        proof {
                            lemma_view_ctor(&**x);
                        }
                        Err(IntegrationError::NoMethodFound)
                    }
                }
            }
            Expression::Sinh(x) => {
                match &**x {
                    Expression::Variable(v) => {
                        if str_eq(v.as_str(), var) {
                            // integral of sinh(x) dx = cosh(x)
                            Ok(Expression::cosh(Expression::variable(var)))
                        } else {
                            Err(IntegrationError::NoMethodFound)
                        }
                    }
                    _ => {
                        proof {
                            lemma_view_ctor(&**x);
                        }
                        Err(IntegrationError::NoMethodFound)
                    }
                }
            }
            Expression::Cosh(x) => {
                match &**x {
                    Expression::Variable(v) => {
                        if str_eq(v.as_str(), var) {
                            // integral of cosh(x) dx = sinh(x)
                            Ok(Expression::sinh(Expression::variable(var)))
                        } else {
                            Err(IntegrationError::NoMethodFound)
                        }
                    }
                    _ => {
                        proof {
                            lemma_view_ctor(&**x);
                        }
                        Err(IntegrationError::NoMethodFound)
                    }
                }
            }
            Expression::Tanh(x) => {
                match &**x {
                    Expression::Variable(v) => {
                        if str_eq(v.as_str(), var) {
                            // integral of tanh(x) dx = ln(cosh(x))
                            Ok(Expression::ln(Expression::cosh(Expression::variable(var))))
                        } else {
                            Err(IntegrationError::NoMethodFound)
                        }
                    }
                    _ => {
                        proof {
                            lemma_view_ctor(&**x);
                        }
                        Err(IntegrationError::NoMethodFound)
                    }
                }
            }
            _ => {
                proof {
                    lemma_view_ctor(self);
                }
                Err(IntegrationError::NoMethodFound)
            }
        }
    }

    /// The ByParts strategy on concrete trees; see [`spec_try_by_parts`].
    #[verifier::rlimit(60)]
    fn try_by_parts(
        &self,
        var: &str,
        state: &mut IntegrationState,
        table: &IntegrationTable,
    ) -> (r: Result<Expression, IntegrationError>)
        requires
            wf_expr(self@),
            old(state)@.depth < old(state)@.max_depth,
            old(state)@.depth < usize::MAX,
        ensures
            final(state)@ == old(state)@,
            integ_result_view(&r) == spec_try_by_parts(
                self@,
                var@,
                old(state)@.depth,
                old(state)@.max_depth,
                old(state)@.visited,
            ),
            r matches Ok(e) ==> wf_expr(e@),
        decreases state@.max_depth - state@.depth, wsize(self@), 1int,
    {
        let ghost s0 = state@;
        proof {
            state.lemma_view_bounds();
        }
        match self {
            Expression::Multiply(left, right) => {
                // The easier factor is differentiated, the other integrated.
                let left_first = difficulty(left) <= difficulty(right);
                let u: &Expression = if left_first { left } else { right };
                let dv: &Expression = if left_first { right } else { left };
                state.push_expression(self.dup());
                let ghost s1 = state@;
                proof {
                    assert(s1.visited == s0.visited.push(self@));
                    assert(s1.visited.len() == s0.visited.len() + 1);
                    assert(s1.visited.drop_last() =~= s0.visited);
                    lemma_differentiate_wf(u@, var@);
                }
                let du = u.differentiate(var);
                let v = match dv.integrate_with_state(var, state, table) {
                    Ok(v) => v,
                    Err(x) => {
                        state.pop_expression();
                        proof {
                            assert(state@.visited == s1.visited.drop_last());
                            assert(state@ =~= s0);
                        }
                        return Err(x);
                    }
                };
                let v_du = Expression::multiply(v.dup(), du);
                let w = match v_du.integrate_with_state(var, state, table) {
                    Ok(w) => w,
                    Err(x) => {
                        state.pop_expression();
                        proof {
                            assert(state@.visited == s1.visited.drop_last());
                            assert(state@ =~= s0);
                        }
                        return Err(x);
                    }
                };
                state.pop_expression();
                proof {
                    assert(state@.visited == s1.visited.drop_last());
                    assert(state@ =~= s0);
                    reveal_with_fuel(wf_expr, 4);
                    assert(wf_expr(u@));
                }
                Ok(Expression::subtract(Expression::multiply(u.dup(), v), w))
            }
            _ => Err(IntegrationError::NoMethodFound),
        }
    }

    /// The Substitution strategy: an explicit stub.  Detecting an inner
    /// expression whose derivative appears as a factor, rewriting, and
    /// substituting back is not implemented; the stub reports that rather
    /// than returning a wrong answer.
    fn try_substitution(&self) -> (r: Result<Expression, IntegrationError>)
        ensures
            integ_result_view(&r) == spec_try_substitution(self@),
    {
        Err(IntegrationError::NotImplemented)
    }
}

/// Integration by parts is cut off by the cycle guard: when the factor to
/// be integrated (`dv`, the harder one by the difficulty score) is similar
/// to the product being expanded — the regenerating case — or to anything
/// already on the visited stack, the whole attempt reports
/// `MaxDepthExceeded` instead of expanding further.
pub proof fn lemma_by_parts_cycle_guard(
    e: ExprView,
    var: Seq<char>,
    depth: int,
    max_depth: int,
    visited: Seq<ExprView>,
)
    requires
        depth < max_depth,
        e matches ExprView::Multiply(l, r) && ({
            let dv = if spec_difficulty(*l) <= spec_difficulty(*r) {
                *r
            } else {
                *l
            };
            spec_similar(e, dv) || exists|i: int|
                0 <= i < visited.len() && spec_similar(#[trigger] visited[i], dv)
        }),
    ensures
        spec_try_by_parts(e, var, depth, max_depth, visited) == Err::<
            ExprView,
            IntegrationError,
        >(IntegrationError::MaxDepthExceeded),
{
    match e {
        ExprView::Multiply(l, r) => {
            let dv = if spec_difficulty(*l) <= spec_difficulty(*r) {
                *r
            } else {
                *l
            };
            let pushed = visited.push(e);
            if spec_similar(e, dv) {
                assert(pushed[visited.len() as int] == e);
                assert(spec_similar(pushed[visited.len() as int], dv));
            } else {
                let i = choose|i: int|
                    0 <= i < visited.len() && spec_similar(#[trigger] visited[i], dv);
                assert(pushed[i] == visited[i]);
                assert(spec_similar(pushed[i], dv));
            }
            lemma_prune_reports_max_depth(dv, var, depth + 1, max_depth, pushed);
        },
        _ => {},
    }
}

/// The cycle guard seen from the whole engine: when pruning does not fire
/// at entry, the Direct strategy fails with anything short of the guard
/// error, and the factor by-parts would integrate is similar to the
/// product being expanded or to anything already on the visited stack,
/// the engine's answer is exactly `MaxDepthExceeded` — a regenerating
/// expansion is reported, never pursued.
pub proof fn lemma_engine_cycle_guard(
    e: ExprView,
    var: Seq<char>,
    depth: int,
    max_depth: int,
    visited: Seq<ExprView>,
)
    requires
        !spec_prune_at(e, depth, max_depth, visited),
        depth < max_depth,
        spec_try_direct(e, var, depth, max_depth, visited) matches Err(err)
            && err != IntegrationError::MaxDepthExceeded,
        e matches ExprView::Multiply(l, r) && ({
            let dv = if spec_difficulty(*l) <= spec_difficulty(*r) {
                *r
            } else {
                *l
            };
            spec_similar(e, dv) || exists|i: int|
                0 <= i < visited.len() && spec_similar(#[trigger] visited[i], dv)
        }),
    ensures
        spec_integrate_with(e, var, depth, max_depth, visited) == Err::<
            ExprView,
            IntegrationError,
        >(IntegrationError::MaxDepthExceeded),
{
    lemma_by_parts_cycle_guard(e, var, depth, max_depth, visited);
}

} // verus!
