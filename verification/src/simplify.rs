//! Simplification: a total, pure, bottom-up normalization pass.
//!
//! Children are simplified first; then a fixed rule for the parent node
//! fires at most once.  Identities (`x+0`, `x*1`, `x*0`, `0/x`, `x/1`),
//! exact constant folding, shallow like-term folding on identical variable
//! leaves, the elimination of `Root` in favour of `Power`, and exact special
//! values of the transcendental functions are all applied here.  Folds whose
//! exact value has no representation as a constant (mixed irrational units,
//! fractional exponents, word overflow) leave the node unchanged.

use vstd::prelude::*;
use crate::expression::{Expression, ExprView, wsize, wf_expr, str_eq};
use crate::num::{
    Num, NumUnit, spec_add, spec_sub, spec_mul, spec_div, spec_pow,
    lemma_int_wf, lemma_unit_frac_wf,
    lemma_spec_add_wf, lemma_spec_sub_wf, lemma_spec_mul_wf, lemma_spec_div_wf,
    lemma_spec_pow_wf,
};

verus! {

/// The one-step rule for a sum whose children are already simplified.
pub open spec fn add_rules(l: ExprView, r: ExprView) -> ExprView {
    match (l, r) {
        (ExprView::Constant(c1), ExprView::Constant(c2)) => if c1.is_zero() {
            r
        } else if c2.is_zero() {
            l
        } else {
            match spec_add(c1, c2) {
                Some(v) => ExprView::Constant(v),
                None => ExprView::Add(Box::new(l), Box::new(r)),
            }
        },
        (ExprView::Constant(c1), _) => if c1.is_zero() {
            r
        } else {
            ExprView::Add(Box::new(l), Box::new(r))
        },
        (_, ExprView::Constant(c2)) => if c2.is_zero() {
            l
        } else {
            ExprView::Add(Box::new(l), Box::new(r))
        },
        (ExprView::Variable(v1), ExprView::Variable(v2)) => if v1 == v2 {
            ExprView::Multiply(Box::new(ExprView::Constant(Num::spec_int(2))), Box::new(ExprView::Variable(v1)))
        } else {
            ExprView::Add(Box::new(l), Box::new(r))
        },
        _ => ExprView::Add(Box::new(l), Box::new(r)),
    }
}

/// The one-step rule for a difference whose children are already simplified.
pub open spec fn sub_rules(l: ExprView, r: ExprView) -> ExprView {
    match (l, r) {
        (ExprView::Constant(c1), ExprView::Constant(c2)) => if c2.is_zero() {
            l
        } else {
            match spec_sub(c1, c2) {
                Some(v) => ExprView::Constant(v),
                None => ExprView::Subtract(Box::new(l), Box::new(r)),
            }
        },
        (_, ExprView::Constant(c2)) => if c2.is_zero() {
            l
        } else {
            ExprView::Subtract(Box::new(l), Box::new(r))
        },
        (ExprView::Variable(v1), ExprView::Variable(v2)) => if v1 == v2 {
            ExprView::Constant(Num::spec_zero())
        } else {
            ExprView::Subtract(Box::new(l), Box::new(r))
        },
        _ => ExprView::Subtract(Box::new(l), Box::new(r)),
    }
}

/// The one-step rule for a product whose children are already simplified.
pub open spec fn mul_rules(l: ExprView, r: ExprView) -> ExprView {
    match (l, r) {
        (ExprView::Constant(c1), ExprView::Constant(c2)) => if c1.is_zero() || c2.is_zero() {
            ExprView::Constant(Num::spec_zero())
        } else if c1.is_one() {
            r
        } else if c2.is_one() {
            l
        } else {
            match spec_mul(c1, c2) {
                Some(v) => ExprView::Constant(v),
                None => ExprView::Multiply(Box::new(l), Box::new(r)),
            }
        },
        (ExprView::Constant(c1), _) => if c1.is_zero() {
            ExprView::Constant(Num::spec_zero())
        } else if c1.is_one() {
            r
        } else {
            ExprView::Multiply(Box::new(l), Box::new(r))
        },
        (_, ExprView::Constant(c2)) => if c2.is_zero() {
            ExprView::Constant(Num::spec_zero())
        } else if c2.is_one() {
            l
        } else {
            ExprView::Multiply(Box::new(l), Box::new(r))
        },
        (ExprView::Variable(v1), ExprView::Variable(v2)) => if v1 == v2 {
            ExprView::Power(Box::new(ExprView::Variable(v1)), Box::new(ExprView::Constant(Num::spec_int(2))))
        } else {
            ExprView::Multiply(Box::new(l), Box::new(r))
        },
        _ => ExprView::Multiply(Box::new(l), Box::new(r)),
    }
}

/// The one-step rule for a quotient whose children are already simplified.
pub open spec fn div_rules(l: ExprView, r: ExprView) -> ExprView {
    match (l, r) {
        (ExprView::Constant(c1), ExprView::Constant(c2)) => if c1.is_zero() {
            ExprView::Constant(Num::spec_zero())
        } else if c2.is_one() {
            l
        } else {
            match spec_div(c1, c2) {
                Some(v) => ExprView::Constant(v),
                None => ExprView::Divide(Box::new(l), Box::new(r)),
            }
        },
        (ExprView::Constant(c1), _) => if c1.is_zero() {
            ExprView::Constant(Num::spec_zero())
        } else {
            ExprView::Divide(Box::new(l), Box::new(r))
        },
        (_, ExprView::Constant(c2)) => if c2.is_one() {
            l
        } else {
            ExprView::Divide(Box::new(l), Box::new(r))
        },
        (ExprView::Variable(v1), ExprView::Variable(v2)) => if v1 == v2 {
            ExprView::Constant(Num::spec_one())
        } else {
            ExprView::Divide(Box::new(l), Box::new(r))
        },
        _ => ExprView::Divide(Box::new(l), Box::new(r)),
    }
}

/// The one-step rule for a power whose children are already simplified.
pub open spec fn pow_rules(l: ExprView, r: ExprView) -> ExprView {
    match (l, r) {
        (ExprView::Constant(c), ExprView::Constant(n)) => if n.is_zero() {
            ExprView::Constant(Num::spec_one())
        } else if n.is_one() {
            l
        } else if c.is_zero() && n.is_pos() {
            ExprView::Constant(Num::spec_zero())
        } else if c.is_one() {
            ExprView::Constant(Num::spec_one())
        } else {
            match spec_pow(c, n) {
                Some(v) => ExprView::Constant(v),
                None => ExprView::Power(Box::new(l), Box::new(r)),
            }
        },
        (ExprView::Constant(c), _) => if c.is_one() {
            ExprView::Constant(Num::spec_one())
        } else {
            ExprView::Power(Box::new(l), Box::new(r))
        },
        (_, ExprView::Constant(n)) => if n.is_zero() {
            ExprView::Constant(Num::spec_one())
        } else if n.is_one() {
            l
        } else {
            ExprView::Power(Box::new(l), Box::new(r))
        },
        _ => ExprView::Power(Box::new(l), Box::new(r)),
    }
}

/// The one-step rule for a logarithm whose children are already simplified.
pub open spec fn log_rules(l: ExprView, r: ExprView) -> ExprView {
    match (l, r) {
        (ExprView::Constant(b), ExprView::Constant(x)) => if x.is_one() {
            ExprView::Constant(Num::spec_zero())
        } else if x == b {
            ExprView::Constant(Num::spec_one())
        } else {
            ExprView::Log(Box::new(l), Box::new(r))
        },
        _ => ExprView::Log(Box::new(l), Box::new(r)),
    }
}

/// The one-step rule for `sin` of an already simplified argument.
pub open spec fn sin_rules(x: ExprView) -> ExprView {
    match x {
        ExprView::Constant(c) => {
            if c.is_zero() {
                ExprView::Constant(Num::spec_zero())
            } else {
                ExprView::Sin(Box::new(x))
            }
        },
        _ => ExprView::Sin(Box::new(x)),
    }
}

/// The one-step rule for `cos` of an already simplified argument.
pub open spec fn cos_rules(x: ExprView) -> ExprView {
    match x {
        ExprView::Constant(c) => {
            if c.is_zero() {
                ExprView::Constant(Num::spec_one())
            } else {
                ExprView::Cos(Box::new(x))
            }
        },
        _ => ExprView::Cos(Box::new(x)),
    }
}

/// The one-step rule for `tan` of an already simplified argument.
pub open spec fn tan_rules(x: ExprView) -> ExprView {
    match x {
        ExprView::Constant(c) => {
            if c.is_zero() {
                ExprView::Constant(Num::spec_zero())
            } else {
                ExprView::Tan(Box::new(x))
            }
        },
        _ => ExprView::Tan(Box::new(x)),
    }
}

/// The one-step rule for `arcsin` of an already simplified argument.
pub open spec fn arcsin_rules(x: ExprView) -> ExprView {
    match x {
        ExprView::Constant(c) => {
            if c.is_zero() {
                ExprView::Constant(Num::spec_zero())
            } else if c.is_one() {
                ExprView::Constant(Num { num: 1, den: 2, unit: NumUnit::Pi })
            } else if c.is_neg_one() {
                ExprView::Constant(Num { num: -1i64, den: 2, unit: NumUnit::Pi })
            } else {
                ExprView::Arcsin(Box::new(x))
            }
        },
        _ => ExprView::Arcsin(Box::new(x)),
    }
}

/// The one-step rule for `arccos` of an already simplified argument.
pub open spec fn arccos_rules(x: ExprView) -> ExprView {
    match x {
        ExprView::Constant(c) => {
            if c.is_one() {
                ExprView::Constant(Num::spec_zero())
            } else if c.is_neg_one() {
                ExprView::Constant(Num { num: 1, den: 1, unit: NumUnit::Pi })
            } else if c.is_zero() {
                ExprView::Constant(Num { num: 1, den: 2, unit: NumUnit::Pi })
            } else {
                ExprView::Arccos(Box::new(x))
            }
        },
        _ => ExprView::Arccos(Box::new(x)),
    }
}

/// The one-step rule for `arctan` of an already simplified argument.
pub open spec fn arctan_rules(x: ExprView) -> ExprView {
    match x {
        ExprView::Constant(c) => {
            if c.is_zero() {
                ExprView::Constant(Num::spec_zero())
            } else if c.is_one() {
                ExprView::Constant(Num { num: 1, den: 4, unit: NumUnit::Pi })
            } else if c.is_neg_one() {
                ExprView::Constant(Num { num: -1i64, den: 4, unit: NumUnit::Pi })
            } else {
                ExprView::Arctan(Box::new(x))
            }
        },
        _ => ExprView::Arctan(Box::new(x)),
    }
}

/// The one-step rule for `sinh` of an already simplified argument.
pub open spec fn sinh_rules(x: ExprView) -> ExprView {
    match x {
        ExprView::Constant(c) => {
            if c.is_zero() {
                ExprView::Constant(Num::spec_zero())
            } else {
                ExprView::Sinh(Box::new(x))
            }
        },
        _ => ExprView::Sinh(Box::new(x)),
    }
}

/// The one-step rule for `cosh` of an already simplified argument.
pub open spec fn cosh_rules(x: ExprView) -> ExprView {
    match x {
        ExprView::Constant(c) => {
            if c.is_zero() {
                ExprView::Constant(Num::spec_one())
            } else {
                ExprView::Cosh(Box::new(x))
            }
        },
        _ => ExprView::Cosh(Box::new(x)),
    }
}

/// The one-step rule for `tanh` of an already simplified argument.
pub open spec fn tanh_rules(x: ExprView) -> ExprView {
    match x {
        ExprView::Constant(c) => {
            if c.is_zero() {
                ExprView::Constant(Num::spec_zero())
            } else {
                ExprView::Tanh(Box::new(x))
            }
        },
        _ => ExprView::Tanh(Box::new(x)),
    }
}

/// The one-step rule for `exp` of an already simplified argument, including
/// the structural cancellation `exp(ln(x)) = x`.
pub open spec fn exp_rules(x: ExprView) -> ExprView {
    match x {
        ExprView::Constant(c) => if c.is_zero() {
            ExprView::Constant(Num::spec_one())
        } else if c.is_one() {
            ExprView::Constant(Num { num: 1, den: 1, unit: NumUnit::Euler })
        } else {
            ExprView::Exp(Box::new(x))
        },
        ExprView::Ln(inner) => *inner,
        _ => ExprView::Exp(Box::new(x)),
    }
}

/// The one-step rule for `ln` of an already simplified argument, including
/// the structural cancellation `ln(exp(x)) = x`.
pub open spec fn ln_rules(x: ExprView) -> ExprView {
    match x {
        ExprView::Constant(c) => if c.is_one() {
            ExprView::Constant(Num::spec_zero())
        } else if c.is_euler() {
            ExprView::Constant(Num::spec_one())
        } else {
            ExprView::Ln(Box::new(x))
        },
        ExprView::Exp(inner) => *inner,
        _ => ExprView::Ln(Box::new(x)),
    }
}

/// The simplified form of `e`: children first, then one parent rule.
/// `Root` never survives: it is rewritten as a power of a reciprocal and
/// the power and quotient rules are applied to the rewritten node.
pub open spec fn spec_simplify(e: ExprView) -> ExprView
    decreases e,
{
    match e {
        ExprView::Constant(_) => e,
        ExprView::Variable(_) => e,
        ExprView::Add(l, r) => add_rules(spec_simplify(*l), spec_simplify(*r)),
        ExprView::Subtract(l, r) => sub_rules(spec_simplify(*l), spec_simplify(*r)),
        ExprView::Multiply(l, r) => mul_rules(spec_simplify(*l), spec_simplify(*r)),
        ExprView::Divide(l, r) => div_rules(spec_simplify(*l), spec_simplify(*r)),
        ExprView::Power(l, r) => pow_rules(spec_simplify(*l), spec_simplify(*r)),
        ExprView::Root(l, r) => pow_rules(
            spec_simplify(*l),
            div_rules(ExprView::Constant(Num::spec_one()), spec_simplify(*r)),
        ),
        ExprView::Log(l, r) => log_rules(spec_simplify(*l), spec_simplify(*r)),
        ExprView::Sin(x) => sin_rules(spec_simplify(*x)),
        ExprView::Cos(x) => cos_rules(spec_simplify(*x)),
        ExprView::Tan(x) => tan_rules(spec_simplify(*x)),
        ExprView::Arcsin(x) => arcsin_rules(spec_simplify(*x)),
        ExprView::Arccos(x) => arccos_rules(spec_simplify(*x)),
        ExprView::Arctan(x) => arctan_rules(spec_simplify(*x)),
        ExprView::Exp(x) => exp_rules(spec_simplify(*x)),
        ExprView::Ln(x) => ln_rules(spec_simplify(*x)),
        ExprView::Sinh(x) => sinh_rules(spec_simplify(*x)),
        ExprView::Cosh(x) => cosh_rules(spec_simplify(*x)),
        ExprView::Tanh(x) => tanh_rules(spec_simplify(*x)),
    }
}

/// An expression is in normal form when all of its subtrees are and no
/// rule changes it.  `Root` is never normal: simplification removes it.
pub open spec fn is_normal(e: ExprView) -> bool
    decreases e,
{
    match e {
        ExprView::Constant(_) => true,
        ExprView::Variable(_) => true,
        ExprView::Add(l, r) => is_normal(*l) && is_normal(*r)
            && add_rules(*l, *r) == e,
        ExprView::Subtract(l, r) => is_normal(*l) && is_normal(*r)
            && sub_rules(*l, *r) == e,
        ExprView::Multiply(l, r) => is_normal(*l) && is_normal(*r)
            && mul_rules(*l, *r) == e,
        ExprView::Divide(l, r) => is_normal(*l) && is_normal(*r)
            && div_rules(*l, *r) == e,
        ExprView::Power(l, r) => is_normal(*l) && is_normal(*r)
            && pow_rules(*l, *r) == e,
        ExprView::Root(_, _) => false,
        ExprView::Log(l, r) => is_normal(*l) && is_normal(*r)
            && log_rules(*l, *r) == e,
        ExprView::Sin(x) => is_normal(*x) && sin_rules(*x) == e,
        ExprView::Cos(x) => is_normal(*x) && cos_rules(*x) == e,
        ExprView::Tan(x) => is_normal(*x) && tan_rules(*x) == e,
        ExprView::Arcsin(x) => is_normal(*x) && arcsin_rules(*x) == e,
        ExprView::Arccos(x) => is_normal(*x) && arccos_rules(*x) == e,
        ExprView::Arctan(x) => is_normal(*x) && arctan_rules(*x) == e,
        ExprView::Exp(x) => is_normal(*x) && exp_rules(*x) == e,
        ExprView::Ln(x) => is_normal(*x) && ln_rules(*x) == e,
        ExprView::Sinh(x) => is_normal(*x) && sinh_rules(*x) == e,
        ExprView::Cosh(x) => is_normal(*x) && cosh_rules(*x) == e,
        ExprView::Tanh(x) => is_normal(*x) && tanh_rules(*x) == e,
    }
}


/// The `add` rule preserves normal form, never grows the tree beyond the
/// node it builds, and keeps constants normalized.
proof fn lemma_add_rules_props(l: ExprView, r: ExprView)
    requires
        is_normal(l),
        is_normal(r),
    ensures
        is_normal(add_rules(l, r)),
        wsize(add_rules(l, r)) <= 1 + wsize(l) + wsize(r),
        wf_expr(l) && wf_expr(r) ==> wf_expr(add_rules(l, r)),
{
    reveal_with_fuel(is_normal, 4);
    reveal_with_fuel(wsize, 4);
    reveal_with_fuel(wf_expr, 4);
    lemma_int_wf(0);
    lemma_int_wf(1);
    lemma_int_wf(2);
    if wf_expr(l) && wf_expr(r) {
        match (l, r) {
            (ExprView::Constant(c1), ExprView::Constant(c2)) => {
                lemma_spec_add_wf(c1, c2);
            }
            _ => {}
        }
    }
}

/// The `sub` rule preserves normal form, never grows the tree beyond the
/// node it builds, and keeps constants normalized.
proof fn lemma_sub_rules_props(l: ExprView, r: ExprView)
    requires
        is_normal(l),
        is_normal(r),
    ensures
        is_normal(sub_rules(l, r)),
        wsize(sub_rules(l, r)) <= 1 + wsize(l) + wsize(r),
        wf_expr(l) && wf_expr(r) ==> wf_expr(sub_rules(l, r)),
{
    reveal_with_fuel(is_normal, 4);
    reveal_with_fuel(wsize, 4);
    reveal_with_fuel(wf_expr, 4);
    lemma_int_wf(0);
    lemma_int_wf(1);
    lemma_int_wf(2);
    if wf_expr(l) && wf_expr(r) {
        match (l, r) {
            (ExprView::Constant(c1), ExprView::Constant(c2)) => {
                lemma_spec_sub_wf(c1, c2);
            }
            _ => {}
        }
    }
}

/// The `mul` rule preserves normal form, never grows the tree beyond the
/// node it builds, and keeps constants normalized.
proof fn lemma_mul_rules_props(l: ExprView, r: ExprView)
    requires
        is_normal(l),
        is_normal(r),
    ensures
        is_normal(mul_rules(l, r)),
        wsize(mul_rules(l, r)) <= 1 + wsize(l) + wsize(r),
        wf_expr(l) && wf_expr(r) ==> wf_expr(mul_rules(l, r)),
{
    reveal_with_fuel(is_normal, 4);
    reveal_with_fuel(wsize, 4);
    reveal_with_fuel(wf_expr, 4);
    lemma_int_wf(0);
    lemma_int_wf(1);
    lemma_int_wf(2);
    if wf_expr(l) && wf_expr(r) {
        match (l, r) {
            (ExprView::Constant(c1), ExprView::Constant(c2)) => {
                lemma_spec_mul_wf(c1, c2);
            }
            _ => {}
        }
    }
}

/// The `div` rule preserves normal form, never grows the tree beyond the
/// node it builds, and keeps constants normalized.
proof fn lemma_div_rules_props(l: ExprView, r: ExprView)
    requires
        is_normal(l),
        is_normal(r),
    ensures
        is_normal(div_rules(l, r)),
        wsize(div_rules(l, r)) <= 1 + wsize(l) + wsize(r),
        wf_expr(l) && wf_expr(r) ==> wf_expr(div_rules(l, r)),
{
    reveal_with_fuel(is_normal, 4);
    reveal_with_fuel(wsize, 4);
    reveal_with_fuel(wf_expr, 4);
    lemma_int_wf(0);
    lemma_int_wf(1);
    lemma_int_wf(2);
    if wf_expr(l) && wf_expr(r) {
        match (l, r) {
            (ExprView::Constant(c1), ExprView::Constant(c2)) => {
                lemma_spec_div_wf(c1, c2);
            }
            _ => {}
        }
    }
}

/// The `pow` rule preserves normal form, never grows the tree beyond the
/// node it builds, and keeps constants normalized.
proof fn lemma_pow_rules_props(l: ExprView, r: ExprView)
    requires
        is_normal(l),
        is_normal(r),
    ensures
        is_normal(pow_rules(l, r)),
        wsize(pow_rules(l, r)) <= 1 + wsize(l) + wsize(r),
        wf_expr(l) && wf_expr(r) ==> wf_expr(pow_rules(l, r)),
{
    reveal_with_fuel(is_normal, 4);
    reveal_with_fuel(wsize, 4);
    reveal_with_fuel(wf_expr, 4);
    lemma_int_wf(0);
    lemma_int_wf(1);
    lemma_int_wf(2);
    if wf_expr(l) && wf_expr(r) {
        match (l, r) {
            (ExprView::Constant(c1), ExprView::Constant(c2)) => {
                lemma_spec_pow_wf(c1, c2);
            }
            _ => {}
        }
    }
}

/// The `log` rule preserves normal form, never grows the tree beyond the
/// node it builds, and keeps constants normalized.
proof fn lemma_log_rules_props(l: ExprView, r: ExprView)
    requires
        is_normal(l),
        is_normal(r),
    ensures
        is_normal(log_rules(l, r)),
        wsize(log_rules(l, r)) <= 1 + wsize(l) + wsize(r),
        wf_expr(l) && wf_expr(r) ==> wf_expr(log_rules(l, r)),
{
    reveal_with_fuel(is_normal, 4);
    reveal_with_fuel(wsize, 4);
    reveal_with_fuel(wf_expr, 4);
    lemma_int_wf(0);
    lemma_int_wf(1);
    lemma_int_wf(2);
}

/// The `sin` rule preserves normal form, never grows the tree beyond the
/// node it builds, and keeps constants normalized.
proof fn lemma_sin_rules_props(x: ExprView)
    requires
        is_normal(x),
    ensures
        is_normal(sin_rules(x)),
        wsize(sin_rules(x)) <= 1 + wsize(x),
        wf_expr(x) ==> wf_expr(sin_rules(x)),
{
    reveal_with_fuel(is_normal, 4);
    reveal_with_fuel(wsize, 4);
    reveal_with_fuel(wf_expr, 4);
    lemma_int_wf(0);
    lemma_int_wf(1);
}

/// The `cos` rule preserves normal form, never grows the tree beyond the
/// node it builds, and keeps constants normalized.
proof fn lemma_cos_rules_props(x: ExprView)
    requires
        is_normal(x),
    ensures
        is_normal(cos_rules(x)),
        wsize(cos_rules(x)) <= 1 + wsize(x),
        wf_expr(x) ==> wf_expr(cos_rules(x)),
{
    reveal_with_fuel(is_normal, 4);
    reveal_with_fuel(wsize, 4);
    reveal_with_fuel(wf_expr, 4);
    lemma_int_wf(0);
    lemma_int_wf(1);
}

/// The `tan` rule preserves normal form, never grows the tree beyond the
/// node it builds, and keeps constants normalized.
proof fn lemma_tan_rules_props(x: ExprView)
    requires
        is_normal(x),
    ensures
        is_normal(tan_rules(x)),
        wsize(tan_rules(x)) <= 1 + wsize(x),
        wf_expr(x) ==> wf_expr(tan_rules(x)),
{
    reveal_with_fuel(is_normal, 4);
    reveal_with_fuel(wsize, 4);
    reveal_with_fuel(wf_expr, 4);
    lemma_int_wf(0);
    lemma_int_wf(1);
}

/// The `arcsin` rule preserves normal form, never grows the tree beyond the
/// node it builds, and keeps constants normalized.
proof fn lemma_arcsin_rules_props(x: ExprView)
    requires
        is_normal(x),
    ensures
        is_normal(arcsin_rules(x)),
        wsize(arcsin_rules(x)) <= 1 + wsize(x),
        wf_expr(x) ==> wf_expr(arcsin_rules(x)),
{
    reveal_with_fuel(is_normal, 4);
    reveal_with_fuel(wsize, 4);
    reveal_with_fuel(wf_expr, 4);
    lemma_int_wf(0);
    lemma_int_wf(1);
    lemma_unit_frac_wf(1, 2, NumUnit::Pi);
    lemma_unit_frac_wf(-1i64, 2, NumUnit::Pi);
}

/// The `arccos` rule preserves normal form, never grows the tree beyond the
/// node it builds, and keeps constants normalized.
proof fn lemma_arccos_rules_props(x: ExprView)
    requires
        is_normal(x),
    ensures
        is_normal(arccos_rules(x)),
        wsize(arccos_rules(x)) <= 1 + wsize(x),
        wf_expr(x) ==> wf_expr(arccos_rules(x)),
{
    reveal_with_fuel(is_normal, 4);
    reveal_with_fuel(wsize, 4);
    reveal_with_fuel(wf_expr, 4);
    lemma_int_wf(0);
    lemma_int_wf(1);
    lemma_unit_frac_wf(1, 1, NumUnit::Pi);
    lemma_unit_frac_wf(1, 2, NumUnit::Pi);
}

/// The `arctan` rule preserves normal form, never grows the tree beyond the
/// node it builds, and keeps constants normalized.
proof fn lemma_arctan_rules_props(x: ExprView)
    requires
        is_normal(x),
    ensures
        is_normal(arctan_rules(x)),
        wsize(arctan_rules(x)) <= 1 + wsize(x),
        wf_expr(x) ==> wf_expr(arctan_rules(x)),
{
    reveal_with_fuel(is_normal, 4);
    reveal_with_fuel(wsize, 4);
    reveal_with_fuel(wf_expr, 4);
    lemma_int_wf(0);
    lemma_int_wf(1);
    lemma_unit_frac_wf(1, 4, NumUnit::Pi);
    lemma_unit_frac_wf(-1i64, 4, NumUnit::Pi);
}

/// The `exp` rule preserves normal form, never grows the tree beyond the
/// node it builds, and keeps constants normalized.
proof fn lemma_exp_rules_props(x: ExprView)
    requires
        is_normal(x),
    ensures
        is_normal(exp_rules(x)),
        wsize(exp_rules(x)) <= 1 + wsize(x),
        wf_expr(x) ==> wf_expr(exp_rules(x)),
{
    reveal_with_fuel(is_normal, 4);
    reveal_with_fuel(wsize, 4);
    reveal_with_fuel(wf_expr, 4);
    lemma_int_wf(0);
    lemma_int_wf(1);
    lemma_unit_frac_wf(1, 1, NumUnit::Euler);
}

/// The `ln` rule preserves normal form, never grows the tree beyond the
/// node it builds, and keeps constants normalized.
proof fn lemma_ln_rules_props(x: ExprView)
    requires
        is_normal(x),
    ensures
        is_normal(ln_rules(x)),
        wsize(ln_rules(x)) <= 1 + wsize(x),
        wf_expr(x) ==> wf_expr(ln_rules(x)),
{
    reveal_with_fuel(is_normal, 4);
    reveal_with_fuel(wsize, 4);
    reveal_with_fuel(wf_expr, 4);
    lemma_int_wf(0);
    lemma_int_wf(1);
}

/// The `sinh` rule preserves normal form, never grows the tree beyond the
/// node it builds, and keeps constants normalized.
proof fn lemma_sinh_rules_props(x: ExprView)
    requires
        is_normal(x),
    ensures
        is_normal(sinh_rules(x)),
        wsize(sinh_rules(x)) <= 1 + wsize(x),
        wf_expr(x) ==> wf_expr(sinh_rules(x)),
{
    reveal_with_fuel(is_normal, 4);
    reveal_with_fuel(wsize, 4);
    reveal_with_fuel(wf_expr, 4);
    lemma_int_wf(0);
    lemma_int_wf(1);
}

/// The `cosh` rule preserves normal form, never grows the tree beyond the
/// node it builds, and keeps constants normalized.
proof fn lemma_cosh_rules_props(x: ExprView)
    requires
        is_normal(x),
    ensures
        is_normal(cosh_rules(x)),
        wsize(cosh_rules(x)) <= 1 + wsize(x),
        wf_expr(x) ==> wf_expr(cosh_rules(x)),
{
    reveal_with_fuel(is_normal, 4);
    reveal_with_fuel(wsize, 4);
    reveal_with_fuel(wf_expr, 4);
    lemma_int_wf(0);
    lemma_int_wf(1);
}

/// The `tanh` rule preserves normal form, never grows the tree beyond the
/// node it builds, and keeps constants normalized.
proof fn lemma_tanh_rules_props(x: ExprView)
    requires
        is_normal(x),
    ensures
        is_normal(tanh_rules(x)),
        wsize(tanh_rules(x)) <= 1 + wsize(x),
        wf_expr(x) ==> wf_expr(tanh_rules(x)),
{
    reveal_with_fuel(is_normal, 4);
    reveal_with_fuel(wsize, 4);
    reveal_with_fuel(wf_expr, 4);
    lemma_int_wf(0);
    lemma_int_wf(1);
}

/// Simplification always lands in normal form, never grows the tree, and
/// keeps every constant normalized.
pub proof fn lemma_simplify_props(e: ExprView)
    ensures
        is_normal(spec_simplify(e)),
        wsize(spec_simplify(e)) <= wsize(e),
        wf_expr(e) ==> wf_expr(spec_simplify(e)),
    decreases e,
{
    reveal_with_fuel(wsize, 4);
    reveal_with_fuel(wf_expr, 4);
    match e {
        ExprView::Constant(_) => {},
        ExprView::Variable(_) => {},
        ExprView::Add(l, r) => {
            lemma_simplify_props(*l);
            lemma_simplify_props(*r);
            lemma_add_rules_props(spec_simplify(*l), spec_simplify(*r));
        },
        ExprView::Subtract(l, r) => {
            lemma_simplify_props(*l);
            lemma_simplify_props(*r);
            lemma_sub_rules_props(spec_simplify(*l), spec_simplify(*r));
        },
        ExprView::Multiply(l, r) => {
            lemma_simplify_props(*l);
            lemma_simplify_props(*r);
            lemma_mul_rules_props(spec_simplify(*l), spec_simplify(*r));
        },
        ExprView::Divide(l, r) => {
            lemma_simplify_props(*l);
            lemma_simplify_props(*r);
            lemma_div_rules_props(spec_simplify(*l), spec_simplify(*r));
        },
        ExprView::Power(l, r) => {
            lemma_simplify_props(*l);
            lemma_simplify_props(*r);
            lemma_pow_rules_props(spec_simplify(*l), spec_simplify(*r));
        },
        ExprView::Root(l, r) => {
            lemma_simplify_props(*l);
            lemma_simplify_props(*r);
            lemma_int_wf(1);
            lemma_div_rules_props(ExprView::Constant(Num::spec_one()), spec_simplify(*r));
            lemma_pow_rules_props(
                spec_simplify(*l),
                div_rules(ExprView::Constant(Num::spec_one()), spec_simplify(*r)),
            );
        },
        ExprView::Log(l, r) => {
            lemma_simplify_props(*l);
            lemma_simplify_props(*r);
            lemma_log_rules_props(spec_simplify(*l), spec_simplify(*r));
        },
        ExprView::Sin(x) => {
            lemma_simplify_props(*x);
            lemma_sin_rules_props(spec_simplify(*x));
        },
        ExprView::Cos(x) => {
            lemma_simplify_props(*x);
            lemma_cos_rules_props(spec_simplify(*x));
        },
        ExprView::Tan(x) => {
            lemma_simplify_props(*x);
            lemma_tan_rules_props(spec_simplify(*x));
        },
        ExprView::Arcsin(x) => {
            lemma_simplify_props(*x);
            lemma_arcsin_rules_props(spec_simplify(*x));
        },
        ExprView::Arccos(x) => {
            lemma_simplify_props(*x);
            lemma_arccos_rules_props(spec_simplify(*x));
        },
        ExprView::Arctan(x) => {
            lemma_simplify_props(*x);
            lemma_arctan_rules_props(spec_simplify(*x));
        },
        ExprView::Exp(x) => {
            lemma_simplify_props(*x);
            lemma_exp_rules_props(spec_simplify(*x));
        },
        ExprView::Ln(x) => {
            lemma_simplify_props(*x);
            lemma_ln_rules_props(spec_simplify(*x));
        },
        ExprView::Sinh(x) => {
            lemma_simplify_props(*x);
            lemma_sinh_rules_props(spec_simplify(*x));
        },
        ExprView::Cosh(x) => {
            lemma_simplify_props(*x);
            lemma_cosh_rules_props(spec_simplify(*x));
        },
        ExprView::Tanh(x) => {
            lemma_simplify_props(*x);
            lemma_tanh_rules_props(spec_simplify(*x));
        },
    }
}

/// Simplification does not touch an expression already in normal form.
pub proof fn lemma_normal_simplify_id(e: ExprView)
    requires
        is_normal(e),
    ensures
        spec_simplify(e) == e,
    decreases e,
{
    match e {
        ExprView::Constant(_) => {},
        ExprView::Variable(_) => {},
        ExprView::Add(l, r) => {
            lemma_normal_simplify_id(*l);
            lemma_normal_simplify_id(*r);
        },
        ExprView::Subtract(l, r) => {
            lemma_normal_simplify_id(*l);
            lemma_normal_simplify_id(*r);
        },
        ExprView::Multiply(l, r) => {
            lemma_normal_simplify_id(*l);
            lemma_normal_simplify_id(*r);
        },
        ExprView::Divide(l, r) => {
            lemma_normal_simplify_id(*l);
            lemma_normal_simplify_id(*r);
        },
        ExprView::Power(l, r) => {
            lemma_normal_simplify_id(*l);
            lemma_normal_simplify_id(*r);
        },
        ExprView::Root(_, _) => {},
        ExprView::Log(l, r) => {
            lemma_normal_simplify_id(*l);
            lemma_normal_simplify_id(*r);
        },
        ExprView::Sin(x) => {
            lemma_normal_simplify_id(*x);
        },
        ExprView::Cos(x) => {
            lemma_normal_simplify_id(*x);
        },
        ExprView::Tan(x) => {
            lemma_normal_simplify_id(*x);
        },
        ExprView::Arcsin(x) => {
            lemma_normal_simplify_id(*x);
        },
        ExprView::Arccos(x) => {
            lemma_normal_simplify_id(*x);
        },
        ExprView::Arctan(x) => {
            lemma_normal_simplify_id(*x);
        },
        ExprView::Exp(x) => {
            lemma_normal_simplify_id(*x);
        },
        ExprView::Ln(x) => {
            lemma_normal_simplify_id(*x);
        },
        ExprView::Sinh(x) => {
            lemma_normal_simplify_id(*x);
        },
        ExprView::Cosh(x) => {
            lemma_normal_simplify_id(*x);
        },
        ExprView::Tanh(x) => {
            lemma_normal_simplify_id(*x);
        },
    }
}

/// Simplification is idempotent: a second pass changes nothing.
pub proof fn lemma_simplify_idempotent(e: ExprView)
    ensures
        spec_simplify(spec_simplify(e)) == spec_simplify(e),
{
    lemma_simplify_props(e);
    lemma_normal_simplify_id(spec_simplify(e));
}



/// Applies the sum rule to two already simplified operands.
fn apply_add(l2: Expression, r2: Expression) -> (r: Expression)
    requires
        wf_expr(l2@),
        wf_expr(r2@),
    ensures
        r@ == add_rules(l2@, r2@),
{
    match (&l2, &r2) {
        (Expression::Constant(c1), Expression::Constant(c2)) => {
            let a: Num = *c1;
            let b: Num = *c2;
            if a.num == 0 {
                r2
            } else if b.num == 0 {
                l2
            } else {
                match a.checked_add(b) {
                    Some(v) => Expression::constant(v),
                    None => Expression::add(l2, r2),
                }
            }
        }
        (Expression::Constant(c1), _) => {
            let a: Num = *c1;
            if a.num == 0 {
                r2
            } else {
                Expression::add(l2, r2)
            }
        }
        (_, Expression::Constant(c2)) => {
            let b: Num = *c2;
            if b.num == 0 {
                l2
            } else {
                Expression::add(l2, r2)
            }
        }
        (Expression::Variable(v1), Expression::Variable(v2)) => {
            if str_eq(v1.as_str(), v2.as_str()) {
                // x + x = 2 * x
                Expression::multiply(
                    Expression::constant(Num::from_int(2)),
                    Expression::variable(v1.as_str()),
                )
            } else {
                Expression::add(l2, r2)
            }
        }
        _ => Expression::add(l2, r2),
    }
}

/// Applies the difference rule to two already simplified operands.
fn apply_sub(l2: Expression, r2: Expression) -> (r: Expression)
    requires
        wf_expr(l2@),
        wf_expr(r2@),
    ensures
        r@ == sub_rules(l2@, r2@),
{
    match (&l2, &r2) {
        (Expression::Constant(c1), Expression::Constant(c2)) => {
            let a: Num = *c1;
            let b: Num = *c2;
            if b.num == 0 {
                l2
            } else {
                match a.checked_sub(b) {
                    Some(v) => Expression::constant(v),
                    None => Expression::subtract(l2, r2),
                }
            }
        }
        (_, Expression::Constant(c2)) => {
            let b: Num = *c2;
            if b.num == 0 {
                l2
            } else {
                Expression::subtract(l2, r2)
            }
        }
        (Expression::Variable(v1), Expression::Variable(v2)) => {
            if str_eq(v1.as_str(), v2.as_str()) {
                // x - x = 0
                Expression::constant(Num::from_int(0))
            } else {
                Expression::subtract(l2, r2)
            }
        }
        _ => Expression::subtract(l2, r2),
    }
}

/// Applies the product rule to two already simplified operands.
fn apply_mul(l2: Expression, r2: Expression) -> (r: Expression)
    requires
        wf_expr(l2@),
        wf_expr(r2@),
    ensures
        r@ == mul_rules(l2@, r2@),
{
    match (&l2, &r2) {
        (Expression::Constant(c1), Expression::Constant(c2)) => {
            let a: Num = *c1;
            let b: Num = *c2;
            if a.num == 0 || b.num == 0 {
                Expression::constant(Num::from_int(0))
            } else if a.num == a.den && matches!(a.unit, NumUnit::One) {
                r2
            } else if b.num == b.den && matches!(b.unit, NumUnit::One) {
                l2
            } else {
                match a.checked_mul(b) {
                    Some(v) => Expression::constant(v),
                    None => Expression::multiply(l2, r2),
                }
            }
        }
        (Expression::Constant(c1), _) => {
            let a: Num = *c1;
            if a.num == 0 {
                Expression::constant(Num::from_int(0))
            } else if a.num == a.den && matches!(a.unit, NumUnit::One) {
                r2
            } else {
                Expression::multiply(l2, r2)
            }
        }
        (_, Expression::Constant(c2)) => {
            let b: Num = *c2;
            if b.num == 0 {
                Expression::constant(Num::from_int(0))
            } else if b.num == b.den && matches!(b.unit, NumUnit::One) {
                l2
            } else {
                Expression::multiply(l2, r2)
            }
        }
        (Expression::Variable(v1), Expression::Variable(v2)) => {
            if str_eq(v1.as_str(), v2.as_str()) {
                // x * x = x^2
                Expression::power(
                    Expression::variable(v1.as_str()),
                    Expression::constant(Num::from_int(2)),
                )
            } else {
                Expression::multiply(l2, r2)
            }
        }
        _ => Expression::multiply(l2, r2),
    }
}

/// Applies the quotient rule to two already simplified operands.
fn apply_div(l2: Expression, r2: Expression) -> (r: Expression)
    requires
        wf_expr(l2@),
        wf_expr(r2@),
    ensures
        r@ == div_rules(l2@, r2@),
{
    match (&l2, &r2) {
        (Expression::Constant(c1), Expression::Constant(c2)) => {
            let a: Num = *c1;
            let b: Num = *c2;
            if a.num == 0 {
                Expression::constant(Num::from_int(0))
            } else if b.num == b.den && matches!(b.unit, NumUnit::One) {
                l2
            } else {
                match a.checked_div(b) {
                    Some(v) => Expression::constant(v),
                    None => Expression::divide(l2, r2),
                }
            }
        }
        (Expression::Constant(c1), _) => {
            let a: Num = *c1;
            if a.num == 0 {
                Expression::constant(Num::from_int(0))
            } else {
                Expression::divide(l2, r2)
            }
        }
        (_, Expression::Constant(c2)) => {
            let b: Num = *c2;
            if b.num == b.den && matches!(b.unit, NumUnit::One) {
                l2
            } else {
                Expression::divide(l2, r2)
            }
        }
        (Expression::Variable(v1), Expression::Variable(v2)) => {
            if str_eq(v1.as_str(), v2.as_str()) {
                // x / x = 1
                Expression::constant(Num::from_int(1))
            } else {
                Expression::divide(l2, r2)
            }
        }
        _ => Expression::divide(l2, r2),
    }
}

/// Applies the power rule to two already simplified operands.
fn apply_pow(l2: Expression, r2: Expression) -> (r: Expression)
    requires
        wf_expr(l2@),
        wf_expr(r2@),
    ensures
        r@ == pow_rules(l2@, r2@),
{
    match (&l2, &r2) {
        (Expression::Constant(c1), Expression::Constant(c2)) => {
            let a: Num = *c1;
            let b: Num = *c2;
            if b.num == 0 {
                // x^0 = 1
                Expression::constant(Num::from_int(1))
            } else if b.num == b.den && matches!(b.unit, NumUnit::One) {
                // x^1 = x
                l2
            } else if a.num == 0 && b.num > 0 {
                // 0^n = 0 for n > 0
                Expression::constant(Num::from_int(0))
            } else if a.num == a.den && matches!(a.unit, NumUnit::One) {
                // 1^n = 1
                Expression::constant(Num::from_int(1))
            } else {
                match a.checked_pow(b) {
                    Some(v) => Expression::constant(v),
                    None => Expression::power(l2, r2),
                }
            }
        }
        (Expression::Constant(c1), _) => {
            let a: Num = *c1;
            if a.num == a.den && matches!(a.unit, NumUnit::One) {
                Expression::constant(Num::from_int(1))
            } else {
                Expression::power(l2, r2)
            }
        }
        (_, Expression::Constant(c2)) => {
            let b: Num = *c2;
            if b.num == 0 {
                Expression::constant(Num::from_int(1))
            } else if b.num == b.den && matches!(b.unit, NumUnit::One) {
                l2
            } else {
                Expression::power(l2, r2)
            }
        }
        _ => Expression::power(l2, r2),
    }
}

/// Applies the logarithm rule to two already simplified operands.
fn apply_log(l2: Expression, r2: Expression) -> (r: Expression)
    ensures
        r@ == log_rules(l2@, r2@),
{
    match (&l2, &r2) {
        (Expression::Constant(c1), Expression::Constant(c2)) => {
            let b: Num = *c1;
            let a: Num = *c2;
            if a.num == a.den && matches!(a.unit, NumUnit::One) {
                // log_b(1) = 0
                Expression::constant(Num::from_int(0))
            } else if a == b {
                // log_b(b) = 1
                Expression::constant(Num::from_int(1))
            } else {
                Expression::log(l2, r2)
            }
        }
        _ => Expression::log(l2, r2),
    }
}

/// Applies the sine rule to an already simplified argument.
fn apply_sin(x: Expression) -> (r: Expression)
    ensures
        r@ == sin_rules(x@),
{
    match x {
        Expression::Constant(c) => {
            if c.num == 0 {
                // sin(0) = 0
                Expression::constant(Num::from_int(0))
            } else {
                Expression::sin(Expression::constant(c))
            }
        }
        other => Expression::sin(other),
    }
}

/// Applies the cosine rule to an already simplified argument.
fn apply_cos(x: Expression) -> (r: Expression)
    ensures
        r@ == cos_rules(x@),
{
    match x {
        Expression::Constant(c) => {
            if c.num == 0 {
                // cos(0) = 1
                Expression::constant(Num::from_int(1))
            } else {
                Expression::cos(Expression::constant(c))
            }
        }
        other => Expression::cos(other),
    }
}

/// Applies the tangent rule to an already simplified argument.
fn apply_tan(x: Expression) -> (r: Expression)
    ensures
        r@ == tan_rules(x@),
{
    match x {
        Expression::Constant(c) => {
            if c.num == 0 {
                // tan(0) = 0
                Expression::constant(Num::from_int(0))
            } else {
                Expression::tan(Expression::constant(c))
            }
        }
        other => Expression::tan(other),
    }
}

/// Applies the arcsine rule to an already simplified argument.
fn apply_arcsin(x: Expression) -> (r: Expression)
    requires
        wf_expr(x@),
    ensures
        r@ == arcsin_rules(x@),
{
    match x {
        Expression::Constant(c) => {
            proof {
                lemma_unit_frac_wf(1, 2, NumUnit::Pi);
                lemma_unit_frac_wf(-1i64, 2, NumUnit::Pi);
            }
            if c.num == 0 {
                // arcsin(0) = 0
                Expression::constant(Num::from_int(0))
            } else if c.num == c.den && matches!(c.unit, NumUnit::One) {
                // arcsin(1) = pi/2
                Expression::constant(Num::scaled(1, 2, NumUnit::Pi))
            } else if c.num == -c.den && matches!(c.unit, NumUnit::One) {
                // arcsin(-1) = -pi/2
                Expression::constant(Num::scaled(-1, 2, NumUnit::Pi))
            } else {
                Expression::arcsin(Expression::constant(c))
            }
        }
        other => Expression::arcsin(other),
    }
}

/// Applies the arccosine rule to an already simplified argument.
fn apply_arccos(x: Expression) -> (r: Expression)
    requires
        wf_expr(x@),
    ensures
        r@ == arccos_rules(x@),
{
    match x {
        Expression::Constant(c) => {
            proof {
                lemma_unit_frac_wf(1, 1, NumUnit::Pi);
                lemma_unit_frac_wf(1, 2, NumUnit::Pi);
            }
            if c.num == c.den && matches!(c.unit, NumUnit::One) {
                // arccos(1) = 0
                Expression::constant(Num::from_int(0))
            } else if c.num == -c.den && matches!(c.unit, NumUnit::One) {
                // arccos(-1) = pi
                Expression::constant(Num::scaled(1, 1, NumUnit::Pi))
            } else if c.num == 0 {
                // arccos(0) = pi/2
                Expression::constant(Num::scaled(1, 2, NumUnit::Pi))
            } else {
                Expression::arccos(Expression::constant(c))
            }
        }
        other => Expression::arccos(other),
    }
}

/// Applies the arctangent rule to an already simplified argument.
fn apply_arctan(x: Expression) -> (r: Expression)
    requires
        wf_expr(x@),
    ensures
        r@ == arctan_rules(x@),
{
    match x {
        Expression::Constant(c) => {
            proof {
                lemma_unit_frac_wf(1, 4, NumUnit::Pi);
                lemma_unit_frac_wf(-1i64, 4, NumUnit::Pi);
            }
            if c.num == 0 {
                // arctan(0) = 0
                Expression::constant(Num::from_int(0))
            } else if c.num == c.den && matches!(c.unit, NumUnit::One) {
                // arctan(1) = pi/4
                Expression::constant(Num::scaled(1, 4, NumUnit::Pi))
            } else if c.num == -c.den && matches!(c.unit, NumUnit::One) {
                // arctan(-1) = -pi/4
                Expression::constant(Num::scaled(-1, 4, NumUnit::Pi))
            } else {
                Expression::arctan(Expression::constant(c))
            }
        }
        other => Expression::arctan(other),
    }
}

/// Applies the hyperbolic sine rule to an already simplified argument.
fn apply_sinh(x: Expression) -> (r: Expression)
    ensures
        r@ == sinh_rules(x@),
{
    match x {
        Expression::Constant(c) => {
            if c.num == 0 {
                // sinh(0) = 0
                Expression::constant(Num::from_int(0))
            } else {
                Expression::sinh(Expression::constant(c))
            }
        }
        other => Expression::sinh(other),
    }
}

/// Applies the hyperbolic cosine rule to an already simplified argument.
fn apply_cosh(x: Expression) -> (r: Expression)
    ensures
        r@ == cosh_rules(x@),
{
    match x {
        Expression::Constant(c) => {
            if c.num == 0 {
                // cosh(0) = 1
                Expression::constant(Num::from_int(1))
            } else {
                Expression::cosh(Expression::constant(c))
            }
        }
        other => Expression::cosh(other),
    }
}

/// Applies the hyperbolic tangent rule to an already simplified argument.
fn apply_tanh(x: Expression) -> (r: Expression)
    ensures
        r@ == tanh_rules(x@),
{
    match x {
        Expression::Constant(c) => {
            if c.num == 0 {
                // tanh(0) = 0
                Expression::constant(Num::from_int(0))
            } else {
                Expression::tanh(Expression::constant(c))
            }
        }
        other => Expression::tanh(other),
    }
}

/// Rewrites an already simplified root as a power of a reciprocal and
/// simplifies the rewritten node.
fn apply_root(l2: Expression, r2: Expression) -> (r: Expression)
    requires
        wf_expr(l2@),
        wf_expr(r2@),
        is_normal(l2@),
        is_normal(r2@),
    ensures
        r@ == pow_rules(l2@, div_rules(ExprView::Constant(Num::spec_one()), r2@)),
    decreases 3 + wsize(l2@) + wsize(r2@), 1int,
{
    proof {
        reveal_with_fuel(wsize, 5);
        reveal_with_fuel(wf_expr, 5);
        lemma_int_wf(1);
        lemma_normal_simplify_id(l2@);
        lemma_normal_simplify_id(r2@);
    }
    let ghost lv = l2@;
    let ghost rv = r2@;
    let rebuilt = Expression::power(
        l2,
        Expression::divide(Expression::constant(Num::from_int(1)), r2),
    );
    proof {
        reveal_with_fuel(spec_simplify, 3);
        assert(wf_expr(rebuilt@));
        assert(spec_simplify(ExprView::Constant(Num::spec_one()))
            == ExprView::Constant(Num::spec_one()));
        assert(spec_simplify(rebuilt@) == pow_rules(
            spec_simplify(lv),
            div_rules(ExprView::Constant(Num::spec_one()), spec_simplify(rv)),
        ));
    }
    rebuilt.simplify()
}

/// Applies the exponential rule to an already simplified argument,
/// including the structural cancellation `exp(ln(u)) = u`.
fn apply_exp(x: Expression) -> (r: Expression)
    requires
        wf_expr(x@),
        is_normal(x@),
    ensures
        r@ == exp_rules(x@),
    decreases wsize(x@), 1int,
{
    match x {
        Expression::Constant(c) => {
            proof {
                lemma_unit_frac_wf(1, 1, NumUnit::Euler);
            }
            if c.num == 0 {
                // e^0 = 1
                Expression::constant(Num::from_int(1))
            } else if c.num == c.den && matches!(c.unit, NumUnit::One) {
                // e^1 = e
                Expression::constant(Num::scaled(1, 1, NumUnit::Euler))
            } else {
                Expression::exp(Expression::constant(c))
            }
        }
        Expression::Ln(inner) => {
            // e^(ln(u)) = u
            proof {
                reveal_with_fuel(wsize, 3);
                lemma_normal_simplify_id((*inner)@);
            }
            inner.simplify()
        }
        other => Expression::exp(other),
    }
}

/// Applies the natural-logarithm rule to an already simplified argument,
/// including the structural cancellation `ln(exp(u)) = u`.
fn apply_ln(x: Expression) -> (r: Expression)
    requires
        wf_expr(x@),
        is_normal(x@),
    ensures
        r@ == ln_rules(x@),
    decreases wsize(x@), 1int,
{
    match x {
        Expression::Constant(c) => {
            if c.num == c.den && matches!(c.unit, NumUnit::One) {
                // ln(1) = 0
                Expression::constant(Num::from_int(0))
            } else if c.num == c.den && matches!(c.unit, NumUnit::Euler) {
                // ln(e) = 1
                Expression::constant(Num::from_int(1))
            } else {
                Expression::ln(Expression::constant(c))
            }
        }
        Expression::Exp(inner) => {
            // ln(e^u) = u
            proof {
                reveal_with_fuel(wsize, 3);
                lemma_normal_simplify_id((*inner)@);
            }
            inner.simplify()
        }
        other => Expression::ln(other),
    }
}

impl Expression {
    /// The simplified form of this expression.
    ///
    /// Total and pure: when no rule applies the expression comes back
    /// unchanged.  The result is always in normal form, so simplifying a
    /// second time changes nothing.
    pub fn simplify(&self) -> (r: Expression)
        requires
            wf_expr(self@),
        ensures
            r@ == spec_simplify(self@),
            wf_expr(r@),
            is_normal(r@),
        decreases wsize(self@), 0int,
    {
        proof {
            lemma_simplify_props(self@);
        }
        match self {
            Expression::Constant(c) => Expression::Constant(*c),
            Expression::Variable(name) => Expression::Variable(name.clone()),
            Expression::Add(left, right) => {
                apply_add(left.simplify(), right.simplify())
            }
            Expression::Subtract(left, right) => {
                apply_sub(left.simplify(), right.simplify())
            }
            Expression::Multiply(left, right) => {
                apply_mul(left.simplify(), right.simplify())
            }
            Expression::Divide(left, right) => {
                apply_div(left.simplify(), right.simplify())
            }
            Expression::Power(base, exponent) => {
                apply_pow(base.simplify(), exponent.simplify())
            }
            Expression::Root(base, n) => {
                proof {
                    lemma_simplify_props((**base)@);
                    lemma_simplify_props((**n)@);
                }
                apply_root(base.simplify(), n.simplify())
            }
            Expression::Log(base, x) => {
                apply_log(base.simplify(), x.simplify())
            }
            Expression::Sin(x) => apply_sin(x.simplify()),
            Expression::Cos(x) => apply_cos(x.simplify()),
            Expression::Tan(x) => apply_tan(x.simplify()),
            Expression::Arcsin(x) => apply_arcsin(x.simplify()),
            Expression::Arccos(x) => apply_arccos(x.simplify()),
            Expression::Arctan(x) => apply_arctan(x.simplify()),
            Expression::Exp(x) => {
                proof {
                    lemma_simplify_props((**x)@);
                }
                apply_exp(x.simplify())
            }
            Expression::Ln(x) => {
                proof {
                    lemma_simplify_props((**x)@);
                }
                apply_ln(x.simplify())
            }
            Expression::Sinh(x) => apply_sinh(x.simplify()),
            Expression::Cosh(x) => apply_cosh(x.simplify()),
            Expression::Tanh(x) => apply_tanh(x.simplify()),
        }
    }
}

} // verus!
