//! The expression data model: a finite, immutable algebraic tree.
//!
//! Every other component consumes and produces these trees.  Sub-expressions
//! are exclusively owned by their parent, transformations build new trees,
//! and equality is structural.

use vstd::prelude::*;
use vstd::string::{StrSliceExecFns, StringExecFns};
use crate::num::{Num, NumUnit};

verus! {

/// The shape of an expression, with variable names as plain character
/// sequences: the specification-level mirror of [`Expression`].
pub enum ExprView {
    Constant(Num),
    Variable(Seq<char>),
    Add(Box<ExprView>, Box<ExprView>),
    Subtract(Box<ExprView>, Box<ExprView>),
    Multiply(Box<ExprView>, Box<ExprView>),
    Divide(Box<ExprView>, Box<ExprView>),
    Power(Box<ExprView>, Box<ExprView>),
    Root(Box<ExprView>, Box<ExprView>),
    Sin(Box<ExprView>),
    Cos(Box<ExprView>),
    Tan(Box<ExprView>),
    Arcsin(Box<ExprView>),
    Arccos(Box<ExprView>),
    Arctan(Box<ExprView>),
    Exp(Box<ExprView>),
    Ln(Box<ExprView>),
    Log(Box<ExprView>, Box<ExprView>),
    Sinh(Box<ExprView>),
    Cosh(Box<ExprView>),
    Tanh(Box<ExprView>),
}

/// An algebraic expression: constants, named variables, the binary
/// arithmetic forms, and the unary and binary transcendental functions.
#[derive(Debug, PartialEq)]
pub enum Expression {
    Constant(Num),
    Variable(String),
    Add(Box<Expression>, Box<Expression>),
    Subtract(Box<Expression>, Box<Expression>),
    Multiply(Box<Expression>, Box<Expression>),
    Divide(Box<Expression>, Box<Expression>),
    Power(Box<Expression>, Box<Expression>),
    Root(Box<Expression>, Box<Expression>),
    Sin(Box<Expression>),
    Cos(Box<Expression>),
    Tan(Box<Expression>),
    Arcsin(Box<Expression>),
    Arccos(Box<Expression>),
    Arctan(Box<Expression>),
    Exp(Box<Expression>),
    Ln(Box<Expression>),
    Log(Box<Expression>, Box<Expression>),
    Sinh(Box<Expression>),
    Cosh(Box<Expression>),
    Tanh(Box<Expression>),
}

impl Expression {
    /// The shape this tree stands for.
    pub open spec fn deep_view(self) -> ExprView
        decreases self,
    {
        match self {
            Expression::Constant(c) => ExprView::Constant(c),
            Expression::Variable(s) => ExprView::Variable(s@),
            Expression::Add(l, r) => ExprView::Add(Box::new((*l).deep_view()), Box::new((*r).deep_view())),
            Expression::Subtract(l, r) => ExprView::Subtract(Box::new((*l).deep_view()), Box::new((*r).deep_view())),
            Expression::Multiply(l, r) => ExprView::Multiply(Box::new((*l).deep_view()), Box::new((*r).deep_view())),
            Expression::Divide(l, r) => ExprView::Divide(Box::new((*l).deep_view()), Box::new((*r).deep_view())),
            Expression::Power(l, r) => ExprView::Power(Box::new((*l).deep_view()), Box::new((*r).deep_view())),
            Expression::Root(l, r) => ExprView::Root(Box::new((*l).deep_view()), Box::new((*r).deep_view())),
            Expression::Log(l, r) => ExprView::Log(Box::new((*l).deep_view()), Box::new((*r).deep_view())),
            Expression::Sin(x) => ExprView::Sin(Box::new((*x).deep_view())),
            Expression::Cos(x) => ExprView::Cos(Box::new((*x).deep_view())),
            Expression::Tan(x) => ExprView::Tan(Box::new((*x).deep_view())),
            Expression::Arcsin(x) => ExprView::Arcsin(Box::new((*x).deep_view())),
            Expression::Arccos(x) => ExprView::Arccos(Box::new((*x).deep_view())),
            Expression::Arctan(x) => ExprView::Arctan(Box::new((*x).deep_view())),
            Expression::Exp(x) => ExprView::Exp(Box::new((*x).deep_view())),
            Expression::Ln(x) => ExprView::Ln(Box::new((*x).deep_view())),
            Expression::Sinh(x) => ExprView::Sinh(Box::new((*x).deep_view())),
            Expression::Cosh(x) => ExprView::Cosh(Box::new((*x).deep_view())),
            Expression::Tanh(x) => ExprView::Tanh(Box::new((*x).deep_view())),
        }
    }
}

impl View for Expression {
    type V = ExprView;

    open spec fn view(&self) -> ExprView {
        self.deep_view()
    }
}

/// A size measure for termination: every node counts one, except `Root`,
/// which counts enough extra that rewriting it as a power of a reciprocal
/// still shrinks the tree.
pub open spec fn wsize(e: ExprView) -> nat
    decreases e,
{
    match e {
        ExprView::Constant(_) => 1,
        ExprView::Variable(_) => 1,
        ExprView::Root(l, r) => 4 + wsize(*l) + wsize(*r),
        ExprView::Add(l, r) => 1 + wsize(*l) + wsize(*r),
        ExprView::Subtract(l, r) => 1 + wsize(*l) + wsize(*r),
        ExprView::Multiply(l, r) => 1 + wsize(*l) + wsize(*r),
        ExprView::Divide(l, r) => 1 + wsize(*l) + wsize(*r),
        ExprView::Power(l, r) => 1 + wsize(*l) + wsize(*r),
        ExprView::Log(l, r) => 1 + wsize(*l) + wsize(*r),
        ExprView::Sin(x) => 1 + wsize(*x),
        ExprView::Cos(x) => 1 + wsize(*x),
        ExprView::Tan(x) => 1 + wsize(*x),
        ExprView::Arcsin(x) => 1 + wsize(*x),
        ExprView::Arccos(x) => 1 + wsize(*x),
        ExprView::Arctan(x) => 1 + wsize(*x),
        ExprView::Exp(x) => 1 + wsize(*x),
        ExprView::Ln(x) => 1 + wsize(*x),
        ExprView::Sinh(x) => 1 + wsize(*x),
        ExprView::Cosh(x) => 1 + wsize(*x),
        ExprView::Tanh(x) => 1 + wsize(*x),
    }
}

/// Every constant in the tree is normalized.
pub open spec fn wf_expr(e: ExprView) -> bool
    decreases e,
{
    match e {
        ExprView::Constant(c) => c.wf(),
        ExprView::Variable(_) => true,
        ExprView::Add(l, r) => wf_expr(*l) && wf_expr(*r),
        ExprView::Subtract(l, r) => wf_expr(*l) && wf_expr(*r),
        ExprView::Multiply(l, r) => wf_expr(*l) && wf_expr(*r),
        ExprView::Divide(l, r) => wf_expr(*l) && wf_expr(*r),
        ExprView::Power(l, r) => wf_expr(*l) && wf_expr(*r),
        ExprView::Root(l, r) => wf_expr(*l) && wf_expr(*r),
        ExprView::Log(l, r) => wf_expr(*l) && wf_expr(*r),
        ExprView::Sin(x) => wf_expr(*x),
        ExprView::Cos(x) => wf_expr(*x),
        ExprView::Tan(x) => wf_expr(*x),
        ExprView::Arcsin(x) => wf_expr(*x),
        ExprView::Arccos(x) => wf_expr(*x),
        ExprView::Arctan(x) => wf_expr(*x),
        ExprView::Exp(x) => wf_expr(*x),
        ExprView::Ln(x) => wf_expr(*x),
        ExprView::Sinh(x) => wf_expr(*x),
        ExprView::Cosh(x) => wf_expr(*x),
        ExprView::Tanh(x) => wf_expr(*x),
    }
}

impl Expression {
    /// A constant leaf.
    pub fn constant(value: Num) -> (r: Self)
        ensures
            r@ == ExprView::Constant(value),
    {
        Expression::Constant(value)
    }

    /// A variable leaf, identified by its name.
    pub fn variable(name: &str) -> (r: Self)
        ensures
            r@ == ExprView::Variable(name@),
    {
        Expression::Variable(name.to_owned())
    }

    /// The sum of two expressions.
    pub fn add(left: Expression, right: Expression) -> (r: Self)
        ensures
            r@ == ExprView::Add(Box::new(left@), Box::new(right@)),
    {
        Expression::Add(Box::new(left), Box::new(right))
    }

    /// The difference of two expressions.
    pub fn subtract(left: Expression, right: Expression) -> (r: Self)
        ensures
            r@ == ExprView::Subtract(Box::new(left@), Box::new(right@)),
    {
        Expression::Subtract(Box::new(left), Box::new(right))
    }

    /// The product of two expressions.
    pub fn multiply(left: Expression, right: Expression) -> (r: Self)
        ensures
            r@ == ExprView::Multiply(Box::new(left@), Box::new(right@)),
    {
        Expression::Multiply(Box::new(left), Box::new(right))
    }

    /// The quotient of two expressions.
    pub fn divide(left: Expression, right: Expression) -> (r: Self)
        ensures
            r@ == ExprView::Divide(Box::new(left@), Box::new(right@)),
    {
        Expression::Divide(Box::new(left), Box::new(right))
    }

    /// A base raised to an exponent.
    pub fn power(base: Expression, exponent: Expression) -> (r: Self)
        ensures
            r@ == ExprView::Power(Box::new(base@), Box::new(exponent@)),
    {
        Expression::Power(Box::new(base), Box::new(exponent))
    }

    /// A radical: the `n`-th root of `base`.
    pub fn root(base: Expression, n: Expression) -> (r: Self)
        ensures
            r@ == ExprView::Root(Box::new(base@), Box::new(n@)),
    {
        Expression::Root(Box::new(base), Box::new(n))
    }

    /// The function `sin` applied to an expression.
    pub fn sin(expr: Expression) -> (r: Self)
        ensures
            r@ == ExprView::Sin(Box::new(expr@)),
    {
        Expression::Sin(Box::new(expr))
    }

    /// The function `cos` applied to an expression.
    pub fn cos(expr: Expression) -> (r: Self)
        ensures
            r@ == ExprView::Cos(Box::new(expr@)),
    {
        Expression::Cos(Box::new(expr))
    }

    /// The function `tan` applied to an expression.
    pub fn tan(expr: Expression) -> (r: Self)
        ensures
            r@ == ExprView::Tan(Box::new(expr@)),
    {
        Expression::Tan(Box::new(expr))
    }

    /// The function `arcsin` applied to an expression.
    pub fn arcsin(expr: Expression) -> (r: Self)
        ensures
            r@ == ExprView::Arcsin(Box::new(expr@)),
    {
        Expression::Arcsin(Box::new(expr))
    }

    /// The function `arccos` applied to an expression.
    pub fn arccos(expr: Expression) -> (r: Self)
        ensures
            r@ == ExprView::Arccos(Box::new(expr@)),
    {
        Expression::Arccos(Box::new(expr))
    }

    /// The function `arctan` applied to an expression.
    pub fn arctan(expr: Expression) -> (r: Self)
        ensures
            r@ == ExprView::Arctan(Box::new(expr@)),
    {
        Expression::Arctan(Box::new(expr))
    }

    /// The function `exp` applied to an expression.
    pub fn exp(expr: Expression) -> (r: Self)
        ensures
            r@ == ExprView::Exp(Box::new(expr@)),
    {
        Expression::Exp(Box::new(expr))
    }

    /// The function `ln` applied to an expression.
    pub fn ln(expr: Expression) -> (r: Self)
        ensures
            r@ == ExprView::Ln(Box::new(expr@)),
    {
        Expression::Ln(Box::new(expr))
    }

    /// The function `sinh` applied to an expression.
    pub fn sinh(expr: Expression) -> (r: Self)
        ensures
            r@ == ExprView::Sinh(Box::new(expr@)),
    {
        Expression::Sinh(Box::new(expr))
    }

    /// The function `cosh` applied to an expression.
    pub fn cosh(expr: Expression) -> (r: Self)
        ensures
            r@ == ExprView::Cosh(Box::new(expr@)),
    {
        Expression::Cosh(Box::new(expr))
    }

    /// The function `tanh` applied to an expression.
    pub fn tanh(expr: Expression) -> (r: Self)
        ensures
            r@ == ExprView::Tanh(Box::new(expr@)),
    {
        Expression::Tanh(Box::new(expr))
    }

    /// The logarithm of `expr` in base `base`.
    pub fn log(base: Expression, expr: Expression) -> (r: Self)
        ensures
            r@ == ExprView::Log(Box::new(base@), Box::new(expr@)),
    {
        Expression::Log(Box::new(base), Box::new(expr))
    }

    /// A structural copy of this tree.
    pub fn dup(&self) -> (r: Expression)
        ensures
            r@ == self@,
        decreases self,
    {
        match self {
            Expression::Constant(c) => Expression::Constant(*c),
            Expression::Variable(s) => Expression::Variable(s.clone()),
            Expression::Add(l, r) => Expression::Add(Box::new(l.dup()), Box::new(r.dup())),
            Expression::Subtract(l, r) => Expression::Subtract(Box::new(l.dup()), Box::new(r.dup())),
            Expression::Multiply(l, r) => Expression::Multiply(Box::new(l.dup()), Box::new(r.dup())),
            Expression::Divide(l, r) => Expression::Divide(Box::new(l.dup()), Box::new(r.dup())),
            Expression::Power(l, r) => Expression::Power(Box::new(l.dup()), Box::new(r.dup())),
            Expression::Root(l, r) => Expression::Root(Box::new(l.dup()), Box::new(r.dup())),
            Expression::Log(l, r) => Expression::Log(Box::new(l.dup()), Box::new(r.dup())),
            Expression::Sin(x) => Expression::Sin(Box::new(x.dup())),
            Expression::Cos(x) => Expression::Cos(Box::new(x.dup())),
            Expression::Tan(x) => Expression::Tan(Box::new(x.dup())),
            Expression::Arcsin(x) => Expression::Arcsin(Box::new(x.dup())),
            Expression::Arccos(x) => Expression::Arccos(Box::new(x.dup())),
            Expression::Arctan(x) => Expression::Arctan(Box::new(x.dup())),
            Expression::Exp(x) => Expression::Exp(Box::new(x.dup())),
            Expression::Ln(x) => Expression::Ln(Box::new(x.dup())),
            Expression::Sinh(x) => Expression::Sinh(Box::new(x.dup())),
            Expression::Cosh(x) => Expression::Cosh(Box::new(x.dup())),
            Expression::Tanh(x) => Expression::Tanh(Box::new(x.dup())),
        }
    }

    /// Structural equality, decided recursively.
    pub fn eq_expr(&self, other: &Expression) -> (r: bool)
        ensures
            r == (self@ == other@),
        decreases self,
    {
        match (self, other) {
            (Expression::Constant(a), Expression::Constant(b)) => *a == *b,
            (Expression::Variable(a), Expression::Variable(b)) => str_eq(a.as_str(), b.as_str()),
            (Expression::Add(a1, b1), Expression::Add(a2, b2)) => a1.eq_expr(a2) && b1.eq_expr(b2),
            (Expression::Subtract(a1, b1), Expression::Subtract(a2, b2)) => a1.eq_expr(a2) && b1.eq_expr(b2),
            (Expression::Multiply(a1, b1), Expression::Multiply(a2, b2)) => a1.eq_expr(a2) && b1.eq_expr(b2),
            (Expression::Divide(a1, b1), Expression::Divide(a2, b2)) => a1.eq_expr(a2) && b1.eq_expr(b2),
            (Expression::Power(a1, b1), Expression::Power(a2, b2)) => a1.eq_expr(a2) && b1.eq_expr(b2),
            (Expression::Root(a1, b1), Expression::Root(a2, b2)) => a1.eq_expr(a2) && b1.eq_expr(b2),
            (Expression::Log(a1, b1), Expression::Log(a2, b2)) => a1.eq_expr(a2) && b1.eq_expr(b2),
            (Expression::Sin(a), Expression::Sin(b)) => a.eq_expr(b),
            (Expression::Cos(a), Expression::Cos(b)) => a.eq_expr(b),
            (Expression::Tan(a), Expression::Tan(b)) => a.eq_expr(b),
            (Expression::Arcsin(a), Expression::Arcsin(b)) => a.eq_expr(b),
            (Expression::Arccos(a), Expression::Arccos(b)) => a.eq_expr(b),
            (Expression::Arctan(a), Expression::Arctan(b)) => a.eq_expr(b),
            (Expression::Exp(a), Expression::Exp(b)) => a.eq_expr(b),
            (Expression::Ln(a), Expression::Ln(b)) => a.eq_expr(b),
            (Expression::Sinh(a), Expression::Sinh(b)) => a.eq_expr(b),
            (Expression::Cosh(a), Expression::Cosh(b)) => a.eq_expr(b),
            (Expression::Tanh(a), Expression::Tanh(b)) => a.eq_expr(b),
            _ => {
                proof {
                    lemma_view_ctor(self);
                    lemma_view_ctor(other);
                }
                false
            }
        }
    }
}

impl Clone for Expression {
    /// Structural copy; clones are equal in shape and leaf values.
    fn clone(&self) -> (r: Self)
        ensures
            r@ == self@,
    {
        self.dup()
    }
}

/// A tree and its shape are built by the same constructor.
pub(crate) proof fn lemma_view_ctor(e: &Expression)
    ensures
        (*e) is Constant <==> e@ is Constant,
        (*e) is Variable <==> e@ is Variable,
        (*e) is Add <==> e@ is Add,
        (*e) is Subtract <==> e@ is Subtract,
        (*e) is Multiply <==> e@ is Multiply,
        (*e) is Divide <==> e@ is Divide,
        (*e) is Power <==> e@ is Power,
        (*e) is Root <==> e@ is Root,
        (*e) is Sin <==> e@ is Sin,
        (*e) is Cos <==> e@ is Cos,
        (*e) is Tan <==> e@ is Tan,
        (*e) is Arcsin <==> e@ is Arcsin,
        (*e) is Arccos <==> e@ is Arccos,
        (*e) is Arctan <==> e@ is Arctan,
        (*e) is Exp <==> e@ is Exp,
        (*e) is Ln <==> e@ is Ln,
        (*e) is Sinh <==> e@ is Sinh,
        (*e) is Cosh <==> e@ is Cosh,
        (*e) is Tanh <==> e@ is Tanh,
        (*e) is Log <==> e@ is Log,
{
    match e {
        Expression::Constant(..) => {},
        Expression::Variable(..) => {},
        Expression::Add(..) => {},
        Expression::Subtract(..) => {},
        Expression::Multiply(..) => {},
        Expression::Divide(..) => {},
        Expression::Power(..) => {},
        Expression::Root(..) => {},
        Expression::Sin(..) => {},
        Expression::Cos(..) => {},
        Expression::Tan(..) => {},
        Expression::Arcsin(..) => {},
        Expression::Arccos(..) => {},
        Expression::Arctan(..) => {},
        Expression::Exp(..) => {},
        Expression::Ln(..) => {},
        Expression::Sinh(..) => {},
        Expression::Cosh(..) => {},
        Expression::Tanh(..) => {},
        Expression::Log(..) => {},
    }
}

/// Character-by-character equality of two string slices.
pub fn str_eq(a: &str, b: &str) -> (r: bool)
    ensures
        r == (a@ == b@),
{
    let la = a.unicode_len();
    let lb = b.unicode_len();
    if la != lb {
        return false;
    }
    let mut i: usize = 0;
    while i < la
        invariant
            i <= la,
            la == a@.len(),
            la == b@.len(),
            forall|j: int| 0 <= j < i ==> a@[j] == b@[j],
        decreases la - i,
    {
        if a.get_char(i) != b.get_char(i) {
            return false;
        }
        i = i + 1;
    }
    proof {
        assert(a@ =~= b@);
    }
    true
}


/// One decimal digit as text.
pub open spec fn spec_digit_str(d: nat) -> Seq<char> {
    if d == 0 { "0"@ }
    else if d == 1 { "1"@ }
    else if d == 2 { "2"@ }
    else if d == 3 { "3"@ }
    else if d == 4 { "4"@ }
    else if d == 5 { "5"@ }
    else if d == 6 { "6"@ }
    else if d == 7 { "7"@ }
    else if d == 8 { "8"@ }
    else { "9"@ }
}

/// The decimal digits of a natural number, most significant first.
pub open spec fn spec_dec(n: nat) -> Seq<char>
    decreases n,
{
    if n < 10 {
        spec_digit_str(n)
    } else {
        spec_dec(n / 10) + spec_digit_str(n % 10)
    }
}

/// A signed integer in decimal.
pub open spec fn spec_int_str(n: int) -> Seq<char> {
    if n < 0 {
        "-"@ + spec_dec((-n) as nat)
    } else {
        spec_dec(n as nat)
    }
}

/// A rational multiple of an irrational unit, written with the coefficient
/// folded around the unit's symbol.
pub open spec fn spec_sym_str(sym: Seq<char>, n: int, d: int) -> Seq<char> {
    let head = if n == 1 {
        sym
    } else if n == -1 {
        "-"@ + sym
    } else {
        spec_int_str(n) + "*"@ + sym
    };
    if d == 1 {
        head
    } else {
        head + "/"@ + spec_int_str(d)
    }
}

/// A numeric constant in text: plain integers bare, other rationals as
/// `num/den`, and pi- or e-scaled values around their symbol.
pub open spec fn spec_render_num(n: int, d: int, u: NumUnit) -> Seq<char> {
    match u {
        NumUnit::One => if d == 1 {
            spec_int_str(n)
        } else {
            spec_int_str(n) + "/"@ + spec_int_str(d)
        },
        NumUnit::Pi => spec_sym_str("pi"@, n, d),
        NumUnit::Euler => spec_sym_str("e"@, n, d),
    }
}

/// Infix text with minimal parenthesization: an operand is parenthesized
/// only where its operator binds more loosely than its parent's.
pub open spec fn spec_render(e: ExprView) -> Seq<char>
    decreases wsize(e), 0int,
{
    match e {
        ExprView::Constant(c) => spec_render_num(c.num as int, c.den as int, c.unit),
        ExprView::Variable(name) => name,
        ExprView::Add(l, r) => match *r {
            ExprView::Constant(c) => if c.is_neg() {
                spec_render(*l) + " - "@ + spec_render_num(-c.num as int, c.den as int, c.unit)
            } else {
                spec_render(*l) + " + "@ + spec_render(*r)
            },
            _ => spec_render(*l) + " + "@ + spec_render(*r),
        },
        ExprView::Subtract(l, r) => spec_render(*l) + " - "@ + spec_render(*r),
        ExprView::Multiply(l, r) => if *l matches ExprView::Constant(c) && c.is_neg_one() {
            "-"@ + spec_render(*r)
        } else if *r matches ExprView::Constant(c) && c.is_neg_one() {
            "-"@ + spec_render(*l)
        } else if *l matches ExprView::Constant(c) && c.is_one() {
            spec_render(*r)
        } else if *r matches ExprView::Constant(c) && c.is_one() {
            spec_render(*l)
        } else {
            spec_wrap_sum(*l) + " * "@ + spec_wrap_sum(*r)
        },
        ExprView::Divide(l, r) => spec_wrap_sum(*l) + " / "@ + spec_wrap_sum(*r),
        ExprView::Power(base, exponent) => spec_wrap_factor(*base) + "^"@
            + spec_render(*exponent),
        ExprView::Root(base, n) => "\u{221a}["@ + spec_render(*n) + "]("@
            + spec_render(*base) + ")"@,
        ExprView::Sin(x) => "sin("@ + spec_render(*x) + ")"@,
        ExprView::Cos(x) => "cos("@ + spec_render(*x) + ")"@,
        ExprView::Tan(x) => "tan("@ + spec_render(*x) + ")"@,
        ExprView::Arcsin(x) => "arcsin("@ + spec_render(*x) + ")"@,
        ExprView::Arccos(x) => "arccos("@ + spec_render(*x) + ")"@,
        ExprView::Arctan(x) => "arctan("@ + spec_render(*x) + ")"@,
        ExprView::Exp(x) => "exp("@ + spec_render(*x) + ")"@,
        ExprView::Ln(x) => "ln("@ + spec_render(*x) + ")"@,
        ExprView::Log(base, x) => "log["@ + spec_render(*base) + "]("@
            + spec_render(*x) + ")"@,
        ExprView::Sinh(x) => "sinh("@ + spec_render(*x) + ")"@,
        ExprView::Cosh(x) => "cosh("@ + spec_render(*x) + ")"@,
        ExprView::Tanh(x) => "tanh("@ + spec_render(*x) + ")"@,
    }
}

/// Rendering with parentheses around sums and differences.
pub open spec fn spec_wrap_sum(e: ExprView) -> Seq<char>
    decreases wsize(e), 1int,
{
    if e matches ExprView::Add(_, _) || e matches ExprView::Subtract(_, _) {
        "("@ + spec_render(e) + ")"@
    } else {
        spec_render(e)
    }
}

/// Rendering with parentheses around any binary arithmetic node.
pub open spec fn spec_wrap_factor(e: ExprView) -> Seq<char>
    decreases wsize(e), 1int,
{
    if e matches ExprView::Add(_, _) || e matches ExprView::Subtract(_, _)
        || e matches ExprView::Multiply(_, _) || e matches ExprView::Divide(_, _) {
        "("@ + spec_render(e) + ")"@
    } else {
        spec_render(e)
    }
}

/// One decimal digit as text.
fn digit_str(d: u64) -> (s: &'static str)
    requires
        d < 10,
    ensures
        s@ == spec_digit_str(d as nat),
{
    if d == 0 { "0" }
    else if d == 1 { "1" }
    else if d == 2 { "2" }
    else if d == 3 { "3" }
    else if d == 4 { "4" }
    else if d == 5 { "5" }
    else if d == 6 { "6" }
    else if d == 7 { "7" }
    else if d == 8 { "8" }
    else { "9" }
}

/// The decimal digits of `n`.
fn dec_string(n: u64) -> (s: String)
    ensures
        s@ == spec_dec(n as nat),
    decreases n,
{
    if n < 10 {
        String::from_str(digit_str(n))
    } else {
        let s = dec_string(n / 10);
        s.concat(digit_str(n % 10))
    }
}

/// A signed integer in decimal.
fn int_string(n: i64) -> (s: String)
    ensures
        s@ == spec_int_str(n as int),
{
    if n >= 0 {
        dec_string(n as u64)
    } else {
        let mag: u64 = (-(n as i128)) as u64;
        let s = String::from_str("-");
        s.concat(dec_string(mag).as_str())
    }
}

/// A numeric constant in text; with `negate` the constant's opposite is
/// written instead (used when folding a negative addend into `a - b`).
fn num_string(c: Num, negate: bool) -> (s: String)
    ensures
        s@ == spec_render_num(
            if negate { -c.num as int } else { c.num as int },
            c.den as int,
            c.unit,
        ),
{
    let n_int: i128 = if negate { -(c.num as i128) } else { c.num as i128 };
    let neg: bool = n_int < 0;
    let mag: u64 = if neg { (-n_int) as u64 } else { n_int as u64 };
    let ghost nv: int = if negate { -c.num as int } else { c.num as int };
    let head: String = match c.unit {
        NumUnit::One => {
            if neg {
                String::from_str("-").concat(dec_string(mag).as_str())
            } else {
                dec_string(mag)
            }
        }
        NumUnit::Pi => {
            if mag == 1 && !neg {
                String::from_str("pi")
            } else if mag == 1 && neg {
                String::from_str("-pi")
            } else if neg {
                String::from_str("-").concat(dec_string(mag).as_str()).concat("*pi")
            } else {
                dec_string(mag).concat("*pi")
            }
        }
        NumUnit::Euler => {
            if mag == 1 && !neg {
                String::from_str("e")
            } else if mag == 1 && neg {
                String::from_str("-e")
            } else if neg {
                String::from_str("-").concat(dec_string(mag).as_str()).concat("*e")
            } else {
                dec_string(mag).concat("*e")
            }
        }
    };
    proof {
        assert("-pi"@ == "-"@ + "pi"@) by {
            reveal_strlit("-pi");
            reveal_strlit("-");
            reveal_strlit("pi");
            assert("-pi"@ =~= "-"@ + "pi"@);
        }
        assert("-e"@ == "-"@ + "e"@) by {
            reveal_strlit("-e");
            reveal_strlit("-");
            reveal_strlit("e");
            assert("-e"@ =~= "-"@ + "e"@);
        }
        assert("*pi"@ == "*"@ + "pi"@) by {
            reveal_strlit("*pi");
            reveal_strlit("*");
            reveal_strlit("pi");
            assert("*pi"@ =~= "*"@ + "pi"@);
        }
        assert("*e"@ == "*"@ + "e"@) by {
            reveal_strlit("*e");
            reveal_strlit("*");
            reveal_strlit("e");
            assert("*e"@ =~= "*"@ + "e"@);
        }
    }
    if c.den == 1 {
        head
    } else {
        head.concat("/").concat(int_string(c.den).as_str())
    }
}

/// `prefix + inner + suffix`, for function-call renderings.
fn call_string(prefix: &str, inner: String, suffix: &str) -> (s: String)
    ensures
        s@ == prefix@ + inner@ + suffix@,
{
    String::from_str(prefix).concat(inner.as_str()).concat(suffix)
}

/// `prefix + inner`, for sign renderings.
fn prefix_string(prefix: &str, inner: String) -> (s: String)
    ensures
        s@ == prefix@ + inner@,
{
    String::from_str(prefix).concat(inner.as_str())
}

/// `a + op + b`, for infix renderings.
fn infix_string(a: String, op: &str, b: String) -> (s: String)
    ensures
        s@ == a@ + op@ + b@,
{
    a.concat(op).concat(b.as_str())
}

/// `p1 + a + p2 + b + p3`, for bracketed two-argument renderings.
fn bracket2_string(p1: &str, a: String, p2: &str, b: String, p3: &str) -> (s: String)
    ensures
        s@ == p1@ + a@ + p2@ + b@ + p3@,
{
    String::from_str(p1).concat(a.as_str()).concat(p2).concat(b.as_str()).concat(p3)
}

impl Expression {
    /// This expression in infix text, with minimal parenthesization.
    /// Printing is total.
    pub fn render(&self) -> (s: String)
        ensures
            s@ == spec_render(self@),
        decreases wsize(self@), 1int,
    {
        match self {
            Expression::Constant(c) => num_string(*c, false),
            Expression::Variable(name) => name.clone(),
            Expression::Add(l, r) => add_string(l, r),
            Expression::Subtract(l, r) => infix_string(l.render(), " - ", r.render()),
            Expression::Multiply(l, r) => multiply_string(l, r),
            Expression::Divide(l, r) => infix_string(
                l.wrapped_sum(),
                " / ",
                r.wrapped_sum(),
            ),
            Expression::Power(base, exponent) => infix_string(
                base.wrapped_factor(),
                "^",
                exponent.render(),
            ),
            Expression::Root(base, n) => bracket2_string(
                "\u{221a}[",
                n.render(),
                "](",
                base.render(),
                ")",
            ),
            Expression::Sin(x) => call_string("sin(", x.render(), ")"),
            Expression::Cos(x) => call_string("cos(", x.render(), ")"),
            Expression::Tan(x) => call_string("tan(", x.render(), ")"),
            Expression::Arcsin(x) => call_string("arcsin(", x.render(), ")"),
            Expression::Arccos(x) => call_string("arccos(", x.render(), ")"),
            Expression::Arctan(x) => call_string("arctan(", x.render(), ")"),
            Expression::Exp(x) => call_string("exp(", x.render(), ")"),
            Expression::Ln(x) => call_string("ln(", x.render(), ")"),
            Expression::Log(base, x) => bracket2_string(
                "log[",
                base.render(),
                "](",
                x.render(),
                ")",
            ),
            Expression::Sinh(x) => call_string("sinh(", x.render(), ")"),
            Expression::Cosh(x) => call_string("cosh(", x.render(), ")"),
            Expression::Tanh(x) => call_string("tanh(", x.render(), ")"),
        }
    }

    /// Text with parentheses when this node is a sum or difference.
    fn wrapped_sum(&self) -> (s: String)
        ensures
            s@ == spec_wrap_sum(self@),
        decreases wsize(self@), 2int,
    {
        proof {
            lemma_view_ctor(self);
        }
        match self {
            Expression::Add(_, _) => call_string("(", self.render(), ")"),
            Expression::Subtract(_, _) => call_string("(", self.render(), ")"),
            _ => self.render(),
        }
    }

    /// Text with parentheses when this node is any binary arithmetic form.
    fn wrapped_factor(&self) -> (s: String)
        ensures
            s@ == spec_wrap_factor(self@),
        decreases wsize(self@), 2int,
    {
        proof {
            lemma_view_ctor(self);
        }
        match self {
            Expression::Add(_, _) => call_string("(", self.render(), ")"),
            Expression::Subtract(_, _) => call_string("(", self.render(), ")"),
            Expression::Multiply(_, _) => call_string("(", self.render(), ")"),
            Expression::Divide(_, _) => call_string("(", self.render(), ")"),
            _ => self.render(),
        }
    }
}

/// Renders a sum, folding a negative constant addend into subtraction.
fn add_string(l: &Expression, r: &Expression) -> (s: String)
    ensures
        s@ == spec_render(ExprView::Add(Box::new(l@), Box::new(r@))),
    decreases 1 + wsize(l@) + wsize(r@), 0int,
{
    match r {
        Expression::Constant(c) => {
            if c.num < 0 {
                // a + (-c) prints as a - c
                infix_string(l.render(), " - ", num_string(*c, true))
            } else {
                infix_string(l.render(), " + ", r.render())
            }
        }
        _ => {
            proof {
                lemma_view_ctor(r);
            }
            infix_string(l.render(), " + ", r.render())
        }
    }
}

/// Renders a product: a factor of one disappears, a factor of minus one
/// becomes a leading sign, and sums are parenthesized.
fn multiply_string(l: &Expression, r: &Expression) -> (s: String)
    ensures
        s@ == spec_render(ExprView::Multiply(Box::new(l@), Box::new(r@))),
    decreases 1 + wsize(l@) + wsize(r@), 0int,
{
    let l_neg_one = match l {
        Expression::Constant(c) => (c.num as i128) == -(c.den as i128)
            && matches!(c.unit, NumUnit::One),
        _ => false,
    };
    let r_neg_one = match r {
        Expression::Constant(c) => (c.num as i128) == -(c.den as i128)
            && matches!(c.unit, NumUnit::One),
        _ => false,
    };
    let l_one = match l {
        Expression::Constant(c) => c.num == c.den && matches!(c.unit, NumUnit::One),
        _ => false,
    };
    let r_one = match r {
        Expression::Constant(c) => c.num == c.den && matches!(c.unit, NumUnit::One),
        _ => false,
    };
    proof {
        lemma_view_ctor(l);
        lemma_view_ctor(r);
    }
    if l_neg_one {
        prefix_string("-", r.render())
    } else if r_neg_one {
        prefix_string("-", l.render())
    } else if l_one {
        r.render()
    } else if r_one {
        l.render()
    } else {
        infix_string(l.wrapped_sum(), " * ", r.wrapped_sum())
    }
}

} // verus!
