//! Call-scoped traversal state for the integration engine: the recursion
//! depth bound, the stack of expressions currently being expanded (for
//! cycle detection), and the strategy tag under attempt.

use vstd::prelude::*;
use crate::expression::{Expression, ExprView, lemma_view_ctor};

verus! {

/// The strategy the integration engine is currently attempting.
#[derive(Debug, Clone, Copy, PartialEq, Eq, Structural)]
pub enum IntegrationMethod {
    Direct,
    ByParts,
    Substitution,
    TrigonometricSubstitution,
    RationalFunction,
}

/// Commutativity-aware structural similarity, used only to break expansion
/// loops.  Two expressions are similar when they are equal, when they are
/// sums or products whose operands are similar under either order, or when
/// they are differences or matching unary-function applications (of any of
/// the unary transcendental forms) whose operands are similar in fixed
/// order.  All other shape pairs are not
/// similar: the relation is deliberately coarser than equality and is
/// never used for the correctness of a result.
pub open spec fn spec_similar(a: ExprView, b: ExprView) -> bool
    decreases a,
{
    a == b || match (a, b) {
        (ExprView::Multiply(a1, b1), ExprView::Multiply(a2, b2)) => {
            (spec_similar(*a1, *a2) && spec_similar(*b1, *b2))
                || (spec_similar(*a1, *b2) && spec_similar(*b1, *a2))
        },
        (ExprView::Add(a1, b1), ExprView::Add(a2, b2)) => {
            (spec_similar(*a1, *a2) && spec_similar(*b1, *b2))
                || (spec_similar(*a1, *b2) && spec_similar(*b1, *a2))
        },
        (ExprView::Subtract(a1, b1), ExprView::Subtract(a2, b2)) => {
            spec_similar(*a1, *a2) && spec_similar(*b1, *b2)
        },
        (ExprView::Sin(a1), ExprView::Sin(a2)) => spec_similar(*a1, *a2),
        (ExprView::Cos(a1), ExprView::Cos(a2)) => spec_similar(*a1, *a2),
        (ExprView::Tan(a1), ExprView::Tan(a2)) => spec_similar(*a1, *a2),
        (ExprView::Arcsin(a1), ExprView::Arcsin(a2)) => spec_similar(*a1, *a2),
        (ExprView::Arccos(a1), ExprView::Arccos(a2)) => spec_similar(*a1, *a2),
        (ExprView::Arctan(a1), ExprView::Arctan(a2)) => spec_similar(*a1, *a2),
        (ExprView::Exp(a1), ExprView::Exp(a2)) => spec_similar(*a1, *a2),
        (ExprView::Ln(a1), ExprView::Ln(a2)) => spec_similar(*a1, *a2),
        (ExprView::Sinh(a1), ExprView::Sinh(a2)) => spec_similar(*a1, *a2),
        (ExprView::Cosh(a1), ExprView::Cosh(a2)) => spec_similar(*a1, *a2),
        (ExprView::Tanh(a1), ExprView::Tanh(a2)) => spec_similar(*a1, *a2),
        _ => false,
    }
}

/// The abstract content of an [`IntegrationState`].
#[verifier::ext_equal]
pub struct StateView {
    pub depth: int,
    pub max_depth: int,
    pub visited: Seq<ExprView>,
    pub method: IntegrationMethod,
}

/// Whether expansion of `e` must be abandoned at this depth with this
/// visited stack: the depth bound is reached, or an expression similar to
/// `e` is already being expanded.
pub open spec fn spec_prune_at(
    e: ExprView,
    depth: int,
    max_depth: int,
    visited: Seq<ExprView>,
) -> bool {
    depth >= max_depth || exists|i: int|
        0 <= i < visited.len() && spec_similar(#[trigger] visited[i], e)
}

/// [`spec_prune_at`], read off a whole state.
pub open spec fn spec_should_prune(s: StateView, e: ExprView) -> bool {
    spec_prune_at(e, s.depth, s.max_depth, s.visited)
}

/// Mutable traversal state owned by one top-level integration call and
/// threaded by reference through every recursive attempt it makes.
#[derive(Debug)]
pub struct IntegrationState {
    depth: usize,
    max_depth: usize,
    visited_expressions: Vec<Expression>,
    current_method: IntegrationMethod,
}

impl View for IntegrationState {
    type V = StateView;

    closed spec fn view(&self) -> StateView {
        StateView {
            depth: self.depth as int,
            max_depth: self.max_depth as int,
            visited: self.visited_expressions@.map_values(|e: Expression| e@),
            method: self.current_method,
        }
    }
}

impl IntegrationState {
    /// The depth fields of a state are machine words.
    pub proof fn lemma_view_bounds(&self)
        ensures
            0 <= self@.depth <= usize::MAX,
            0 <= self@.max_depth <= usize::MAX,
    {
    }

    /// A fresh state with the given recursion bound.
    pub fn new(max_depth: usize) -> (r: IntegrationState)
        ensures
            r@.depth == 0,
            r@.max_depth == max_depth,
            r@.visited == Seq::<ExprView>::empty(),
            r@.method == IntegrationMethod::Direct,
    {
        let r = IntegrationState {
            depth: 0,
            max_depth,
            visited_expressions: Vec::new(),
            current_method: IntegrationMethod::Direct,
        };
        proof {
            assert(r@.visited =~= Seq::<ExprView>::empty());
        }
        r
    }

    /// Whether expanding `expr` must be abandoned, by depth or by cycle.
    pub fn should_prune(&self, expr: &Expression) -> (r: bool)
        ensures
            r == spec_should_prune(self@, expr@),
    {
        if self.depth >= self.max_depth {
            return true;
        }
        let n = self.visited_expressions.len();
        proof {
            assert(self@.visited.len() == n);
        }
        let mut i: usize = 0;
        while i < n
            invariant
                n == self.visited_expressions.len(),
                n == self@.visited.len(),
                i <= n,
                self@.depth < self@.max_depth,
                forall|j: int| 0 <= j < i
                    ==> !spec_similar(#[trigger] self@.visited[j], expr@),
            decreases n - i,
        {
            proof {
                assert(self@.visited[i as int] == self.visited_expressions@[i as int]@);
            }
            if self.is_similar(&self.visited_expressions[i], expr) {
                return true;
            }
            i = i + 1;
        }
        false
    }

    /// Decides [`spec_similar`] on concrete trees.
    fn is_similar(&self, expr1: &Expression, expr2: &Expression) -> (r: bool)
        ensures
            r == spec_similar(expr1@, expr2@),
        decreases *expr1,
    {
        // Plain structural equality first.
        if expr1.eq_expr(expr2) {
            return true;
        }
        match (expr1, expr2) {
            // Products commute.
            (Expression::Multiply(a1, b1), Expression::Multiply(a2, b2)) => {
                (self.is_similar(a1, a2) && self.is_similar(b1, b2))
                    || (self.is_similar(a1, b2) && self.is_similar(b1, a2))
            }
            // Sums commute.
            (Expression::Add(a1, b1), Expression::Add(a2, b2)) => {
                (self.is_similar(a1, a2) && self.is_similar(b1, b2))
                    || (self.is_similar(a1, b2) && self.is_similar(b1, a2))
            }
            // Differences keep their order.
            (Expression::Subtract(a1, b1), Expression::Subtract(a2, b2)) => {
                self.is_similar(a1, a2) && self.is_similar(b1, b2)
            }
            // Matching unary function applications.
            (Expression::Sin(a1), Expression::Sin(a2)) => self.is_similar(a1, a2),
            (Expression::Cos(a1), Expression::Cos(a2)) => self.is_similar(a1, a2),
            (Expression::Tan(a1), Expression::Tan(a2)) => self.is_similar(a1, a2),
            (Expression::Arcsin(a1), Expression::Arcsin(a2)) => self.is_similar(a1, a2),
            (Expression::Arccos(a1), Expression::Arccos(a2)) => self.is_similar(a1, a2),
            (Expression::Arctan(a1), Expression::Arctan(a2)) => self.is_similar(a1, a2),
            (Expression::Exp(a1), Expression::Exp(a2)) => self.is_similar(a1, a2),
            (Expression::Ln(a1), Expression::Ln(a2)) => self.is_similar(a1, a2),
            (Expression::Sinh(a1), Expression::Sinh(a2)) => self.is_similar(a1, a2),
            (Expression::Cosh(a1), Expression::Cosh(a2)) => self.is_similar(a1, a2),
            (Expression::Tanh(a1), Expression::Tanh(a2)) => self.is_similar(a1, a2),
            _ => {
                proof {
                    lemma_view_ctor(expr1);
                    lemma_view_ctor(expr2);
                }
                false
            }
        }
    }

    /// Records that `expr` is now being expanded, one level deeper.
    pub fn push_expression(&mut self, expr: Expression)
        requires
            old(self)@.depth < usize::MAX,
        ensures
            final(self)@.depth == old(self)@.depth + 1,
            final(self)@.max_depth == old(self)@.max_depth,
            final(self)@.visited == old(self)@.visited.push(expr@),
            final(self)@.method == old(self)@.method,
    {
        let ghost prev = self@.visited;
        self.visited_expressions.push(expr);
        self.depth = self.depth + 1;
        proof {
            assert(self@.visited =~= prev.push(
                self.visited_expressions@[self.visited_expressions@.len() - 1]@,
            ));
        }
    }

    /// Unwinds one level: forgets the most recent expression, if any, and
    /// steps the depth back down.
    pub fn pop_expression(&mut self)
        ensures
            final(self)@.max_depth == old(self)@.max_depth,
            final(self)@.method == old(self)@.method,
            old(self)@.visited.len() > 0 ==> final(self)@.visited
                == old(self)@.visited.drop_last(),
            old(self)@.visited.len() == 0 ==> final(self)@.visited
                == old(self)@.visited,
            old(self)@.depth > 0 ==> final(self)@.depth == old(self)@.depth - 1,
            old(self)@.depth == 0 ==> final(self)@.depth == 0,
    {
        let ghost prev = self@.visited;
        self.visited_expressions.pop();
        if self.depth > 0 {
            self.depth = self.depth - 1;
        }
        proof {
            if prev.len() > 0 {
                assert(self@.visited =~= prev.drop_last());
            } else {
                assert(self@.visited =~= prev);
            }
        }
    }

    /// Marks `method` as the strategy now under attempt.
    pub fn set_method(&mut self, method: IntegrationMethod)
        ensures
            final(self)@.depth == old(self)@.depth,
            final(self)@.max_depth == old(self)@.max_depth,
            final(self)@.visited == old(self)@.visited,
            final(self)@.method == method,
    {
        self.current_method = method;
    }

    /// The strategy currently under attempt.
    pub fn get_method(&self) -> (r: IntegrationMethod)
        ensures
            r == self@.method,
    {
        self.current_method
    }
}

} // verus!
