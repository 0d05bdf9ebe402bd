use crate::expr::{Expr, ExprView};
use vstd::prelude::*;
use vstd::string::StringExecFns;

verus! {

/// How tokens are read: as code, inside `${` and `}` or a captured region,
/// or as literal text.
#[derive(Clone, Copy, Debug, PartialEq, Eq, Structural)]
pub enum Context {
    Code,
    Literal,
}

impl Context {
    /// Whether tokens are read as code.
    pub fn is_code(&self) -> (r: bool)
        ensures
            r == (*self == Context::Code),
    {
        match self {
            Context::Code => true,
            Context::Literal => false,
        }
    }
}

/// The construct that an unfinished expression belongs to. It serves
/// messages, and tells a conditional from a comparison.
#[derive(Clone, Copy, Debug, PartialEq, Eq, Structural)]
pub enum ExpressionContext {
    Condition,
    LessThan,
    GreaterThan,
    EqualTo,
    GreaterThanOrEqualTo,
    LessThanOrEqualTo,
}

impl ExpressionContext {
    /// The name of the construct.
    pub open spec fn name(self) -> Seq<char> {
        match self {
            ExpressionContext::Condition => "Condition"@,
            ExpressionContext::LessThan => "LessThan"@,
            ExpressionContext::GreaterThan => "GreaterThan"@,
            ExpressionContext::EqualTo => "EqualTo"@,
            ExpressionContext::GreaterThanOrEqualTo => "GreaterThanOrEqualTo"@,
            ExpressionContext::LessThanOrEqualTo => "LessThanOrEqualTo"@,
        }
    }

    /// The name of the construct.
    pub fn to_string(&self) -> (r: String)
        ensures
            r@ == self.name(),
    {
        match self {
            ExpressionContext::Condition => String::from_str("Condition"),
            ExpressionContext::LessThan => String::from_str("LessThan"),
            ExpressionContext::GreaterThan => String::from_str("GreaterThan"),
            ExpressionContext::EqualTo => String::from_str("EqualTo"),
            ExpressionContext::GreaterThanOrEqualTo => String::from_str("GreaterThanOrEqualTo"),
            ExpressionContext::LessThanOrEqualTo => String::from_str("LessThanOrEqualTo"),
        }
    }
}

/// A comparison operator.
#[derive(Clone, Copy, Debug, PartialEq, Eq, Structural)]
pub enum Comparison {
    EqualTo,
    GreaterThan,
    GreaterThanOrEqualTo,
    LessThan,
    LessThanOrEqualTo,
}

impl Comparison {
    /// The comparison of `lhs` with `rhs` by this operator.
    pub open spec fn build(self, lhs: ExprView, rhs: ExprView) -> ExprView {
        match self {
            Comparison::EqualTo => ExprView::EqualTo(Box::new(lhs), Box::new(rhs)),
            Comparison::GreaterThan => ExprView::GreaterThan(Box::new(lhs), Box::new(rhs)),
            Comparison::GreaterThanOrEqualTo => ExprView::GreaterThanOrEqualTo(
                Box::new(lhs),
                Box::new(rhs),
            ),
            Comparison::LessThan => ExprView::LessThan(Box::new(lhs), Box::new(rhs)),
            Comparison::LessThanOrEqualTo => ExprView::LessThanOrEqualTo(
                Box::new(lhs),
                Box::new(rhs),
            ),
        }
    }

    /// The construct that the operator is named by in messages.
    pub open spec fn scope(self) -> ExpressionContext {
        match self {
            Comparison::EqualTo => ExpressionContext::EqualTo,
            Comparison::GreaterThan => ExpressionContext::GreaterThan,
            Comparison::GreaterThanOrEqualTo => ExpressionContext::GreaterThanOrEqualTo,
            Comparison::LessThan => ExpressionContext::LessThan,
            Comparison::LessThanOrEqualTo => ExpressionContext::LessThanOrEqualTo,
        }
    }

    /// The comparison of `lhs` with `rhs` by this operator.
    pub fn apply(self, lhs: Expr, rhs: Expr) -> (r: Expr)
        ensures
            r@ == self.build(lhs@, rhs@),
    {
        match self {
            Comparison::EqualTo => Expr::EqualTo(Box::new(lhs), Box::new(rhs)),
            Comparison::GreaterThan => Expr::GreaterThan(Box::new(lhs), Box::new(rhs)),
            Comparison::GreaterThanOrEqualTo => Expr::GreaterThanOrEqualTo(
                Box::new(lhs),
                Box::new(rhs),
            ),
            Comparison::LessThan => Expr::LessThan(Box::new(lhs), Box::new(rhs)),
            Comparison::LessThanOrEqualTo => Expr::LessThanOrEqualTo(
                Box::new(lhs),
                Box::new(rhs),
            ),
        }
    }

    /// The construct that the operator is named by in messages.
    pub fn context(self) -> (r: ExpressionContext)
        ensures
            r == self.scope(),
    {
        match self {
            Comparison::EqualTo => ExpressionContext::EqualTo,
            Comparison::GreaterThan => ExpressionContext::GreaterThan,
            Comparison::GreaterThanOrEqualTo => ExpressionContext::GreaterThanOrEqualTo,
            Comparison::LessThan => ExpressionContext::LessThan,
            Comparison::LessThanOrEqualTo => ExpressionContext::LessThanOrEqualTo,
        }
    }
}

/// What an unfinished expression does with the next operand: the operands
/// that it has, and the place that the next one takes.
#[derive(Debug, PartialEq, Eq)]
pub enum Continuation {
    /// A comparison that has its left side and awaits its right side.
    Compare(Comparison, Expr),
    /// A conditional that awaits its predicate.
    Predicate,
    /// A conditional that has its predicate and awaits its first branch.
    ThenBranch(Expr),
    /// A conditional that has its predicate and first branch, and awaits
    /// its second branch.
    ElseBranch(Expr, Expr),
}

/// The mathematical value of a [`Continuation`].
pub enum ContinuationView {
    Compare(Comparison, ExprView),
    Predicate,
    ThenBranch(ExprView),
    ElseBranch(ExprView, ExprView),
}

impl ContinuationView {
    /// Whether the operands that have arrived are well formed.
    pub open spec fn well_formed(self) -> bool {
        match self {
            ContinuationView::Compare(_, lhs) => lhs.well_formed(),
            ContinuationView::Predicate => true,
            ContinuationView::ThenBranch(p) => p.well_formed(),
            ContinuationView::ElseBranch(p, t) => p.well_formed() && t.well_formed(),
        }
    }

    /// The state that follows once `operand` has taken its place.
    pub open spec fn apply(self, operand: ExprView) -> InternalExprResultView {
        match self {
            ContinuationView::Compare(op, lhs) => InternalExprResultView::Complete(
                op.build(lhs, operand),
            ),
            ContinuationView::Predicate => InternalExprResultView::InComplete(
                ExpressionContext::Condition,
                ContinuationView::ThenBranch(operand),
            ),
            ContinuationView::ThenBranch(p) => InternalExprResultView::InComplete(
                ExpressionContext::Condition,
                ContinuationView::ElseBranch(p, operand),
            ),
            ContinuationView::ElseBranch(p, t) => InternalExprResultView::Complete(
                ExprView::Cond(Box::new(p), Box::new(t), Box::new(operand)),
            ),
        }
    }
}

impl View for Continuation {
    type V = ContinuationView;

    open spec fn view(&self) -> ContinuationView {
        match self {
            Continuation::Compare(op, lhs) => ContinuationView::Compare(*op, lhs@),
            Continuation::Predicate => ContinuationView::Predicate,
            Continuation::ThenBranch(p) => ContinuationView::ThenBranch(p@),
            Continuation::ElseBranch(p, t) => ContinuationView::ElseBranch(p@, t@),
        }
    }
}

impl Continuation {
    /// The state that follows once `operand` has taken its place.
    pub fn apply(self, operand: Expr) -> (r: InternalExprResult)
        ensures
            r@ == self@.apply(operand@),
    {
        match self {
            Continuation::Compare(op, lhs) => InternalExprResult::Complete(op.apply(lhs, operand)),
            Continuation::Predicate => InternalExprResult::InComplete(
                ExpressionContext::Condition,
                Continuation::ThenBranch(operand),
            ),
            Continuation::ThenBranch(p) => InternalExprResult::InComplete(
                ExpressionContext::Condition,
                Continuation::ElseBranch(p, operand),
            ),
            Continuation::ElseBranch(p, t) => InternalExprResult::Complete(
                Expr::Cond(Box::new(p), Box::new(t), Box::new(operand)),
            ),
        }
    }
}

/// What has been built so far at one level of nesting.
#[derive(Debug, PartialEq, Eq)]
pub enum InternalExprResult {
    /// A finished expression, ready to be an operand or to be joined.
    Complete(Expr),
    /// An expression that awaits one more operand.
    InComplete(ExpressionContext, Continuation),
    /// Nothing yet.
    Empty,
}

/// The mathematical value of an [`InternalExprResult`].
pub enum InternalExprResultView {
    Complete(ExprView),
    InComplete(ExpressionContext, ContinuationView),
    Empty,
}

impl InternalExprResultView {
    /// The state that follows once the operand `expr` has arrived: it is
    /// the first expression, or is joined to the finished one in a `Concat`
    /// of the two, or takes its place in the unfinished one.
    pub open spec fn continue_build(self, expr: ExprView) -> InternalExprResultView {
        match self {
            InternalExprResultView::Complete(done) => InternalExprResultView::Complete(
                ExprView::Concat(seq![done, expr]),
            ),
            InternalExprResultView::InComplete(_, k) => k.apply(expr),
            InternalExprResultView::Empty => InternalExprResultView::Complete(expr),
        }
    }

    /// Whether the expressions that the state holds are well formed.
    pub open spec fn well_formed(self) -> bool {
        match self {
            InternalExprResultView::Complete(e) => e.well_formed(),
            InternalExprResultView::InComplete(_, k) => k.well_formed(),
            InternalExprResultView::Empty => true,
        }
    }

    /// Whether the state is that of a conditional that awaits an operand.
    pub open spec fn awaits_condition(self) -> bool {
        self matches InternalExprResultView::InComplete(ExpressionContext::Condition, _)
    }
}

impl View for InternalExprResult {
    type V = InternalExprResultView;

    open spec fn view(&self) -> InternalExprResultView {
        match self {
            InternalExprResult::Complete(e) => InternalExprResultView::Complete(e@),
            InternalExprResult::InComplete(scope, k) => InternalExprResultView::InComplete(
                *scope,
                k@,
            ),
            InternalExprResult::Empty => InternalExprResultView::Empty,
        }
    }
}

impl InternalExprResult {
    /// Whether nothing has been built yet.
    pub fn is_empty(&self) -> (r: bool)
        ensures
            r == (self@ is Empty),
    {
        match self {
            InternalExprResult::Complete(_) => false,
            InternalExprResult::InComplete(_, _) => false,
            InternalExprResult::Empty => true,
        }
    }

    /// Whether the state is that of a conditional that awaits an operand.
    pub fn awaits_condition(&self) -> (r: bool)
        ensures
            r == self@.awaits_condition(),
    {
        match self {
            InternalExprResult::InComplete(ExpressionContext::Condition, _) => true,
            _ => false,
        }
    }

    /// The state that follows once the operand `expr` has arrived.
    pub fn continue_build(self, expr: Expr) -> (r: InternalExprResult)
        ensures
            r@ == self@.continue_build(expr@),
    {
        match self {
            InternalExprResult::Complete(done) => {
                let ghost pair = seq![done@, expr@];
                let mut both: Vec<Expr> = Vec::new();
                both.push(done);
                both.push(expr);
                let joined = Expr::Concat(both);
                assert(joined@->Concat_0 =~= pair);
                InternalExprResult::complete(joined)
            },
            InternalExprResult::InComplete(_, k) => k.apply(expr),
            InternalExprResult::Empty => InternalExprResult::Complete(expr),
        }
    }

    /// The state of a finished expression.
    pub fn complete(expr: Expr) -> (r: InternalExprResult)
        ensures
            r@ == InternalExprResultView::Complete(expr@),
    {
        InternalExprResult::Complete(expr)
    }

    /// The state of an expression of the construct `scope` that awaits an
    /// operand, with which `k` goes on.
    pub fn incomplete(scope: ExpressionContext, k: Continuation) -> (r: InternalExprResult)
        ensures
            r@ == InternalExprResultView::InComplete(scope, k@),
    {
        InternalExprResult::InComplete(scope, k)
    }
}

} // verus!
