use vstd::prelude::*;

verus! {

/// An expression of the routing template language.
#[derive(Debug, PartialEq, Eq)]
pub enum Expr {
    Literal(String),
    Request(),
    WorkerResponse(),
    SelectField(Box<Expr>, String),
    SelectIndex(Box<Expr>, usize),
    EqualTo(Box<Expr>, Box<Expr>),
    GreaterThan(Box<Expr>, Box<Expr>),
    GreaterThanOrEqualTo(Box<Expr>, Box<Expr>),
    LessThan(Box<Expr>, Box<Expr>),
    LessThanOrEqualTo(Box<Expr>, Box<Expr>),
    Cond(Box<Expr>, Box<Expr>, Box<Expr>),
    Concat(Vec<Expr>),
}

/// The mathematical value of an [`Expr`]: the same tree over sequences.
pub enum ExprView {
    Literal(Seq<char>),
    Request,
    WorkerResponse,
    SelectField(Box<ExprView>, Seq<char>),
    SelectIndex(Box<ExprView>, nat),
    EqualTo(Box<ExprView>, Box<ExprView>),
    GreaterThan(Box<ExprView>, Box<ExprView>),
    GreaterThanOrEqualTo(Box<ExprView>, Box<ExprView>),
    LessThan(Box<ExprView>, Box<ExprView>),
    LessThanOrEqualTo(Box<ExprView>, Box<ExprView>),
    Cond(Box<ExprView>, Box<ExprView>, Box<ExprView>),
    Concat(Seq<ExprView>),
}

impl ExprView {
    /// Whether the expression is literal text only: a `Literal`, or a
    /// `Concat` of such expressions.
    pub open spec fn is_literal(self) -> bool
        decreases self,
    {
        match self {
            ExprView::Literal(_) => true,
            ExprView::Concat(v) => forall|i: int| 0 <= i < v.len() ==> (#[trigger] v[i]).is_literal(),
            _ => false,
        }
    }

    /// The literal text of an expression that is literal text only: the
    /// texts of its `Literal`s, from left to right.
    pub open spec fn literal_text(self) -> Seq<char>
        decreases self,
    {
        match self {
            ExprView::Literal(s) => s,
            ExprView::Concat(v) => Self::literal_text_of(v),
            _ => Seq::empty(),
        }
    }

    /// The literal texts of the expressions `v`, joined in order.
    pub open spec fn literal_text_of(v: Seq<ExprView>) -> Seq<char>
        decreases v,
    {
        if v.len() == 0 {
            Seq::empty()
        } else {
            Self::literal_text_of(v.drop_last()) + v.last().literal_text()
        }
    }

    /// The expressions directly below this one, from left to right.
    pub open spec fn subtrees(self) -> Seq<ExprView> {
        match self {
            ExprView::Literal(_) => Seq::empty(),
            ExprView::Request => Seq::empty(),
            ExprView::WorkerResponse => Seq::empty(),
            ExprView::SelectField(e, _) => seq![*e],
            ExprView::SelectIndex(e, _) => seq![*e],
            ExprView::EqualTo(l, r) => seq![*l, *r],
            ExprView::GreaterThan(l, r) => seq![*l, *r],
            ExprView::GreaterThanOrEqualTo(l, r) => seq![*l, *r],
            ExprView::LessThan(l, r) => seq![*l, *r],
            ExprView::LessThanOrEqualTo(l, r) => seq![*l, *r],
            ExprView::Cond(p, t, e) => seq![*p, *t, *e],
            ExprView::Concat(v) => v,
        }
    }

    /// Whether the expression is made of `Concat`s alone, with no expression
    /// of another kind anywhere in it.
    pub open spec fn concat_only(self) -> bool
        decreases self,
    {
        match self {
            ExprView::Concat(v) => forall|i: int|
                0 <= i < v.len() ==> (#[trigger] v[i]).concat_only(),
            _ => false,
        }
    }

    /// Whether the expression is literal text in the shape that reading
    /// literal text gives: one `Literal`, or a `Concat` of such an expression
    /// on the left and one `Literal` on the right.
    pub open spec fn left_leaning_literals(self) -> bool
        decreases self,
    {
        match self {
            ExprView::Literal(_) => true,
            ExprView::Concat(v) => v.len() == 2 && v[1] is Literal && v[0].left_leaning_literals(),
            _ => false,
        }
    }

    /// Whether every selection of a field or of an index in the expression
    /// selects from a subject that is well formed and is not made of
    /// `Concat`s alone.
    pub open spec fn selections_have_subjects(self) -> bool
        decreases self,
    {
        match self {
            ExprView::Literal(_) => true,
            ExprView::Request => true,
            ExprView::WorkerResponse => true,
            ExprView::SelectField(e, _) | ExprView::SelectIndex(e, _) => e.well_formed()
                && !e.concat_only() && e.selections_have_subjects(),
            ExprView::EqualTo(l, r)
            | ExprView::GreaterThan(l, r)
            | ExprView::GreaterThanOrEqualTo(l, r)
            | ExprView::LessThan(l, r)
            | ExprView::LessThanOrEqualTo(l, r) => l.selections_have_subjects()
                && r.selections_have_subjects(),
            ExprView::Cond(p, t, e) => p.selections_have_subjects() && t.selections_have_subjects()
                && e.selections_have_subjects(),
            ExprView::Concat(v) => forall|i: int|
                0 <= i < v.len() ==> (#[trigger] v[i]).selections_have_subjects(),
        }
    }

    /// Whether the expression has the shape that parsing gives: every
    /// `Concat` in it joins exactly two expressions.
    pub open spec fn well_formed(self) -> bool
        decreases self,
    {
        match self {
            ExprView::Literal(_) => true,
            ExprView::Request => true,
            ExprView::WorkerResponse => true,
            ExprView::SelectField(e, _) => e.well_formed(),
            ExprView::SelectIndex(e, _) => e.well_formed(),
            ExprView::EqualTo(l, r) => l.well_formed() && r.well_formed(),
            ExprView::GreaterThan(l, r) => l.well_formed() && r.well_formed(),
            ExprView::GreaterThanOrEqualTo(l, r) => l.well_formed() && r.well_formed(),
            ExprView::LessThan(l, r) => l.well_formed() && r.well_formed(),
            ExprView::LessThanOrEqualTo(l, r) => l.well_formed() && r.well_formed(),
            ExprView::Cond(p, t, e) => p.well_formed() && t.well_formed() && e.well_formed(),
            ExprView::Concat(v) => v.len() == 2 && forall|i: int|
                0 <= i < v.len() ==> (#[trigger] v[i]).well_formed(),
        }
    }
}

impl Expr {
    /// Whether the expression is literal text only.
    pub fn is_literal(&self) -> (r: bool)
        ensures
            r == self@.is_literal(),
        decreases self,
    {
        match self {
            Expr::Literal(_) => true,
            Expr::Concat(v) => {
                let mut i: usize = 0;
                while i < v.len()
                    invariant
                        i <= v.len(),
                        self == Expr::Concat(*v),
                        forall|k: int| 0 <= k < i ==> (#[trigger] v@[k]).model().is_literal(),
                    decreases v.len() - i,
                {
                    if !v[i].is_literal() {
                        assert(!self@->Concat_0[i as int].is_literal());
                        return false;
                    }
                    i = i + 1;
                }
                true
            },
            _ => false,
        }
    }

    /// The tree that this expression stands for.
    pub open spec fn model(&self) -> ExprView
        decreases self,
    {
        match self {
            Expr::Literal(s) => ExprView::Literal(s@),
            Expr::Request() => ExprView::Request,
            Expr::WorkerResponse() => ExprView::WorkerResponse,
            Expr::SelectField(e, f) => ExprView::SelectField(Box::new(e.model()), f@),
            Expr::SelectIndex(e, i) => ExprView::SelectIndex(Box::new(e.model()), *i as nat),
            Expr::EqualTo(l, r) => ExprView::EqualTo(Box::new(l.model()), Box::new(r.model())),
            Expr::GreaterThan(l, r) => ExprView::GreaterThan(Box::new(l.model()), Box::new(r.model())),
            Expr::GreaterThanOrEqualTo(l, r) => ExprView::GreaterThanOrEqualTo(
                Box::new(l.model()),
                Box::new(r.model()),
            ),
            Expr::LessThan(l, r) => ExprView::LessThan(Box::new(l.model()), Box::new(r.model())),
            Expr::LessThanOrEqualTo(l, r) => ExprView::LessThanOrEqualTo(
                Box::new(l.model()),
                Box::new(r.model()),
            ),
            Expr::Cond(p, t, e) => ExprView::Cond(
                Box::new(p.model()),
                Box::new(t.model()),
                Box::new(e.model()),
            ),
            Expr::Concat(v) => ExprView::Concat(
                Seq::new(v@.len(), |i: int| if 0 <= i < v@.len() { v@[i].model() } else { ExprView::Request }),
            ),
        }
    }
}

impl Expr {
    /// A copy of the expression.
    pub fn duplicate(&self) -> (r: Expr)
        ensures
            r@ == self@,
        decreases self,
    {
        match self {
            Expr::Literal(s) => Expr::Literal(s.clone()),
            Expr::Request() => Expr::Request(),
            Expr::WorkerResponse() => Expr::WorkerResponse(),
            Expr::SelectField(e, f) => Expr::SelectField(Box::new(e.duplicate()), f.clone()),
            Expr::SelectIndex(e, i) => Expr::SelectIndex(Box::new(e.duplicate()), *i),
            Expr::EqualTo(l, r) => Expr::EqualTo(Box::new(l.duplicate()), Box::new(r.duplicate())),
            Expr::GreaterThan(l, r) => Expr::GreaterThan(
                Box::new(l.duplicate()),
                Box::new(r.duplicate()),
            ),
            Expr::GreaterThanOrEqualTo(l, r) => Expr::GreaterThanOrEqualTo(
                Box::new(l.duplicate()),
                Box::new(r.duplicate()),
            ),
            Expr::LessThan(l, r) => Expr::LessThan(
                Box::new(l.duplicate()),
                Box::new(r.duplicate()),
            ),
            Expr::LessThanOrEqualTo(l, r) => Expr::LessThanOrEqualTo(
                Box::new(l.duplicate()),
                Box::new(r.duplicate()),
            ),
            Expr::Cond(p, t, e) => Expr::Cond(
                Box::new(p.duplicate()),
                Box::new(t.duplicate()),
                Box::new(e.duplicate()),
            ),
            Expr::Concat(v) => {
                let mut copy: Vec<Expr> = Vec::new();
                let mut i: usize = 0;
                while i < v.len()
                    invariant
                        i <= v.len(),
                        self == Expr::Concat(*v),
                        copy@.len() == i,
                        forall|k: int| 0 <= k < i ==> (#[trigger] copy@[k]).model() == v@[k].model(),
                    decreases v.len() - i,
                {
                    assert(decreases_to!(*self => self->Concat_0));
                    assert(decreases_to!(*v => v@));
                    assert(decreases_to!(v@ => v@[i as int]));
                    let item = v[i].duplicate();
                    copy.push(item);
                    i = i + 1;
                }
                let r = Expr::Concat(copy);
                assert(r@->Concat_0 =~= self@->Concat_0);
                r
            },
        }
    }
}

impl Clone for Expr {
    fn clone(&self) -> (r: Expr)
        ensures
            r@ == self@,
    {
        self.duplicate()
    }
}

impl View for Expr {
    type V = ExprView;

    open spec fn view(&self) -> ExprView {
        self.model()
    }
}

} // verus!
