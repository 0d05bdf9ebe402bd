use crate::expr::ExprView;
use crate::grammar::{
    after_capture, capture, capture_expr_between_spec, compare_spec, else_branch_spec,
    finish_spec, go_spec, lemma_measures, next_in, parse_spec, select_field_spec,
    select_index_spec, then_branch_spec,
};
use crate::state::{Context, InternalExprResultView};
use crate::token::{tokens_text, TokenView};
use crate::tokeniser::{holds_at, lemma_token_at, token_at, tokens_from, tokens_of};
use vstd::prelude::*;

verus! {

/// A parse ends well only on a finished expression: at the end of the
/// tokens, the outcome is the expression that the state holds, and an error
/// in every other state.
pub proof fn law_end_of_tokens(mode: Context, prev: InternalExprResultView)
    ensures
        go_spec(Seq::empty(), mode, prev) == finish_spec(prev),
        finish_spec(prev) is Ok <==> prev is Complete,
        prev matches InternalExprResultView::Complete(e) ==> finish_spec(prev) == Ok::<
            ExprView,
            Seq<char>,
        >(e),
{
}

/// Parsing is a function of the template: equal templates have equal
/// outcomes, the same expression or the same message.
pub proof fn law_deterministic(a: Seq<char>, b: Seq<char>)
    requires
        a == b,
    ensures
        parse_spec(a) == parse_spec(b),
{
}

/// A conditional has exactly three expressions below it, a comparison
/// exactly two, a selection exactly one, and a well-formed `Concat` two.
pub proof fn law_subtree_counts(e: ExprView)
    ensures
        e is Cond ==> e.subtrees().len() == 3,
        e is EqualTo || e is GreaterThan || e is GreaterThanOrEqualTo || e is LessThan
            || e is LessThanOrEqualTo ==> e.subtrees().len() == 2,
        e is SelectField || e is SelectIndex ==> e.subtrees().len() == 1,
        e is Concat && e.well_formed() ==> e.subtrees().len() == 2,
{
}

/// Every expression directly below a well-formed one is well formed.
pub proof fn law_subtrees_well_formed(e: ExprView)
    requires
        e.well_formed(),
    ensures
        forall|i: int| 0 <= i < e.subtrees().len() ==> (#[trigger] e.subtrees()[i]).well_formed(),
{
}

/// A well-formed expression is not made of `Concat`s alone.
pub proof fn law_well_formed_has_content(e: ExprView)
    requires
        e.well_formed(),
    ensures
        !e.concat_only(),
    decreases e,
{
    match e {
        ExprView::Concat(v) => {
            law_well_formed_has_content(v[0]);
        },
        _ => {},
    }
}

/// In a well-formed expression every selection of a field or of an index
/// selects from a subject that is well formed and not made of `Concat`s
/// alone.
pub proof fn law_selections_have_subjects(e: ExprView)
    requires
        e.well_formed(),
    ensures
        e.selections_have_subjects(),
    decreases e,
{
    match e {
        ExprView::Literal(_) => {},
        ExprView::Request => {},
        ExprView::WorkerResponse => {},
        ExprView::SelectField(s, _) | ExprView::SelectIndex(s, _) => {
            law_well_formed_has_content(*s);
            law_selections_have_subjects(*s);
        },
        ExprView::EqualTo(l, r)
        | ExprView::GreaterThan(l, r)
        | ExprView::GreaterThanOrEqualTo(l, r)
        | ExprView::LessThan(l, r)
        | ExprView::LessThanOrEqualTo(l, r) => {
            law_selections_have_subjects(*l);
            law_selections_have_subjects(*r);
        },
        ExprView::Cond(p, t, f) => {
            law_selections_have_subjects(*p);
            law_selections_have_subjects(*t);
            law_selections_have_subjects(*f);
        },
        ExprView::Concat(v) => {
            assert forall|i: int| 0 <= i < v.len() implies (#[trigger] v[i]).selections_have_subjects() by {
                law_selections_have_subjects(v[i]);
            }
        },
    }
}

/// An operand that arrives at a well-formed state leaves a well-formed
/// state.
pub proof fn lemma_continue_build_well_formed(prev: InternalExprResultView, operand: ExprView)
    requires
        prev.well_formed(),
        operand.well_formed(),
    ensures
        prev.continue_build(operand).well_formed(),
{
}

/// Reading tokens from a well-formed state yields a well-formed expression.
pub proof fn lemma_go_well_formed(ts: Seq<TokenView>, mode: Context, prev: InternalExprResultView)
    requires
        prev.well_formed(),
    ensures
        go_spec(ts, mode, prev) matches Ok(e) ==> e.well_formed(),
    decreases tokens_text(ts).len(), 0nat, ts.len(),
{
    lemma_measures(ts, mode);
    match next_in(ts, mode) {
        None => {},
        Some((t, rest)) => match t {
            TokenView::RawString(s) => {
                lemma_continue_build_well_formed(prev, ExprView::Literal(s));
                lemma_go_well_formed(rest, mode, prev.continue_build(ExprView::Literal(s)));
            },
            TokenView::Request => {
                lemma_continue_build_well_formed(prev, ExprView::Request);
                lemma_go_well_formed(rest, mode, prev.continue_build(ExprView::Request));
            },
            TokenView::WorkerResponse => {
                lemma_continue_build_well_formed(prev, ExprView::WorkerResponse);
                lemma_go_well_formed(rest, mode, prev.continue_build(ExprView::WorkerResponse));
            },
            TokenView::InterpolationStart => {
                let until = Some(TokenView::ClosedCurlyBrace);
                lemma_capture_well_formed(rest, t, until, prev);
                match capture_expr_between_spec(rest, t, until, prev) {
                    Ok(next) => {
                        lemma_go_well_formed(after_capture(rest, t, until), mode, next);
                    },
                    Err(_) => {},
                }
            },
            TokenView::OpenParen => {
                let until = Some(TokenView::CloseParen);
                lemma_capture_well_formed(rest, t, until, prev);
                match capture_expr_between_spec(rest, t, until, prev) {
                    Ok(next) => {
                        lemma_go_well_formed(after_capture(rest, t, until), mode, next);
                    },
                    Err(_) => {},
                }
            },
            TokenView::GreaterThanOrEqualTo
            | TokenView::GreaterThan
            | TokenView::LessThan
            | TokenView::LessThanOrEqualTo
            | TokenView::EqualTo => {
                let op = crate::grammar::comparison_of(t)->0;
                match compare_spec(prev, op) {
                    Ok(next) => {
                        lemma_go_well_formed(rest, mode, next);
                    },
                    Err(_) => {},
                }
            },
            TokenView::Dot => {
                match select_field_spec(rest, prev) {
                    Ok((next, rest2)) => {
                        lemma_go_well_formed(rest2, mode, next);
                    },
                    Err(_) => {},
                }
            },
            TokenView::OpenSquareBracket => {
                match select_index_spec(rest, prev) {
                    Ok((next, rest2)) => {
                        lemma_go_well_formed(rest2, mode, next);
                    },
                    Err(_) => {},
                }
            },
            TokenView::If => {
                let from = TokenView::If;
                let until = Some(TokenView::Then);
                let start = InternalExprResultView::InComplete(
                    crate::state::ExpressionContext::Condition,
                    crate::state::ContinuationView::Predicate,
                );
                lemma_capture_well_formed(rest, from, until, start);
                match capture_expr_between_spec(rest, from, until, start) {
                    Ok(next) => {
                        lemma_then_well_formed(after_capture(rest, from, until), mode, next);
                    },
                    Err(_) => {},
                }
            },
            TokenView::Then => {
                if prev.awaits_condition() {
                    lemma_then_well_formed(rest, mode, prev);
                }
            },
            TokenView::Else => {
                if prev.awaits_condition() {
                    lemma_else_well_formed(rest, mode, prev);
                }
            },
            TokenView::ClosedCurlyBrace
            | TokenView::ClosedSquareBracket
            | TokenView::CloseParen
            | TokenView::Space
            | TokenView::NewLine => {
                lemma_go_well_formed(rest, mode, prev);
            },
        },
    }
}

/// A captured region that arrives at a well-formed state leaves a
/// well-formed state.
pub proof fn lemma_capture_well_formed(
    ts: Seq<TokenView>,
    from: TokenView,
    until: Option<TokenView>,
    prev: InternalExprResultView,
)
    requires
        prev.well_formed(),
    ensures
        capture_expr_between_spec(ts, from, until, prev) matches Ok(next) ==> next.well_formed(),
    decreases tokens_text(ts).len(), 1nat, 0nat,
{
    lemma_measures(ts, Context::Code);
    match capture(ts, from, until) {
        Some((text, _)) => {
            lemma_go_well_formed(tokens_of(text), Context::Code, InternalExprResultView::Empty);
        },
        None => {},
    }
}

/// The branches of a conditional, read from a well-formed state, yield a
/// well-formed expression.
pub proof fn lemma_then_well_formed(
    ts: Seq<TokenView>,
    mode: Context,
    prev: InternalExprResultView,
)
    requires
        prev.well_formed(),
    ensures
        then_branch_spec(ts, mode, prev) matches Ok(e) ==> e.well_formed(),
    decreases tokens_text(ts).len(), 3nat, 0nat,
{
    lemma_measures(ts, Context::Code);
    let from = TokenView::Then;
    let until = Some(TokenView::Else);
    lemma_capture_well_formed(ts, from, until, prev);
    match capture_expr_between_spec(ts, from, until, prev) {
        Ok(next) => {
            lemma_else_well_formed(after_capture(ts, from, until), mode, next);
        },
        Err(_) => {},
    }
}

/// The second branch of a conditional, read from a well-formed state,
/// yields a well-formed expression.
pub proof fn lemma_else_well_formed(
    ts: Seq<TokenView>,
    mode: Context,
    prev: InternalExprResultView,
)
    requires
        prev.well_formed(),
    ensures
        else_branch_spec(ts, mode, prev) matches Ok(e) ==> e.well_formed(),
    decreases tokens_text(ts).len(), 2nat, 0nat,
{
    lemma_measures(ts, Context::Code);
    lemma_capture_well_formed(ts, TokenView::Else, None, prev);
    match capture_expr_between_spec(ts, TokenView::Else, None, prev) {
        Ok(next) => {
            lemma_go_well_formed(Seq::empty(), mode, next);
        },
        Err(_) => {},
    }
}

/// Every expression that parsing yields is well formed: each `Concat` in it
/// joins exactly two expressions, and each selection in it selects from a
/// well-formed subject that is not made of `Concat`s alone.
pub proof fn law_parsed_well_formed(input: Seq<char>)
    ensures
        parse_spec(input) matches Ok(e) ==> e.well_formed() && e.selections_have_subjects(),
{
    lemma_go_well_formed(tokens_of(input), Context::Literal, InternalExprResultView::Empty);
    match parse_spec(input) {
        Ok(e) => {
            law_selections_have_subjects(e);
        },
        Err(_) => {},
    }
}

/// Whether the template `s` opens no code region: `${` stands nowhere in
/// it.
pub open spec fn has_no_code(s: Seq<char>) -> bool {
    forall|i: int| !#[trigger] holds_at(s, i, TokenView::InterpolationStart.text())
}

/// Whether none of the tokens `ts` opens a code region.
pub open spec fn no_markers(ts: Seq<TokenView>) -> bool {
    forall|k: int| 0 <= k < ts.len() ==> !((#[trigger] ts[k]) is InterpolationStart)
}

/// The literal text that a state holds so far.
pub open spec fn state_text(prev: InternalExprResultView) -> Seq<char> {
    match prev {
        InternalExprResultView::Complete(e) => e.literal_text(),
        _ => Seq::empty(),
    }
}

/// Whether a state is one that reading literal text alone leads to.
pub open spec fn literal_state(prev: InternalExprResultView) -> bool {
    match prev {
        InternalExprResultView::Complete(e) => e.left_leaning_literals(),
        InternalExprResultView::Empty => true,
        _ => false,
    }
}

/// A template without `${` has no token that opens a code region.
pub proof fn lemma_no_markers(s: Seq<char>, i: int)
    requires
        has_no_code(s),
        0 <= i <= s.len(),
    ensures
        no_markers(tokens_from(s, i)),
    decreases s.len() - i,
{
    if i < s.len() {
        lemma_token_at(s, i);
        let t = token_at(s, i);
        lemma_no_markers(s, i + t.text().len());
        assert(!holds_at(s, i, TokenView::InterpolationStart.text()));
        assert(!(t is InterpolationStart));
    }
}

/// Literal text in the shape that reading gives is literal text.
pub proof fn lemma_left_leaning_is_literal(e: ExprView)
    requires
        e.left_leaning_literals(),
    ensures
        e.is_literal(),
    decreases e,
{
    match e {
        ExprView::Concat(v) => {
            lemma_left_leaning_is_literal(v[0]);
            assert forall|i: int| 0 <= i < v.len() implies (#[trigger] v[i]).is_literal() by {
                if i == 1 {
                    assert(v[1] is Literal);
                }
            }
        },
        _ => {},
    }
}

/// Tokens that open no code region, read as literal text, yield literal
/// text: what the state held, followed by the surface text of the tokens.
pub proof fn lemma_literal_run(ts: Seq<TokenView>, prev: InternalExprResultView)
    requires
        no_markers(ts),
        literal_state(prev),
        ts.len() > 0 || prev is Complete,
    ensures
        go_spec(ts, Context::Literal, prev) matches Ok(e) && e.left_leaning_literals()
            && e.literal_text() == state_text(prev) + tokens_text(ts),
    decreases ts.len(),
{
    if ts.len() == 0 {
        assert(state_text(prev) + tokens_text(ts) =~= state_text(prev));
    } else {
        let rest = ts.drop_first();
        let text = ts[0].text();
        assert(!(ts[0] is InterpolationStart));
        assert(ts[0].as_raw_string_token() == TokenView::RawString(text));
        let next = prev.continue_build(ExprView::Literal(text));
        assert(state_text(next) =~= state_text(prev) + text) by {
            match prev {
                InternalExprResultView::Complete(done) => {
                    let v = seq![done, ExprView::Literal(text)];
                    assert(v.drop_last() =~= seq![done]);
                    assert(seq![done].drop_last() =~= Seq::<ExprView>::empty());
                    assert(ExprView::literal_text_of(seq![done]) =~= done.literal_text()) by {
                        assert(ExprView::literal_text_of(Seq::<ExprView>::empty()) =~= Seq::<
                            char,
                        >::empty());
                        assert(seq![done].last() == done);
                    }
                    assert(v.last() == ExprView::Literal(text));
                    assert(v.last().literal_text() == text);
                    assert(ExprView::literal_text_of(v) == ExprView::literal_text_of(
                        v.drop_last(),
                    ) + v.last().literal_text());
                    assert(ExprView::literal_text_of(v) =~= done.literal_text() + text);
                    assert(next == InternalExprResultView::Complete(ExprView::Concat(v)));
                    assert(ExprView::Concat(v).literal_text() == ExprView::literal_text_of(v));
                },
                _ => {},
            }
        }
        assert(no_markers(rest)) by {
            assert forall|k: int| 0 <= k < rest.len() implies !((#[trigger] rest[k])
                is InterpolationStart) by {
                assert(rest[k] == ts[k + 1]);
            }
        }
        lemma_literal_run(rest, next);
        assert(go_spec(ts, Context::Literal, prev) == go_spec(rest, Context::Literal, next));
        assert(state_text(next) + tokens_text(rest) =~= state_text(prev) + tokens_text(ts));
    }
}

/// A template that is not empty and opens no code region stands for its own
/// text: it parses to one `Literal`, or to `Concat`s that lean to the left
/// with one `Literal` on each right, and the texts of the `Literal`s, from
/// left to right, make up the template.
pub proof fn law_literal_text(input: Seq<char>)
    requires
        input.len() > 0,
        has_no_code(input),
    ensures
        parse_spec(input) matches Ok(e) && e.left_leaning_literals() && e.is_literal()
            && e.literal_text() == input,
{
    lemma_no_markers(input, 0);
    lemma_token_at(input, 0);
    crate::tokeniser::lemma_tokens_text(input);
    lemma_literal_run(tokens_of(input), InternalExprResultView::Empty);
    let e = parse_spec(input)->Ok_0;
    lemma_left_leaning_is_literal(e);
    assert(Seq::<char>::empty() + input =~= input);
}

} // verus!
