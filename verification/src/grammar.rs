use crate::cursor::{
    capture_between, lemma_capture_between, lemma_closing_index, lemma_skip_blank, skip_blank,
};
use crate::expr::ExprView;
use crate::index::index_in_range;
use crate::state::{
    Comparison, Context, ContinuationView, ExpressionContext, InternalExprResultView,
};
use crate::token::{tokens_text, TokenView};
use crate::tokeniser::{lemma_tokens_text, tokens_of};
use vstd::prelude::*;

verus! {

/// The message for a comparison operator that has nothing on its left.
pub open spec fn missing_left_message(op: Comparison) -> Seq<char> {
    match op {
        Comparison::GreaterThanOrEqualTo => "GreaterThanOrEqualTo (>=) is applied to a non existing left expression"@,
        Comparison::GreaterThan => "GreaterThan (>) is applied to a non existing left expression"@,
        Comparison::LessThan => "LessThan (<) is applied to a non existing left expression"@,
        Comparison::LessThanOrEqualTo => "LessThanOrEqualTo (<=)  is applied to a non existing left expression"@,
        Comparison::EqualTo => "EqualTo (=) is applied to a non existing left expression"@,
    }
}

/// The message for a comparison operator behind an unfinished expression.
pub open spec fn incomplete_left_message() -> Seq<char> {
    "Cannot apply greater than on top of an incomplete expression"@
}

/// The message for a comparison operator that is to extend nothing.
pub open spec fn empty_left_message() -> Seq<char> {
    "Cannot apply greater than on an empty expression"@
}

/// The message for a dot that is followed by `found`, which names no field.
pub open spec fn invalid_field_message(found: TokenView) -> Seq<char> {
    "Expecting a valid field selection after dot instead of "@ + found.text() + "."@
}

/// The message for a dot that is followed by nothing.
pub open spec fn missing_field_message() -> Seq<char> {
    "Expecting a field after dot"@
}

/// The message for the selection of `field` from nothing finished.
pub open spec fn field_without_subject_message(field: Seq<char>) -> Seq<char> {
    "Invalid token field "@ + field + ". Make sure expression format is correct"@
}

/// The message for an index that is selected from nothing finished.
pub open spec fn index_without_subject_message() -> Seq<char> {
    "Invalid token ["@
}

/// The message for an opening square bracket that nothing closes.
pub open spec fn missing_index_message() -> Seq<char> {
    "Expecting a valid index inside square brackets near to field"@
}

/// The message for square brackets around `text`, which writes no index.
pub open spec fn invalid_index_message(text: Seq<char>) -> Seq<char> {
    "Invalid index "@ + text + " obtained within square brackets"@
}

/// The message for a `then` outside a conditional.
pub open spec fn stray_then_message() -> Seq<char> {
    "then is a keyword and should be part of a if else condition logic"@
}

/// The message for an `else` outside a conditional.
pub open spec fn stray_else_message() -> Seq<char> {
    "else is a keyword and should be part of a if else condition logic"@
}

/// The message for a region opened by `from` that no token of the kind of
/// `until` closes.
pub open spec fn unmatched_message(from: TokenView, until: Option<TokenView>) -> Seq<char> {
    "Unable to find a matching closing symbol "@ + (match until {
        Some(close) => "Some("@ + close.kind_name() + ")"@,
        None => "None"@,
    }) + " corresponding to "@ + from.text()
}

/// The message for tokens that end on anything but a finished expression.
pub open spec fn unfinished_message() -> Seq<char> {
    "failed expression. Internal logical error"@
}

/// The token that is read next from `ts`, and the tokens behind it. In code,
/// white space is passed over; in literal text, every token is taken as
/// literal text, but for the marker that opens a code region.
pub open spec fn next_in(ts: Seq<TokenView>, mode: Context) -> Option<(TokenView, Seq<TokenView>)> {
    match mode {
        Context::Code => {
            let s = skip_blank(ts);
            if s.len() > 0 {
                Some((s[0], s.drop_first()))
            } else {
                None
            }
        },
        Context::Literal => {
            if ts.len() > 0 {
                Some((ts[0].as_raw_string_token(), ts.drop_first()))
            } else {
                None
            }
        },
    }
}

/// What is captured from `ts` behind the opening token `from`: up to the
/// token that closes the region where `until` names its kind, else all that
/// is left. The text, and the tokens behind the capture.
pub open spec fn capture(ts: Seq<TokenView>, from: TokenView, until: Option<TokenView>) -> Option<
    (Seq<char>, Seq<TokenView>),
> {
    match until {
        Some(close) => capture_between(ts, from, close),
        None => Some((tokens_text(ts), Seq::empty())),
    }
}

/// The tokens that are left behind a capture; none where it fails.
pub open spec fn after_capture(ts: Seq<TokenView>, from: TokenView, until: Option<TokenView>) -> Seq<
    TokenView,
> {
    match capture(ts, from, until) {
        Some((_, rest)) => rest,
        None => Seq::empty(),
    }
}

/// What a comparison operator makes of the state in front of it: with a
/// finished expression, a comparison that awaits its right side.
pub open spec fn build_with_last_complete(
    scope: ExpressionContext,
    last: InternalExprResultView,
    op: Comparison,
) -> Result<InternalExprResultView, Seq<char>> {
    match last {
        InternalExprResultView::Complete(lhs) => Ok(
            InternalExprResultView::InComplete(scope, ContinuationView::Compare(op, lhs)),
        ),
        InternalExprResultView::InComplete(_, _) => Err(incomplete_left_message()),
        InternalExprResultView::Empty => Err(empty_left_message()),
    }
}

/// What a comparison operator that has just been read makes of the state
/// in front of it. It needs a finished expression on its left.
pub open spec fn compare_spec(prev: InternalExprResultView, op: Comparison) -> Result<
    InternalExprResultView,
    Seq<char>,
> {
    if prev is Empty {
        Err(missing_left_message(op))
    } else {
        build_with_last_complete(op.scope(), prev, op)
    }
}

/// What a dot that has just been read makes of the state in front of it:
/// the next token that is no white space must be raw text, which names a
/// field of the finished expression. The new state, and the tokens left.
pub open spec fn select_field_spec(ts: Seq<TokenView>, prev: InternalExprResultView) -> Result<
    (InternalExprResultView, Seq<TokenView>),
    Seq<char>,
> {
    match next_in(ts, Context::Code) {
        Some((TokenView::RawString(field), rest)) => match prev {
            InternalExprResultView::Complete(e) => Ok(
                (
                    InternalExprResultView::Complete(ExprView::SelectField(Box::new(e), field)),
                    rest,
                ),
            ),
            _ => Err(field_without_subject_message(field)),
        },
        Some((found, _)) => Err(invalid_field_message(found)),
        None => Err(missing_field_message()),
    }
}

/// What an opening square bracket that has just been read makes of the state
/// in front of it: the text up to the closing bracket must write an index
/// into the finished expression. The new state, and the tokens left.
pub open spec fn select_index_spec(ts: Seq<TokenView>, prev: InternalExprResultView) -> Result<
    (InternalExprResultView, Seq<TokenView>),
    Seq<char>,
> {
    match prev {
        InternalExprResultView::Complete(e) => match capture_between(
            ts,
            TokenView::OpenSquareBracket,
            TokenView::ClosedSquareBracket,
        ) {
            Some((text, rest)) => match index_in_range(text) {
                Some(n) => Ok(
                    (
                        InternalExprResultView::Complete(
                            ExprView::SelectIndex(Box::new(e), n as nat),
                        ),
                        rest,
                    ),
                ),
                None => Err(invalid_index_message(text)),
            },
            None => Err(missing_index_message()),
        },
        _ => Err(index_without_subject_message()),
    }
}

/// What the end of the tokens makes of the state: it must hold a finished
/// expression.
pub open spec fn finish_spec(prev: InternalExprResultView) -> Result<ExprView, Seq<char>> {
    match prev {
        InternalExprResultView::Complete(e) => Ok(e),
        _ => Err(unfinished_message()),
    }
}

/// The operator that a token stands for, if it is a comparison.
pub open spec fn comparison_of(t: TokenView) -> Option<Comparison> {
    match t {
        TokenView::EqualTo => Some(Comparison::EqualTo),
        TokenView::GreaterThan => Some(Comparison::GreaterThan),
        TokenView::GreaterThanOrEqualTo => Some(Comparison::GreaterThanOrEqualTo),
        TokenView::LessThan => Some(Comparison::LessThan),
        TokenView::LessThanOrEqualTo => Some(Comparison::LessThanOrEqualTo),
        _ => None,
    }
}

/// The next token and the tokens behind it make up no more than `ts`.
pub proof fn lemma_next_in(ts: Seq<TokenView>, mode: Context)
    ensures
        match next_in(ts, mode) {
            Some((t, rest)) => rest.len() < ts.len() && tokens_text(rest).len() + t.text().len()
                <= tokens_text(ts).len(),
            None => true,
        },
{
    match mode {
        Context::Code => {
            lemma_skip_blank(ts);
        },
        Context::Literal => {},
    }
}

/// A capture yields no more text than the tokens had, tokenising that text
/// again keeps its length, and the tokens left have no more text either.
pub proof fn lemma_capture(ts: Seq<TokenView>, from: TokenView, until: Option<TokenView>)
    ensures
        tokens_text(after_capture(ts, from, until)).len() <= tokens_text(ts).len(),
        after_capture(ts, from, until).len() <= ts.len(),
        match capture(ts, from, until) {
            Some((text, rest)) => text.len() <= tokens_text(ts).len() && tokens_text(
                tokens_of(text),
            ).len() == text.len(),
            None => true,
        },
{
    match until {
        Some(close) => {
            lemma_capture_between(ts, from, close);
            lemma_closing_index(ts, from, close, 0, 0);
        },
        None => {},
    }
    match capture(ts, from, until) {
        Some((text, rest)) => {
            lemma_tokens_text(text);
        },
        None => {},
    }
}

/// What all recursion of the grammar rests on: reading and capturing leave
/// less than there was.
pub proof fn lemma_measures(ts: Seq<TokenView>, mode: Context)
    ensures
        match next_in(ts, mode) {
            Some((t, rest)) => rest.len() < ts.len() && tokens_text(rest).len() + t.text().len()
                <= tokens_text(ts).len(),
            None => true,
        },
        forall|us: Seq<TokenView>, from: TokenView, until: Option<TokenView>| #[trigger]
            tokens_text(after_capture(us, from, until)).len() <= tokens_text(us).len(),
        forall|us: Seq<TokenView>, from: TokenView, until: Option<TokenView>|
            (#[trigger] after_capture(us, from, until)).len() <= us.len(),
        forall|us: Seq<TokenView>, from: TokenView, until: Option<TokenView>|
            match #[trigger] capture(us, from, until) {
                Some((text, rest)) => text.len() <= tokens_text(us).len() && tokens_text(
                    tokens_of(text),
                ).len() == text.len(),
                None => true,
            },
        forall|us: Seq<TokenView>, prev: InternalExprResultView|
            match #[trigger] select_field_spec(us, prev) {
                Ok((_, rest)) => rest.len() <= us.len() && tokens_text(rest).len() <= tokens_text(
                    us,
                ).len(),
                Err(_) => true,
            },
        forall|us: Seq<TokenView>, prev: InternalExprResultView|
            match #[trigger] select_index_spec(us, prev) {
                Ok((_, rest)) => rest.len() <= us.len() && tokens_text(rest).len() <= tokens_text(
                    us,
                ).len(),
                Err(_) => true,
            },
{
    lemma_next_in(ts, mode);
    assert forall|us: Seq<TokenView>, from: TokenView, until: Option<TokenView>|
        (#[trigger] after_capture(us, from, until)).len() <= us.len() by {
        lemma_capture(us, from, until);
    }
    assert forall|us: Seq<TokenView>, prev: InternalExprResultView|
        match #[trigger] select_field_spec(us, prev) {
            Ok((_, rest)) => rest.len() <= us.len() && tokens_text(rest).len() <= tokens_text(
                us,
            ).len(),
            Err(_) => true,
        } by {
        lemma_next_in(us, Context::Code);
    }
    assert forall|us: Seq<TokenView>, prev: InternalExprResultView|
        match #[trigger] select_index_spec(us, prev) {
            Ok((_, rest)) => rest.len() <= us.len() && tokens_text(rest).len() <= tokens_text(
                us,
            ).len(),
            Err(_) => true,
        } by {
        lemma_capture(us, TokenView::OpenSquareBracket, Some(TokenView::ClosedSquareBracket));
    }
    assert forall|us: Seq<TokenView>, from: TokenView, until: Option<TokenView>| #[trigger]
        tokens_text(after_capture(us, from, until)).len() <= tokens_text(us).len() by {
        lemma_capture(us, from, until);
    }
    assert forall|us: Seq<TokenView>, from: TokenView, until: Option<TokenView>|
        match #[trigger] capture(us, from, until) {
            Some((text, rest)) => text.len() <= tokens_text(us).len() && tokens_text(
                tokens_of(text),
            ).len() == text.len(),
            None => true,
        } by {
        lemma_capture(us, from, until);
    }
}

/// The expression that the tokens `ts` stand for where they follow what
/// `prev` holds, or the message of the first error. Each token is read in
/// `mode` and changes the state; at the end the state must hold a finished
/// expression.
pub open spec fn go_spec(ts: Seq<TokenView>, mode: Context, prev: InternalExprResultView) -> Result<
    ExprView,
    Seq<char>,
>
    decreases tokens_text(ts).len(), 0nat, ts.len(),
{
    proof {
        lemma_measures(ts, mode);
    }
    match next_in(ts, mode) {
        None => finish_spec(prev),
        Some((t, rest)) => match t {
            TokenView::RawString(s) => go_spec(
                rest,
                mode,
                prev.continue_build(ExprView::Literal(s)),
            ),
            TokenView::Request => go_spec(rest, mode, prev.continue_build(ExprView::Request)),
            TokenView::WorkerResponse => go_spec(
                rest,
                mode,
                prev.continue_build(ExprView::WorkerResponse),
            ),
            TokenView::InterpolationStart => match capture_expr_between_spec(
                rest,
                t,
                Some(TokenView::ClosedCurlyBrace),
                prev,
            ) {
                Ok(next) => go_spec(
                    after_capture(rest, t, Some(TokenView::ClosedCurlyBrace)),
                    mode,
                    next,
                ),
                Err(m) => Err(m),
            },
            TokenView::OpenParen => match capture_expr_between_spec(
                rest,
                t,
                Some(TokenView::CloseParen),
                prev,
            ) {
                Ok(next) => go_spec(after_capture(rest, t, Some(TokenView::CloseParen)), mode, next),
                Err(m) => Err(m),
            },
            TokenView::GreaterThanOrEqualTo
            | TokenView::GreaterThan
            | TokenView::LessThan
            | TokenView::LessThanOrEqualTo
            | TokenView::EqualTo => match compare_spec(prev, comparison_of(t)->0) {
                Ok(next) => go_spec(rest, mode, next),
                Err(m) => Err(m),
            },
            TokenView::Dot => match select_field_spec(rest, prev) {
                Ok((next, rest2)) => go_spec(rest2, mode, next),
                Err(m) => Err(m),
            },
            TokenView::OpenSquareBracket => match select_index_spec(rest, prev) {
                Ok((next, rest2)) => go_spec(rest2, mode, next),
                Err(m) => Err(m),
            },
            TokenView::If => match capture_expr_between_spec(
                rest,
                TokenView::If,
                Some(TokenView::Then),
                InternalExprResultView::InComplete(
                    ExpressionContext::Condition,
                    ContinuationView::Predicate,
                ),
            ) {
                Ok(next) => then_branch_spec(
                    after_capture(rest, TokenView::If, Some(TokenView::Then)),
                    mode,
                    next,
                ),
                Err(m) => Err(m),
            },
            TokenView::Then => if prev.awaits_condition() {
                then_branch_spec(rest, mode, prev)
            } else {
                Err(stray_then_message())
            },
            TokenView::Else => if prev.awaits_condition() {
                else_branch_spec(rest, mode, prev)
            } else {
                Err(stray_else_message())
            },
            TokenView::ClosedCurlyBrace
            | TokenView::ClosedSquareBracket
            | TokenView::CloseParen
            | TokenView::Space
            | TokenView::NewLine => go_spec(rest, mode, prev),
        },
    }
}

/// The state that follows a captured region: the text behind the opening
/// token `from` is captured from `ts`, read as code by itself, and the
/// expression that it stands for arrives at `prev` as an operand.
pub open spec fn capture_expr_between_spec(
    ts: Seq<TokenView>,
    from: TokenView,
    until: Option<TokenView>,
    prev: InternalExprResultView,
) -> Result<InternalExprResultView, Seq<char>>
    decreases tokens_text(ts).len(), 1nat, 0nat,
{
    proof {
        lemma_measures(ts, Context::Code);
    }
    match capture(ts, from, until) {
        Some((text, _)) => match go_spec(
            tokens_of(text),
            Context::Code,
            InternalExprResultView::Empty,
        ) {
            Ok(inner) => Ok(prev.continue_build(inner)),
            Err(m) => Err(m),
        },
        None => Err(unmatched_message(from, until)),
    }
}

/// What follows a `then` that has just been read: the first branch is
/// captured up to its `else`, and the second branch follows at once.
pub open spec fn then_branch_spec(
    ts: Seq<TokenView>,
    mode: Context,
    prev: InternalExprResultView,
) -> Result<ExprView, Seq<char>>
    decreases tokens_text(ts).len(), 3nat, 0nat,
{
    proof {
        lemma_measures(ts, Context::Code);
    }
    match capture_expr_between_spec(ts, TokenView::Then, Some(TokenView::Else), prev) {
        Ok(next) => else_branch_spec(
            after_capture(ts, TokenView::Then, Some(TokenView::Else)),
            mode,
            next,
        ),
        Err(m) => Err(m),
    }
}

/// What follows an `else` that has just been read: the second branch is all
/// that is left of the tokens.
pub open spec fn else_branch_spec(
    ts: Seq<TokenView>,
    mode: Context,
    prev: InternalExprResultView,
) -> Result<ExprView, Seq<char>>
    decreases tokens_text(ts).len(), 2nat, 0nat,
{
    proof {
        lemma_measures(ts, Context::Code);
    }
    match capture_expr_between_spec(ts, TokenView::Else, None, prev) {
        Ok(next) => go_spec(Seq::empty(), mode, next),
        Err(m) => Err(m),
    }
}

/// The expression that a template stands for, or the message of the first
/// error: its tokens are read as literal text, from nothing.
pub open spec fn parse_spec(input: Seq<char>) -> Result<ExprView, Seq<char>> {
    go_spec(tokens_of(input), Context::Literal, InternalExprResultView::Empty)
}

} // verus!
