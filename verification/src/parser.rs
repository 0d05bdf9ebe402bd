use crate::cursor::TokenCursor;
use crate::error::{outcome, ParseError};
use crate::expr::Expr;
use crate::grammar::{
    after_capture, build_with_last_complete, capture_expr_between_spec, compare_spec,
    else_branch_spec, finish_spec, go_spec, lemma_measures, missing_left_message, next_in,
    parse_spec, select_field_spec, select_index_spec, then_branch_spec, unmatched_message,
};
use crate::index::parse_index;
use crate::state::{
    Comparison, Context, Continuation, ExpressionContext, InternalExprResult,
    InternalExprResultView,
};
use crate::token::{tokens_text, Token, TokenView};
use crate::tokeniser::{tokens_of, TokeniserResult, Tokenizer};
use vstd::prelude::*;
use vstd::string::StringExecFns;

verus! {

/// The parser of routing templates.
#[derive(Clone, Copy, Debug)]
pub struct ExprParser {}

impl ExprParser {
    /// The expression that the template `input` stands for, or the first
    /// error in it.
    pub fn parse(&self, input: &str) -> (r: Result<Expr, ParseError>)
        ensures
            outcome(r) == parse_spec(input@),
    {
        let tokeniser_result = tokenise(input);
        parse_tokens(tokeniser_result)
    }
}

/// The tokens of the template `input`.
pub fn tokenise(input: &str) -> (r: TokeniserResult)
    ensures
        r@ == tokens_of(input@),
{
    Tokenizer::new(input).run()
}

/// The outcome of a step that yields a state, as a mathematical value.
pub open spec fn state_outcome(r: Result<InternalExprResult, ParseError>) -> Result<
    InternalExprResultView,
    Seq<char>,
> {
    match r {
        Ok(state) => Ok(state@),
        Err(e) => Err(e@),
    }
}

/// The kind of token that ends a capture, as a mathematical value.
pub open spec fn until_view(until: Option<&Token>) -> Option<TokenView> {
    match until {
        Some(t) => Some(t@),
        None => None,
    }
}

fn error(message: String) -> (r: ParseError)
    ensures
        r@ == message@,
{
    ParseError::Message(message)
}

fn missing_left(op: Comparison) -> (r: ParseError)
    ensures
        r@ == missing_left_message(op),
{
    match op {
        Comparison::GreaterThanOrEqualTo => error(
            String::from_str(
                "GreaterThanOrEqualTo (>=) is applied to a non existing left expression",
            ),
        ),
        Comparison::GreaterThan => error(
            String::from_str("GreaterThan (>) is applied to a non existing left expression"),
        ),
        Comparison::LessThan => error(
            String::from_str("LessThan (<) is applied to a non existing left expression"),
        ),
        Comparison::LessThanOrEqualTo => error(
            String::from_str(
                "LessThanOrEqualTo (<=)  is applied to a non existing left expression",
            ),
        ),
        Comparison::EqualTo => error(
            String::from_str("EqualTo (=) is applied to a non existing left expression"),
        ),
    }
}

fn unmatched(from: &Token, until: Option<&Token>) -> (r: ParseError)
    ensures
        r@ == unmatched_message(from@, until_view(until)),
{
    let closer = match until {
        Some(close) => String::from_str("Some(").concat(close.kind_name().as_str()).concat(")"),
        None => String::from_str("None"),
    };
    error(
        String::from_str("Unable to find a matching closing symbol ").concat(
            closer.as_str(),
        ).concat(" corresponding to ").concat(from.to_string().as_str()),
    )
}

/// What a comparison operator makes of the state `last_expression` in
/// front of it. With a finished expression it yields a comparison of the
/// construct `scope` that awaits its right side; else an error.
pub fn build_with_last_complete_expr(
    scope: ExpressionContext,
    last_expression: InternalExprResult,
    op: Comparison,
) -> (r: Result<InternalExprResult, ParseError>)
    ensures
        state_outcome(r) == build_with_last_complete(scope, last_expression@, op),
{
    match last_expression {
        InternalExprResult::Complete(prev_complete_expr) => Ok(
            InternalExprResult::incomplete(scope, Continuation::Compare(op, prev_complete_expr)),
        ),
        InternalExprResult::InComplete(_, _) => Err(
            error(String::from_str("Cannot apply greater than on top of an incomplete expression")),
        ),
        InternalExprResult::Empty => Err(
            error(String::from_str("Cannot apply greater than on an empty expression")),
        ),
    }
}

/// What the comparison operator `op`, just read, makes of the state in
/// front of it.
fn compare(prev: InternalExprResult, op: Comparison) -> (r: Result<
    InternalExprResult,
    ParseError,
>)
    ensures
        state_outcome(r) == compare_spec(prev@, op),
{
    if prev.is_empty() {
        Err(missing_left(op))
    } else {
        build_with_last_complete_expr(op.context(), prev, op)
    }
}

/// What a dot, just read, makes of the state in front of it: the next
/// token that is no white space is read as the name of a field.
fn select_field(cursor: &mut TokenCursor, prev: InternalExprResult) -> (r: Result<
    InternalExprResult,
    ParseError,
>)
    ensures
        match select_field_spec(old(cursor)@, prev@) {
            Ok((next, rest)) => r is Ok && r->Ok_0@ == next && final(cursor)@ == rest,
            Err(m) => r is Err && r->Err_0@ == m,
        },
{
    match cursor.next_non_empty_token() {
        Some(Token::RawString(field)) => {
            match prev {
                InternalExprResult::Complete(expr) => Ok(
                    InternalExprResult::complete(Expr::SelectField(Box::new(expr), field)),
                ),
                _ => Err(
                    error(
                        String::from_str("Invalid token field ").concat(field.as_str()).concat(
                            ". Make sure expression format is correct",
                        ),
                    ),
                ),
            }
        },
        Some(found) => Err(
            error(
                String::from_str("Expecting a valid field selection after dot instead of ").concat(
                    found.to_string().as_str(),
                ).concat("."),
            ),
        ),
        None => Err(error(String::from_str("Expecting a field after dot"))),
    }
}

/// What an opening square bracket, just read, makes of the state in front
/// of it: the text up to the closing bracket is read as an index.
fn select_index(cursor: &mut TokenCursor, prev: InternalExprResult) -> (r: Result<
    InternalExprResult,
    ParseError,
>)
    ensures
        match select_index_spec(old(cursor)@, prev@) {
            Ok((next, rest)) => r is Ok && r->Ok_0@ == next && final(cursor)@ == rest,
            Err(m) => r is Err && r->Err_0@ == m,
        },
{
    match prev {
        InternalExprResult::Complete(prev_expr) => {
            let optional_possible_index = cursor.capture_string_between(
                &Token::OpenSquareBracket,
                &Token::ClosedSquareBracket,
            );
            match optional_possible_index {
                Some(index) => {
                    match parse_index(index.as_str()) {
                        Some(n) => Ok(
                            InternalExprResult::complete(
                                Expr::SelectIndex(Box::new(prev_expr), n),
                            ),
                        ),
                        None => Err(
                            error(
                                String::from_str("Invalid index ").concat(index.as_str()).concat(
                                    " obtained within square brackets",
                                ),
                            ),
                        ),
                    }
                },
                None => Err(
                    error(
                        String::from_str(
                            "Expecting a valid index inside square brackets near to field",
                        ),
                    ),
                ),
            }
        },
        _ => Err(error(String::from_str("Invalid token ["))),
    }
}

/// What the end of the tokens makes of the state.
fn finish(prev: InternalExprResult) -> (r: Result<Expr, ParseError>)
    ensures
        outcome(r) == finish_spec(prev@),
{
    match prev {
        InternalExprResult::Complete(expr) => Ok(expr),
        _ => Err(error(String::from_str("failed expression. Internal logical error"))),
    }
}

/// Parses the tokens of a template: they are read as literal text, from
/// nothing.
pub fn parse_tokens(tokeniser_result: TokeniserResult) -> (r: Result<Expr, ParseError>)
    ensures
        outcome(r) == go_spec(
            tokeniser_result@,
            Context::Literal,
            InternalExprResultView::Empty,
        ),
{
    let mut tokeniser_cursor = tokeniser_result.to_cursor();
    go(&mut tokeniser_cursor, Context::Literal, InternalExprResult::Empty)
}

/// Reads the tokens that are left behind `cursor`, each in `context`, from
/// the state `prev_expression`, to the end.
fn go(cursor: &mut TokenCursor, context: Context, prev_expression: InternalExprResult) -> (r:
    Result<Expr, ParseError>)
    ensures
        outcome(r) == go_spec(old(cursor)@, context, prev_expression@),
    decreases tokens_text(old(cursor)@).len(), 0nat, old(cursor)@.len(),
{
    let mut prev = prev_expression;
    loop
        invariant
            go_spec(cursor@, context, prev@) == go_spec(old(cursor)@, context, prev_expression@),
            tokens_text(cursor@).len() <= tokens_text(old(cursor)@).len(),
            cursor@.len() <= old(cursor)@.len(),
        decreases cursor@.len(),
    {
        let ghost ts = cursor@;
        let ghost before = prev@;
        proof {
            lemma_measures(ts, context);
        }
        let token = if context.is_code() {
            cursor.next_non_empty_token()
        } else {
            match cursor.next_token() {
                Some(t) => Some(t.as_raw_string_token()),
                None => None,
            }
        };
        let ghost rest = cursor@;
        assert(match token {
            Some(t) => next_in(ts, context) == Some((t@, rest)),
            None => next_in(ts, context) is None,
        });
        match token {
            None => {
                return finish(prev);
            },
            Some(token) => {
                match token {
                    Token::RawString(raw_string) => {
                        prev = prev.continue_build(Expr::Literal(raw_string));
                    },
                    Token::Request => {
                        prev = prev.continue_build(Expr::Request());
                    },
                    Token::WorkerResponse => {
                        prev = prev.continue_build(Expr::WorkerResponse());
                    },
                    Token::InterpolationStart => {
                        match capture_expr_between(
                            cursor,
                            &Token::InterpolationStart,
                            Some(&Token::ClosedCurlyBrace),
                            prev,
                        ) {
                            Ok(next) => {
                                prev = next;
                            },
                            Err(e) => {
                                return Err(e);
                            },
                        }
                    },
                    Token::OpenParen => {
                        match capture_expr_between(
                            cursor,
                            &Token::OpenParen,
                            Some(&Token::CloseParen),
                            prev,
                        ) {
                            Ok(next) => {
                                prev = next;
                            },
                            Err(e) => {
                                return Err(e);
                            },
                        }
                    },
                    Token::GreaterThanOrEqualTo => {
                        match compare(prev, Comparison::GreaterThanOrEqualTo) {
                            Ok(next) => {
                                prev = next;
                            },
                            Err(e) => {
                                return Err(e);
                            },
                        }
                    },
                    Token::GreaterThan => {
                        match compare(prev, Comparison::GreaterThan) {
                            Ok(next) => {
                                prev = next;
                            },
                            Err(e) => {
                                return Err(e);
                            },
                        }
                    },
                    Token::LessThan => {
                        match compare(prev, Comparison::LessThan) {
                            Ok(next) => {
                                prev = next;
                            },
                            Err(e) => {
                                return Err(e);
                            },
                        }
                    },
                    Token::LessThanOrEqualTo => {
                        match compare(prev, Comparison::LessThanOrEqualTo) {
                            Ok(next) => {
                                prev = next;
                            },
                            Err(e) => {
                                return Err(e);
                            },
                        }
                    },
                    Token::EqualTo => {
                        match compare(prev, Comparison::EqualTo) {
                            Ok(next) => {
                                prev = next;
                            },
                            Err(e) => {
                                return Err(e);
                            },
                        }
                    },
                    Token::Dot => {
                        match select_field(cursor, prev) {
                            Ok(next) => {
                                prev = next;
                            },
                            Err(e) => {
                                return Err(e);
                            },
                        }
                    },
                    Token::OpenSquareBracket => {
                        match select_index(cursor, prev) {
                            Ok(next) => {
                                prev = next;
                            },
                            Err(e) => {
                                return Err(e);
                            },
                        }
                    },
                    Token::If => {
                        let new_expr = InternalExprResult::incomplete(
                            ExpressionContext::Condition,
                            Continuation::Predicate,
                        );
                        match capture_expr_between(
                            cursor,
                            &Token::If,
                            Some(&Token::Then),
                            new_expr,
                        ) {
                            Ok(captured_predicate) => {
                                return then_branch(cursor, context, captured_predicate);
                            },
                            Err(e) => {
                                return Err(e);
                            },
                        }
                    },
                    Token::Then => {
                        if prev.awaits_condition() {
                            return then_branch(cursor, context, prev);
                        } else {
                            return Err(
                                error(
                                    String::from_str(
                                        "then is a keyword and should be part of a if else condition logic",
                                    ),
                                ),
                            );
                        }
                    },
                    Token::Else => {
                        if prev.awaits_condition() {
                            return else_branch(cursor, context, prev);
                        } else {
                            return Err(
                                error(
                                    String::from_str(
                                        "else is a keyword and should be part of a if else condition logic",
                                    ),
                                ),
                            );
                        }
                    },
                    Token::ClosedCurlyBrace => {},
                    Token::ClosedSquareBracket => {},
                    Token::CloseParen => {},
                    Token::Space => {},
                    Token::NewLine => {},
                }
            },
        }
    }
}

/// Captures the text behind the opening token `capture_from`, which was
/// read just before: up to the token that closes the region where
/// `capture_until` names its kind, else all that is left. The text is read
/// as code by itself, and the expression that it stands for arrives at
/// `prev_expression` as an operand. The cursor moves behind the capture, or
/// to the end where nothing closes the region.
pub fn capture_expr_between(
    cursor: &mut TokenCursor,
    capture_from: &Token,
    capture_until: Option<&Token>,
    prev_expression: InternalExprResult,
) -> (r: Result<InternalExprResult, ParseError>)
    ensures
        state_outcome(r) == capture_expr_between_spec(
            old(cursor)@,
            capture_from@,
            until_view(capture_until),
            prev_expression@,
        ),
        final(cursor)@ == after_capture(old(cursor)@, capture_from@, until_view(capture_until)),
    decreases tokens_text(old(cursor)@).len(), 1nat, 0nat,
{
    proof {
        lemma_measures(cursor@, Context::Code);
    }
    let optional_captured_string = match capture_until {
        Some(last_token) => cursor.capture_string_between(capture_from, last_token),
        None => cursor.capture_tail(),
    };
    match optional_captured_string {
        Some(captured_string) => {
            let mut new_cursor = Tokenizer::new(captured_string.as_str()).run().to_cursor();
            match go(&mut new_cursor, Context::Code, InternalExprResult::Empty) {
                Ok(inner_expr) => Ok(prev_expression.continue_build(inner_expr)),
                Err(e) => Err(e),
            }
        },
        None => Err(unmatched(capture_from, capture_until)),
    }
}

/// What follows a `then` that was read just before: the first branch is
/// captured up to its `else`, and the second branch follows at once.
fn then_branch(cursor: &mut TokenCursor, context: Context, prev: InternalExprResult) -> (r: Result<
    Expr,
    ParseError,
>)
    ensures
        outcome(r) == then_branch_spec(old(cursor)@, context, prev@),
    decreases tokens_text(old(cursor)@).len(), 3nat, 0nat,
{
    proof {
        lemma_measures(cursor@, Context::Code);
    }
    match capture_expr_between(cursor, &Token::Then, Some(&Token::Else), prev) {
        Ok(next) => else_branch(cursor, context, next),
        Err(e) => Err(e),
    }
}

/// What follows an `else` that was read just before: the second branch is
/// all that is left of the tokens.
fn else_branch(cursor: &mut TokenCursor, context: Context, prev: InternalExprResult) -> (r: Result<
    Expr,
    ParseError,
>)
    ensures
        outcome(r) == else_branch_spec(old(cursor)@, context, prev@),
    decreases tokens_text(old(cursor)@).len(), 2nat, 0nat,
{
    proof {
        lemma_measures(cursor@, Context::Code);
    }
    match capture_expr_between(cursor, &Token::Else, None, prev) {
        Ok(next) => go(cursor, context, next),
        Err(e) => Err(e),
    }
}

} // verus!
