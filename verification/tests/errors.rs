use template_expr::error::ParseError;
use template_expr::expr::Expr;
use template_expr::parser::{
    build_with_last_complete_expr, capture_expr_between, parse_tokens, tokenise, ExprParser,
};
use template_expr::state::{
    Comparison, Context, Continuation, ExpressionContext, InternalExprResult,
};
use template_expr::token::Token;

fn parse(input: &str) -> Result<Expr, ParseError> {
    ExprParser {}.parse(input)
}

fn message(input: &str) -> String {
    match parse(input) {
        Err(e) => e.to_string(),
        Ok(e) => panic!("{:?} parsed to {:?}", input, e),
    }
}

fn lit(s: &str) -> Expr {
    Expr::Literal(s.to_string())
}

fn field(e: Expr, name: &str) -> Expr {
    Expr::SelectField(Box::new(e), name.to_string())
}

#[test]
fn comparison_without_left_side() {
    assert_eq!(
        message("${>2}"),
        "GreaterThan (>) is applied to a non existing left expression"
    );
    assert_eq!(
        message("${>=2}"),
        "GreaterThanOrEqualTo (>=) is applied to a non existing left expression"
    );
    assert_eq!(
        message("${<2}"),
        "LessThan (<) is applied to a non existing left expression"
    );
    assert_eq!(
        message("${<=2}"),
        "LessThanOrEqualTo (<=)  is applied to a non existing left expression"
    );
    assert_eq!(
        message("${==2}"),
        "EqualTo (=) is applied to a non existing left expression"
    );
}

#[test]
fn comparison_behind_unfinished_expression() {
    assert_eq!(
        message("${1 > > 2}"),
        "Cannot apply greater than on top of an incomplete expression"
    );
    assert_eq!(
        message("${1 == <= 2}"),
        "Cannot apply greater than on top of an incomplete expression"
    );
}

#[test]
fn build_with_last_complete_expr_on_each_state() {
    assert_eq!(
        build_with_last_complete_expr(
            ExpressionContext::LessThan,
            InternalExprResult::Complete(lit("a")),
            Comparison::LessThan
        ),
        Ok(InternalExprResult::InComplete(
            ExpressionContext::LessThan,
            Continuation::Compare(Comparison::LessThan, lit("a"))
        ))
    );
    assert_eq!(
        build_with_last_complete_expr(
            ExpressionContext::LessThan,
            InternalExprResult::Empty,
            Comparison::LessThan
        ),
        Err(ParseError::Message(
            "Cannot apply greater than on an empty expression".to_string()
        ))
    );
    assert_eq!(
        build_with_last_complete_expr(
            ExpressionContext::EqualTo,
            InternalExprResult::InComplete(
                ExpressionContext::Condition,
                Continuation::Predicate
            ),
            Comparison::EqualTo
        ),
        Err(ParseError::Message(
            "Cannot apply greater than on top of an incomplete expression".to_string()
        ))
    );
}

#[test]
fn dot_without_field() {
    assert_eq!(message("${request.}"), "Expecting a field after dot");
    assert_eq!(message("${request.  }"), "Expecting a field after dot");
    assert_eq!(
        message("${request.[0]}"),
        "Expecting a valid field selection after dot instead of [."
    );
    assert_eq!(
        message("${request.request}"),
        "Expecting a valid field selection after dot instead of request."
    );
    assert_eq!(
        message("${request..a}"),
        "Expecting a valid field selection after dot instead of .."
    );
}

#[test]
fn dot_without_subject() {
    assert_eq!(
        message("${.foo}"),
        "Invalid token field foo. Make sure expression format is correct"
    );
    assert_eq!(
        message("${1 > .foo}"),
        "Invalid token field foo. Make sure expression format is correct"
    );
}

#[test]
fn dot_followed_by_digit_selects_a_field() {
    assert_eq!(parse("${request.1}"), Ok(field(Expr::Request(), "1")));
}

#[test]
fn dot_skips_white_space_before_field() {
    assert_eq!(parse("${request. \n body}"), Ok(field(Expr::Request(), "body")));
}

#[test]
fn index_without_subject() {
    assert_eq!(message("${[0]}"), "Invalid token [");
    assert_eq!(message("${1 > [0]}"), "Invalid token [");
}

#[test]
fn index_that_is_no_number() {
    assert_eq!(
        message("${request[abc]}"),
        "Invalid index abc obtained within square brackets"
    );
    assert_eq!(
        message("${request[ -1 ]}"),
        "Invalid index  -1  obtained within square brackets"
    );
    assert_eq!(
        message("${request[]}"),
        "Invalid index  obtained within square brackets"
    );
    assert_eq!(
        message("${request[99999999999999999999999999]}"),
        "Invalid index 99999999999999999999999999 obtained within square brackets"
    );
}

#[test]
fn index_with_white_space_inside() {
    assert_eq!(
        parse("${request[ 1 ]}"),
        Ok(Expr::SelectIndex(Box::new(Expr::Request()), 1))
    );
    assert_eq!(
        parse("${request[\n12\n]}"),
        Ok(Expr::SelectIndex(Box::new(Expr::Request()), 12))
    );
}

#[test]
fn index_without_closing_bracket() {
    assert_eq!(
        message("${request[0}"),
        "Expecting a valid index inside square brackets near to field"
    );
}

#[test]
fn stray_then_and_else() {
    assert_eq!(
        message("${then}"),
        "then is a keyword and should be part of a if else condition logic"
    );
    assert_eq!(
        message("${a then b}"),
        "then is a keyword and should be part of a if else condition logic"
    );
    assert_eq!(
        message("${else}"),
        "else is a keyword and should be part of a if else condition logic"
    );
    assert_eq!(
        message("${1 > else}"),
        "else is a keyword and should be part of a if else condition logic"
    );
}

#[test]
fn unmatched_interpolation() {
    assert_eq!(
        message("${foo"),
        "Unable to find a matching closing symbol Some(ClosedCurlyBrace) corresponding to ${"
    );
    assert_eq!(
        message("a ${b ${c}"),
        "Unable to find a matching closing symbol Some(ClosedCurlyBrace) corresponding to ${"
    );
}

#[test]
fn unmatched_paren() {
    assert_eq!(
        message("${(foo}"),
        "Unable to find a matching closing symbol Some(CloseParen) corresponding to ("
    );
}

#[test]
fn conditional_without_then_or_else() {
    assert_eq!(
        message("${if a}"),
        "Unable to find a matching closing symbol Some(Then) corresponding to if"
    );
    assert_eq!(
        message("${if a then b}"),
        "Unable to find a matching closing symbol Some(Else) corresponding to then"
    );
}

#[test]
fn ends_without_finished_expression() {
    assert_eq!(message(""), "failed expression. Internal logical error");
    assert_eq!(message("${}"), "failed expression. Internal logical error");
    assert_eq!(message("${ \n }"), "failed expression. Internal logical error");
    assert_eq!(message("${1 >}"), "failed expression. Internal logical error");
    assert_eq!(
        message("${if a then b else}"),
        "failed expression. Internal logical error"
    );
    assert_eq!(message("${()}"), "failed expression. Internal logical error");
}

#[test]
fn error_inside_branch_is_the_outcome() {
    assert_eq!(
        message("${if a then > 1 else 2}"),
        "GreaterThan (>) is applied to a non existing left expression"
    );
    assert_eq!(
        message("x-${if (a.) then 1 else 2}"),
        "Expecting a field after dot"
    );
}

#[test]
fn first_error_wins() {
    assert_eq!(message("${.a} ${"), "Invalid token field a. Make sure expression format is correct");
}

#[test]
fn parse_tokens_reads_literal_text() {
    assert_eq!(parse_tokens(tokenise("a.b")), parse("a.b"));
    assert_eq!(
        parse_tokens(tokenise("")),
        Err(ParseError::Message(
            "failed expression. Internal logical error".to_string()
        ))
    );
}

#[test]
fn capture_expr_between_feeds_the_state() {
    let mut cursor = tokenise("a.b) c").to_cursor();
    let r = capture_expr_between(
        &mut cursor,
        &Token::OpenParen,
        Some(&Token::CloseParen),
        InternalExprResult::Complete(lit("x")),
    );
    assert_eq!(
        r,
        Ok(InternalExprResult::Complete(Expr::Concat(vec![
            lit("x"),
            field(lit("a"), "b")
        ])))
    );
    assert_eq!(cursor.next_token(), Some(Token::Space));
}

#[test]
fn capture_expr_between_to_the_end() {
    let mut cursor = tokenise(" 1 > 2").to_cursor();
    let r = capture_expr_between(
        &mut cursor,
        &Token::Else,
        None,
        InternalExprResult::InComplete(
            ExpressionContext::Condition,
            Continuation::ElseBranch(lit("p"), lit("t")),
        ),
    );
    assert_eq!(
        r,
        Ok(InternalExprResult::Complete(Expr::Cond(
            Box::new(lit("p")),
            Box::new(lit("t")),
            Box::new(Expr::GreaterThan(Box::new(lit("1")), Box::new(lit("2"))))
        )))
    );
    assert_eq!(cursor.next_token(), None);
}

#[test]
fn capture_expr_between_unmatched_drains_the_cursor() {
    let mut cursor = tokenise("a b").to_cursor();
    let r = capture_expr_between(
        &mut cursor,
        &Token::Then,
        Some(&Token::Else),
        InternalExprResult::Empty,
    );
    assert_eq!(
        r,
        Err(ParseError::Message(
            "Unable to find a matching closing symbol Some(Else) corresponding to then"
                .to_string()
        ))
    );
    assert_eq!(cursor.next_token(), None);
}

#[test]
fn internal_result_steps() {
    assert!(InternalExprResult::Empty.is_empty());
    assert!(!InternalExprResult::Complete(lit("a")).is_empty());
    assert!(!InternalExprResult::incomplete(
        ExpressionContext::Condition,
        Continuation::Predicate
    )
    .is_empty());
    assert_eq!(
        InternalExprResult::Empty.continue_build(lit("a")),
        InternalExprResult::complete(lit("a"))
    );
    assert_eq!(
        InternalExprResult::complete(lit("a")).continue_build(lit("b")),
        InternalExprResult::Complete(Expr::Concat(vec![lit("a"), lit("b")]))
    );
    let k1 = InternalExprResult::incomplete(ExpressionContext::Condition, Continuation::Predicate);
    let k2 = k1.continue_build(lit("p"));
    assert_eq!(
        k2,
        InternalExprResult::InComplete(
            ExpressionContext::Condition,
            Continuation::ThenBranch(lit("p"))
        )
    );
    assert!(k2.awaits_condition());
    let k3 = k2.continue_build(lit("t"));
    assert_eq!(
        k3,
        InternalExprResult::InComplete(
            ExpressionContext::Condition,
            Continuation::ElseBranch(lit("p"), lit("t"))
        )
    );
    assert_eq!(
        k3.continue_build(lit("e")),
        InternalExprResult::Complete(Expr::Cond(
            Box::new(lit("p")),
            Box::new(lit("t")),
            Box::new(lit("e"))
        ))
    );
}

#[test]
fn comparison_builds_each_operator() {
    let l = || Box::new(lit("l"));
    let r = || Box::new(lit("r"));
    assert_eq!(Comparison::EqualTo.apply(lit("l"), lit("r")), Expr::EqualTo(l(), r()));
    assert_eq!(
        Comparison::GreaterThan.apply(lit("l"), lit("r")),
        Expr::GreaterThan(l(), r())
    );
    assert_eq!(
        Comparison::GreaterThanOrEqualTo.apply(lit("l"), lit("r")),
        Expr::GreaterThanOrEqualTo(l(), r())
    );
    assert_eq!(Comparison::LessThan.apply(lit("l"), lit("r")), Expr::LessThan(l(), r()));
    assert_eq!(
        Comparison::LessThanOrEqualTo.apply(lit("l"), lit("r")),
        Expr::LessThanOrEqualTo(l(), r())
    );
    assert_eq!(Comparison::LessThan.context(), ExpressionContext::LessThan);
    assert_eq!(ExpressionContext::GreaterThanOrEqualTo.to_string(), "GreaterThanOrEqualTo");
    assert_eq!(ExpressionContext::Condition.to_string(), "Condition");
}

#[test]
fn context_is_code() {
    assert!(Context::Code.is_code());
    assert!(!Context::Literal.is_code());
}
