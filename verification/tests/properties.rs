use template_expr::client::{
    call_step, requires_reconnect, CallAction, CallEvent, CallState, GrpcClientConnection,
};
use template_expr::error::ParseError;
use template_expr::expr::Expr;
use template_expr::parser::ExprParser;

fn parse(input: &str) -> Result<Expr, ParseError> {
    ExprParser {}.parse(input)
}

fn lit(s: &str) -> Expr {
    Expr::Literal(s.to_string())
}

fn field(e: Expr, name: &str) -> Expr {
    Expr::SelectField(Box::new(e), name.to_string())
}

fn literal_text(e: &Expr) -> String {
    match e {
        Expr::Literal(s) => s.clone(),
        Expr::Concat(v) => v.iter().map(literal_text).collect(),
        other => panic!("not literal text: {:?}", other),
    }
}

fn left_leaning(e: &Expr) -> bool {
    match e {
        Expr::Literal(_) => true,
        Expr::Concat(v) => v.len() == 2 && matches!(v[1], Expr::Literal(_)) && left_leaning(&v[0]),
        _ => false,
    }
}

fn well_formed(e: &Expr) -> bool {
    match e {
        Expr::Literal(_) | Expr::Request() | Expr::WorkerResponse() => true,
        Expr::SelectField(s, _) | Expr::SelectIndex(s, _) => {
            !matches!(**s, Expr::Concat(ref v) if v.is_empty()) && well_formed(s)
        }
        Expr::EqualTo(l, r)
        | Expr::GreaterThan(l, r)
        | Expr::GreaterThanOrEqualTo(l, r)
        | Expr::LessThan(l, r)
        | Expr::LessThanOrEqualTo(l, r) => well_formed(l) && well_formed(r),
        Expr::Cond(p, t, e) => well_formed(p) && well_formed(t) && well_formed(e),
        Expr::Concat(v) => v.len() == 2 && v.iter().all(well_formed),
    }
}

#[test]
fn text_without_code_parses_to_its_own_text() {
    let inputs = [
        "foo",
        "if hello then foo else bar",
        "a.b[0] > (c) == d",
        "request and worker.response",
        " }\n{ $ = ",
        "x",
        " ",
    ];
    for input in inputs {
        let e = parse(input).unwrap();
        assert!(e.is_literal(), "{:?}", input);
        assert!(left_leaning(&e), "{:?}", input);
        assert_eq!(literal_text(&e), input);
    }
}

#[test]
fn text_without_code_exact_shape() {
    assert_eq!(
        parse("a b"),
        Ok(Expr::Concat(vec![
            Expr::Concat(vec![lit("a"), lit(" ")]),
            lit("b")
        ]))
    );
    assert_eq!(parse("request"), Ok(lit("request")));
    assert_eq!(parse("}"), Ok(lit("}")));
}

#[test]
fn parsing_twice_gives_the_same_outcome() {
    let inputs = [
        "foo",
        "${request.body.input[0]}",
        "${if a then b else c}",
        "${.a}",
        "${",
        "",
        "a ${1 >= 2} b",
    ];
    for input in inputs {
        assert_eq!(parse(input), parse(input));
        assert_eq!(parse(input), ExprParser {}.parse(&input.to_string()));
    }
}

#[test]
fn parsed_expressions_are_well_formed() {
    let inputs = [
        "foo",
        "a ${request.path.user_id} b ${worker.response[1]} c",
        "${a b.c}",
        "${if (a == b) then (c d) else if e then f[0] else g.h}",
        "${(1) == (2)}",
        "${1 < 2 < 3}",
        "${ ${ ${a} } } x",
    ];
    for input in inputs {
        let e = parse(input).unwrap();
        assert!(well_formed(&e), "{:?} gave {:?}", input, e);
    }
}

#[test]
fn is_literal_tells_literal_text_from_code() {
    assert!(lit("a").is_literal());
    assert!(Expr::Concat(vec![lit("a"), Expr::Concat(vec![lit("b")])]).is_literal());
    assert!(Expr::Concat(vec![]).is_literal());
    assert!(!Expr::Request().is_literal());
    assert!(!Expr::Concat(vec![lit("a"), Expr::Request()]).is_literal());
    assert!(!field(lit("a"), "b").is_literal());
    assert!(!parse("a${request}").unwrap().is_literal());
    assert!(parse("a${b}").unwrap().is_literal());
}

#[test]
fn selection_extends_the_expression_before_it() {
    assert_eq!(
        parse("${a b.c}"),
        Ok(field(Expr::Concat(vec![lit("a"), lit("b")]), "c"))
    );
    assert_eq!(
        parse("${(request.a).b[2].c}"),
        Ok(field(
            Expr::SelectIndex(
                Box::new(field(field(Expr::Request(), "a"), "b")),
                2
            ),
            "c"
        ))
    );
}

#[test]
fn equality_of_bracketed_sides() {
    assert_eq!(
        parse("${(1) == (2)}"),
        Ok(Expr::EqualTo(Box::new(lit("1")), Box::new(lit("2"))))
    );
    assert_eq!(
        parse("${(request.a) <= (worker.response.b)}"),
        Ok(Expr::LessThanOrEqualTo(
            Box::new(field(Expr::Request(), "a")),
            Box::new(field(Expr::WorkerResponse(), "b"))
        ))
    );
}

#[test]
fn chained_comparison_leans_left() {
    assert_eq!(
        parse("${1 < 2 < 3}"),
        Ok(Expr::LessThan(
            Box::new(Expr::LessThan(Box::new(lit("1")), Box::new(lit("2")))),
            Box::new(lit("3"))
        ))
    );
}

#[test]
fn each_comparison_operator_parses() {
    assert_eq!(
        parse("${a>=b}"),
        Ok(Expr::GreaterThanOrEqualTo(Box::new(lit("a")), Box::new(lit("b"))))
    );
    assert_eq!(
        parse("${a<b}"),
        Ok(Expr::LessThan(Box::new(lit("a")), Box::new(lit("b"))))
    );
    assert_eq!(
        parse("${a<=b}"),
        Ok(Expr::LessThanOrEqualTo(Box::new(lit("a")), Box::new(lit("b"))))
    );
    assert_eq!(
        parse("${a==b}"),
        Ok(Expr::EqualTo(Box::new(lit("a")), Box::new(lit("b"))))
    );
}

#[test]
fn conditional_drops_what_stood_before_it() {
    assert_eq!(
        parse("${x if a then b else c}"),
        Ok(Expr::Cond(
            Box::new(lit("a")),
            Box::new(lit("b")),
            Box::new(lit("c"))
        ))
    );
}

#[test]
fn conditional_in_then_branch() {
    assert_eq!(
        parse("${if a then if b then c else d else e}"),
        Ok(Expr::Cond(
            Box::new(lit("a")),
            Box::new(Expr::Cond(
                Box::new(lit("b")),
                Box::new(lit("c")),
                Box::new(lit("d"))
            )),
            Box::new(lit("e"))
        ))
    );
}

#[test]
fn deeply_nested_conditional() {
    let depth = 40;
    let mut input = String::from("${");
    for i in 0..depth {
        input.push_str(&format!("if c{} then t{} else ", i, i));
    }
    input.push_str("last}");
    let mut expected = lit("last");
    for i in (0..depth).rev() {
        expected = Expr::Cond(
            Box::new(lit(&format!("c{}", i))),
            Box::new(lit(&format!("t{}", i))),
            Box::new(expected),
        );
    }
    assert_eq!(parse(&input), Ok(expected));
}

#[test]
fn stray_closers_in_code_change_nothing() {
    assert_eq!(parse("${a)}"), Ok(lit("a")));
    assert_eq!(parse("${a]}"), Ok(lit("a")));
    assert_eq!(parse("${(a]) b}"), Ok(Expr::Concat(vec![lit("a"), lit("b")])));
}

#[test]
fn text_around_code_is_joined_pairwise() {
    assert_eq!(
        parse("a${b}c"),
        Ok(Expr::Concat(vec![
            Expr::Concat(vec![lit("a"), lit("b")]),
            lit("c")
        ]))
    );
    assert_eq!(parse("${request}"), Ok(Expr::Request()));
    assert_eq!(parse("${worker.response}"), Ok(Expr::WorkerResponse()));
}

#[test]
fn long_literal_text_parses() {
    let input = "ab ".repeat(5000);
    let e = parse(&input).unwrap();
    assert!(e.is_literal());
    assert_eq!(literal_text(&e), input);
}

#[test]
fn clone_of_expression_is_equal() {
    let inputs = [
        "foo",
        "a ${request.path.user_id} b ${worker.response[1]} c",
        "${if (a == b) then (c d) else if e then f[0] else g.h}",
        "${1 <= 2}",
    ];
    for input in inputs {
        let e = parse(input).unwrap();
        assert_eq!(e.clone(), e);
        assert_eq!(e.duplicate(), e);
    }
}

#[test]
fn reconnect_only_when_unavailable() {
    assert!(requires_reconnect(14));
    assert!(!requires_reconnect(0));
    assert!(!requires_reconnect(13));
    assert!(!requires_reconnect(-14));
}

#[test]
fn call_steps() {
    assert_eq!(
        call_step(CallState::Attempting, CallEvent::Succeeded),
        (CallState::Finished, CallAction::ReturnResult)
    );
    assert_eq!(
        call_step(CallState::Attempting, CallEvent::Failed(14)),
        (CallState::AwaitingRetry, CallAction::DropConnection)
    );
    assert_eq!(
        call_step(CallState::Attempting, CallEvent::Failed(2)),
        (CallState::Finished, CallAction::ReturnError)
    );
    assert_eq!(
        call_step(CallState::AwaitingRetry, CallEvent::RetryGranted),
        (CallState::Attempting, CallAction::Attempt)
    );
    assert_eq!(
        call_step(CallState::AwaitingRetry, CallEvent::RetryDenied),
        (CallState::Finished, CallAction::ReturnError)
    );
    assert_eq!(
        call_step(CallState::Finished, CallEvent::Succeeded),
        (CallState::Finished, CallAction::Ignore)
    );
    assert_eq!(
        call_step(CallState::Attempting, CallEvent::RetryGranted),
        (CallState::Attempting, CallAction::Ignore)
    );
    assert_eq!(
        call_step(CallState::AwaitingRetry, CallEvent::Failed(14)),
        (CallState::AwaitingRetry, CallAction::Ignore)
    );
}

#[test]
fn connection_holds_its_client() {
    let c = GrpcClientConnection::new(7u32);
    assert_eq!(c.client, 7);
    assert_eq!(c.clone().client, 7);
}
