use template_expr::expr::Expr;
use template_expr::parser::ExprParser;

#[test]
fn expr_parser_without_vars() {
    let expression_parser = ExprParser {};

    let result = expression_parser.parse("foo");
    let expected = Expr::Literal(String::from("foo"));
    assert_eq!(result, Ok(expected));
}

#[test]
fn expr_parser_with_path() {
    let expression_parser = ExprParser {};

    let result = expression_parser.parse("${request.body.input[0]}");
    let request = Expr::Request();
    let select_body = Expr::SelectField(Box::new(request), "body".to_string());

    let select_input = Expr::SelectField(Box::new(select_body), "input".to_string());

    let first_index = Expr::SelectIndex(Box::new(select_input), 0);

    assert_eq!(result, Ok(first_index));
}

#[test]
fn expr_parser_with_worker_result_path() {
    let expression_parser = ExprParser {};

    let result = expression_parser.parse("${worker.response.input[0]}");
    let worker_response = Expr::WorkerResponse();
    let select_input = Expr::SelectField(Box::new(worker_response), "input".to_string());
    let first_index = Expr::SelectIndex(Box::new(select_input), 0);

    assert_eq!(result, Ok(first_index));
}

#[test]
fn expr_parser_with_vars() {
    let expression_parser = ExprParser {};

    let result = expression_parser.parse("worker-id-${request.path.user_id}");

    let expected = Expr::Concat(vec![
        Expr::Literal("worker-id-".to_string()),
        Expr::SelectField(
            Box::new(Expr::SelectField(
                Box::new(Expr::Request()),
                "path".to_string(),
            )),
            "user_id".to_string(),
        ),
    ]);

    assert_eq!(result, Ok(expected));
}

#[test]
fn expression_with_predicate0() {
    let expression_parser = ExprParser {};

    let result = expression_parser.parse("${1>2}");

    let expected = Expr::GreaterThan(
        Box::new(Expr::Literal("1".to_string())),
        Box::new(Expr::Literal("2".to_string())),
    );

    assert_eq!(result, Ok(expected));
}

#[test]
fn expression_with_predicate000() {
    let expression_parser = ExprParser {};

    let result = expression_parser.parse("${${request.path.user-id} > ${request.path.id}}");

    let expected = Expr::GreaterThan(
        Box::new(Expr::SelectField(
            Box::new(Expr::SelectField(
                Box::new(Expr::Request()),
                "path".to_string(),
            )),
            "user-id".to_string(),
        )),
        Box::new(Expr::SelectField(
            Box::new(Expr::SelectField(
                Box::new(Expr::Request()),
                "path".to_string(),
            )),
            "id".to_string(),
        )),
    );

    assert_eq!(result, Ok(expected));
}

#[test]
fn expression_with_predicate1() {
    let expression_parser = ExprParser {};

    let result = expression_parser.parse("${${request.path.user-id}>${request.path.id}}");

    let expected = Expr::GreaterThan(
        Box::new(Expr::SelectField(
            Box::new(Expr::SelectField(
                Box::new(Expr::Request()),
                "path".to_string(),
            )),
            "user-id".to_string(),
        )),
        Box::new(Expr::SelectField(
            Box::new(Expr::SelectField(
                Box::new(Expr::Request()),
                "path".to_string(),
            )),
            "id".to_string(),
        )),
    );

    assert_eq!(result, Ok(expected));
}

#[test]
fn expression_with_predicate2() {
    let expression_parser = ExprParser {};

    let result = expression_parser.parse("${${request.path.user-id}>2}");

    let expected = Expr::GreaterThan(
        Box::new(Expr::SelectField(
            Box::new(Expr::SelectField(
                Box::new(Expr::Request()),
                "path".to_string(),
            )),
            "user-id".to_string(),
        )),
        Box::new(Expr::Literal("2".to_string())),
    );

    assert_eq!(result, Ok(expected));
}

#[test]
fn expression_with_predicate_without_outer_interpolation() {
    let expression_parser = ExprParser {};

    let result = expression_parser.parse("${request.path.user-id}>2");

    let expected = Expr::Concat(vec![
        Expr::Concat(vec![
            Expr::SelectField(
                Box::new(Expr::SelectField(
                    Box::new(Expr::Request()),
                    "path".to_string(),
                )),
                "user-id".to_string(),
            ),
            Expr::Literal(">".to_string()),
        ]),
        Expr::Literal("2".to_string()),
    ]);

    assert_eq!(result, Ok(expected));
}

#[test]
fn test_if_expr_with_paranthesis() {
    let expression_parser = ExprParser {};

    let result = expression_parser
        .parse("${if(request.path)then 1 else 0 }")
        .unwrap();

    let expected = Expr::Cond(
        Box::new(Expr::SelectField(
            Box::new(Expr::Request()),
            "path".to_string(),
        )),
        Box::new(Expr::Literal("1".to_string())),
        Box::new(Expr::Literal("0".to_string())),
    );

    assert_eq!(result, expected);
}

#[test]
fn test_if_expr_without_paranthesis() {
    let expression_parser = ExprParser {};

    let result = expression_parser.parse("${if hello then foo else bar}");

    let expected = Expr::Cond(
        Box::new(Expr::Literal("hello".to_string())),
        Box::new(Expr::Literal("foo".to_string())),
        Box::new(Expr::Literal("bar".to_string())),
    );

    assert_eq!(result.unwrap(), expected)
}

#[test]
fn test_if_expr_but_as_literal() {
    let expression_parser = ExprParser {};

    let result = expression_parser.parse("if hello then foo else bar");

    assert!(result.unwrap().is_literal())
}

#[test]
fn test_if_else_then_expr() {
    let expression_parser = ExprParser {};

    let result = expression_parser
        .parse("${if foo then 1 else if bar then 2 else 0}")
        .unwrap();

    let expected = Expr::Cond(
        Box::new(Expr::Literal("foo".to_string())),
        Box::new(Expr::Literal("1".to_string())),
        Box::new(Expr::Cond(
            Box::new(Expr::Literal("bar".to_string())),
            Box::new(Expr::Literal("2".to_string())),
            Box::new(Expr::Literal("0".to_string())),
        )),
    );

    assert_eq!(result, expected);
}

#[test]
fn test_if_else_then_expr_nested() {
    let expression_parser = ExprParser {};

    let result = expression_parser
        .parse("${if false then 1 else if true then 2 else if false then 1 else 0}")
        .unwrap();

    let expected = Expr::Cond(
        Box::new(Expr::Literal("false".to_string())),
        Box::new(Expr::Literal("1".to_string())),
        Box::new(Expr::Cond(
            Box::new(Expr::Literal("true".to_string())),
            Box::new(Expr::Literal("2".to_string())),
            Box::new(Expr::Cond(
                Box::new(Expr::Literal("false".to_string())),
                Box::new(Expr::Literal("1".to_string())),
                Box::new(Expr::Literal("0".to_string())),
            )),
        )),
    );

    assert_eq!(result, expected);
}

#[test]
fn test_if_else_then_nested_with_equality_predicates() {
    let expression_parser = ExprParser {};

    let result = expression_parser
        .parse("${if (request.path.user_id == 1) then 1 else if (request.path.user_id == 2) then 2 else if (request.path.user_id == 3) then 3 else 0}")
        .unwrap();

    let expected = Expr::Cond(
        Box::new(Expr::EqualTo(
            Box::new(Expr::SelectField(
                Box::new(Expr::SelectField(
                    Box::new(Expr::Request()),
                    "path".to_string(),
                )),
                "user_id".to_string(),
            )),
            Box::new(Expr::Literal("1".to_string())),
        )),
        Box::new(Expr::Literal("1".to_string())),
        Box::new(Expr::Cond(
            Box::new(Expr::EqualTo(
                Box::new(Expr::SelectField(
                    Box::new(Expr::SelectField(
                        Box::new(Expr::Request()),
                        "path".to_string(),
                    )),
                    "user_id".to_string(),
                )),
                Box::new(Expr::Literal("2".to_string())),
            )),
            Box::new(Expr::Literal("2".to_string())),
            Box::new(Expr::Cond(
                Box::new(Expr::EqualTo(
                    Box::new(Expr::SelectField(
                        Box::new(Expr::SelectField(
                            Box::new(Expr::Request()),
                            "path".to_string(),
                        )),
                        "user_id".to_string(),
                    )),
                    Box::new(Expr::Literal("3".to_string())),
                )),
                Box::new(Expr::Literal("3".to_string())),
                Box::new(Expr::Literal("0".to_string())),
            )),
        )),
    );

    assert_eq!(result, expected);
}

#[test]
fn test_if_else_with_path_variable_in_predicate() {
    let expression_parser = ExprParser {};

    let result = expression_parser
        .parse("${if request.path.user_id > 1 then 1 else 0}")
        .unwrap();

    let predicate_expressions = Expr::GreaterThan(
        Box::new(Expr::SelectField(
            Box::new(Expr::SelectField(
                Box::new(Expr::Request()),
                "path".to_string(),
            )),
            "user_id".to_string(),
        )),
        Box::new(Expr::Literal("1".to_string())),
    );

    let expected = Expr::Cond(
        Box::new(predicate_expressions),
        Box::new(Expr::Literal("1".to_string())),
        Box::new(Expr::Literal("0".to_string())),
    );

    assert_eq!(result, expected);
}

#[test]
fn test_if_else_with_path_variable_in_predicate_and_left() {
    let expression_parser = ExprParser {};

    let result = expression_parser
        .parse("${if request.path.user_id > 1 then request.path.user_id else 0}")
        .unwrap();

    let predicate_expressions = Expr::GreaterThan(
        Box::new(Expr::SelectField(
            Box::new(Expr::SelectField(
                Box::new(Expr::Request()),
                "path".to_string(),
            )),
            "user_id".to_string(),
        )),
        Box::new(Expr::Literal("1".to_string())),
    );

    let expected = Expr::Cond(
        Box::new(predicate_expressions),
        Box::new(Expr::SelectField(
            Box::new(Expr::SelectField(
                Box::new(Expr::Request()),
                "path".to_string(),
            )),
            "user_id".to_string(),
        )),
        Box::new(Expr::Literal("0".to_string())),
    );

    assert_eq!(result, expected);
}

#[test]
fn test_if_else_with_path_variable_in_predicate_left_and_right() {
    let expression_parser = ExprParser {};

    let result = expression_parser
        .parse("${if request.path.user_id > 1 then request.path.user_id else request.path.id}")
        .unwrap();

    let predicate_expressions = Expr::GreaterThan(
        Box::new(Expr::SelectField(
            Box::new(Expr::SelectField(
                Box::new(Expr::Request()),
                "path".to_string(),
            )),
            "user_id".to_string(),
        )),
        Box::new(Expr::Literal("1".to_string())),
    );

    let expected = Expr::Cond(
        Box::new(predicate_expressions),
        Box::new(Expr::SelectField(
            Box::new(Expr::SelectField(
                Box::new(Expr::Request()),
                "path".to_string(),
            )),
            "user_id".to_string(),
        )),
        Box::new(Expr::SelectField(
            Box::new(Expr::SelectField(
                Box::new(Expr::Request()),
                "path".to_string(),
            )),
            "id".to_string(),
        )),
    );

    assert_eq!(result, expected);
}

#[test]
fn test_if_expr_with_nested_code() {
    let expression_parser = ExprParser {};

    let result = expression_parser
        .parse("${if request.path.user_id >1 then 0 else (if request.path.user_id == 1 then 0 else 1)}")
        .unwrap();

    let predicate_expressions = Expr::GreaterThan(
        Box::new(Expr::SelectField(
            Box::new(Expr::SelectField(
                Box::new(Expr::Request()),
                "path".to_string(),
            )),
            "user_id".to_string(),
        )),
        Box::new(Expr::Literal("1".to_string())),
    );

    let expected = Expr::Cond(
        Box::new(predicate_expressions),
        Box::new(Expr::Literal("0".to_string())),
        Box::new(Expr::Cond(
            Box::new(Expr::EqualTo(
                Box::new(Expr::SelectField(
                    Box::new(Expr::SelectField(
                        Box::new(Expr::Request()),
                        "path".to_string(),
                    )),
                    "user_id".to_string(),
                )),
                Box::new(Expr::Literal("1".to_string())),
            )),
            Box::new(Expr::Literal("0".to_string())),
            Box::new(Expr::Literal("1".to_string())),
        )),
    );

    assert_eq!(result, expected);
}

#[test]
fn test_if_expr_with_complex_nested_code() {
    let expression_parser = ExprParser {};

    let result = expression_parser
        .parse("foo-${if ((if request.path.hello then 1 else 0) > 0) then request.path.user_id else 0}")
        .unwrap();

    let predicate_expressions = Expr::GreaterThan(
        Box::new(Expr::Cond(
            Box::new(Expr::SelectField(
                Box::new(Expr::SelectField(
                    Box::new(Expr::Request()),
                    "path".to_string(),
                )),
                "hello".to_string(),
            )),
            Box::new(Expr::Literal("1".to_string())),
            Box::new(Expr::Literal("0".to_string())),
        )),
        Box::new(Expr::Literal("0".to_string())),
    );

    let expected = Expr::Concat(vec![
        Expr::Literal("foo-".to_string()),
        Expr::Cond(
            Box::new(predicate_expressions),
            Box::new(Expr::SelectField(
                Box::new(Expr::SelectField(
                    Box::new(Expr::Request()),
                    "path".to_string(),
                )),
                "user_id".to_string(),
            )),
            Box::new(Expr::Literal("0".to_string())),
        ),
    ]);

    assert_eq!(result, expected);
}

#[test]
fn test_if_expr_with_grouping_predicate() {
    let expression_parser = ExprParser {};

    let result = expression_parser
        .parse("foo-${if (if request.path.hello then 1 else 0) > 0 then request.path.user_id else 0}")
        .unwrap();

    let predicate_expressions = Expr::GreaterThan(
        Box::new(Expr::Cond(
            Box::new(Expr::SelectField(
                Box::new(Expr::SelectField(
                    Box::new(Expr::Request()),
                    "path".to_string(),
                )),
                "hello".to_string(),
            )),
            Box::new(Expr::Literal("1".to_string())),
            Box::new(Expr::Literal("0".to_string())),
        )),
        Box::new(Expr::Literal("0".to_string())),
    );

    let expected = Expr::Concat(vec![
        Expr::Literal("foo-".to_string()),
        Expr::Cond(
            Box::new(predicate_expressions),
            Box::new(Expr::SelectField(
                Box::new(Expr::SelectField(
                    Box::new(Expr::Request()),
                    "path".to_string(),
                )),
                "user_id".to_string(),
            )),
            Box::new(Expr::Literal("0".to_string())),
        ),
    ]);

    assert_eq!(result, expected);
}
