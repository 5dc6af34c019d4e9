use calclang::ast::{
    allowed_filters, case_branch, case_expr, field_ref, func, group_by_modifier, if_expr,
    ignore_all_filters, ignored_filters, included_groups, lit_bool, lit_num, lit_str, query_group,
    where_modifier, Expression, GroupByModifier, LiteralValue,
};
use calclang::chars::str_to_chars;
use calclang::convert::convert_to_ast;
use calclang::eval::{eval_ast, EvalContext, EvalError};
use calclang::eval_expression;
use calclang::number::Rational;
use calclang::ExpressionParser;
use calclang::ExprError;

fn eval_num(expr: &str) -> f64 {
    match eval_expression(expr, &EvalContext::new()) {
        Ok(LiteralValue::NumberValue(r)) => r.num as f64 / r.den as f64,
        other => panic!("expression '{}' did not evaluate to a number: {:?}", expr, other),
    }
}

fn parse_to_ast(expr: &str) -> Expression {
    let chars = str_to_chars(expr);
    let node = ExpressionParser::parse(expr).expect("should parse");
    convert_to_ast(&chars, &node).expect("should convert")
}

#[test]
fn test_arithmetic_parsing() {
    let test_cases = vec![
        ("1 + 2", 3.0),
        ("1 - 2", -1.0),
        ("1 * 2", 2.0),
        ("1 / 2", 0.5),
        ("1 + 2 * 3", 7.0),
        ("(1 + 2) * 3", 9.0),
        ("-1 * 2", -2.0),
        ("3.5 + 1.5", 5.0),
        ("3.5 * 2", 7.0),
        ("(2 + 3) * 4.5", 22.5),
        ("4 / 2 / 2", 1.0),
        ("6 + 1 + 2 + 1 + 15.3", 25.3),
        ("15 / 3 * 2 / 10", 1.0),
        ("2 + 3 + 4", 9.0),
        ("10 - 5 - 2", 3.0),
        ("3 * 4 * 5", 60.0),
        ("24 / 4 / 3", 2.0),
        ("2 + 3 * 4", 14.0),
        ("2 * 3 + 4", 10.0),
        ("10 - 2 * 3", 4.0),
        ("10 / 2 - 3", 2.0),
        ("(2 + 3) * 4", 20.0),
        ("(10 - 5) / 5", 1.0),
        ("2 * (3 + 4)", 14.0),
        ("10 - (5 - 2)", 7.0),
        ("(24 / 4) * 3", 18.0),
        ("6 / (3 * 2)", 1.0),
        ("(2 + 3) * (4 + 5)", 45.0),
        ("(10 - 5) / (5 - 2)", 1.6666666666666667),
        ("2 * (3 + 4) * (5 + 6)", 154.0),
        ("(24 / 4) * (3 + 2)", 30.0),
        ("6 / (3 * 2) / (1 + 1)", 0.5),
        ("(2 + 3) * (4 + 5) * (6 + 7)", 585.0),
        ("2.5 + 3.5 + 4.0", 10.0),
        ("10.5 - 5.5 - 2.0", 3.0),
        ("3.0 * 4.5 * 2.0", 27.0),
        ("24.0 / 4.0 / 3.0", 2.0),
        ("2.5 + 3.0 * 4.0", 14.5),
        ("2.0 * 3.5 + 4.0", 11.0),
        ("10.0 - 2.0 * 3.5", 3.0),
        ("10.0 / 2.5 - 3.0", 1.0),
        ("(2.5 + 3.5) * 4.0", 24.0),
        ("(10.5 - 5.0) / 5.5", 1.0),
        ("2.0 * (3.0 + 4.5)", 15.0),
        ("10.5 - (5.0 - 2.5)", 8.0),
        ("(24.0 / 4.0) * 3.5", 21.0),
        ("6.0 / (3.0 * 2.5)", 0.8),
        ("2.5 * 3.0 + 4.5 / 1.5 - 1.0", 9.5),
        ("10.0 / 2.0 * 3.5 - 4.0 + 1.5", 15.0),
        ("(2.0 + 3.5) * 4.0 - 10.0 / 2.0", 17.0),
        ("3.0 * (2.5 + 4.0 / 2.0) - 5.5", 8.0),
        ("2.0 * 3.0 + 4.0 * 5.0 - 6.0 / 2.0", 23.0),
        ("1.0 + 2.0 * 3.0 / 4.0 - 5.0 + 6.0 * 7.0", 39.5),
        ("3.0 * 4.0 - 5.0 * 6.0 / 2.0 + 7.0 * 2.0", 11.0),
        ("4.0 * (3.0 + 2.0) / 2.0 - 6.0 + 8.0 * 1.5", 16.0),
        ("1.5 + 2.0 * (3.5 - 4.0 / 2.0) + 5.0 * 6.0", 34.5),
    ];

    for (input, expected_output) in test_cases {
        let result = eval_num(input);
        assert!(
            (result - expected_output).abs() < f64::EPSILON,
            "Expression: {}, Result: {}, Expected: {}",
            input,
            result,
            expected_output
        );
    }
}

#[test]
fn test_precedence_evaluates_multiplication_first() {
    assert_eq!(eval_num("1 + 2 * 3"), 7.0);
    assert_eq!(eval_num("(1 + 2) * 3"), 9.0);
}

#[test]
fn test_subtraction_is_left_associative() {
    assert_eq!(eval_num("10 - 5 - 2"), 3.0);
}

#[test]
fn test_division_is_exact() {
    let r = eval_expression("1 / 2", &EvalContext::new());
    assert_eq!(
        r,
        Ok(LiteralValue::NumberValue(Rational { num: 1, den: 2 }))
    );
}

#[test]
fn test_division_by_literal_zero() {
    let r = eval_expression("1 / 0", &EvalContext::new());
    assert_eq!(
        r,
        Err(ExprError::Eval {
            error: EvalError::DivisionByZero
        })
    );
    let r2 = eval_expression("1 / (2 - 2)", &EvalContext::new());
    assert_eq!(
        r2,
        Err(ExprError::Eval {
            error: EvalError::DivisionByZero
        })
    );
}

#[test]
fn test_case_first_true_short_circuits() {
    // The second branch's condition would fail with a missing field;
    // the first true branch decides before it is ever evaluated.
    let bad = field_ref("missing_field");
    let ast = case_expr(
        vec![
            case_branch(lit_bool(true), lit_str("A")),
            case_branch(bad, lit_str("B")),
        ],
        lit_str("C"),
    );
    let r = eval_ast(&ast, &EvalContext::new());
    assert_eq!(r, Ok(LiteralValue::StringValue("A".to_string())));
}

#[test]
fn test_case_falls_through_false_branches() {
    let ast = case_expr(
        vec![
            case_branch(lit_bool(false), lit_str("A")),
            case_branch(lit_bool(true), lit_str("B")),
        ],
        lit_str("C"),
    );
    assert_eq!(
        eval_ast(&ast, &EvalContext::new()),
        Ok(LiteralValue::StringValue("B".to_string()))
    );
    let ast2 = case_expr(vec![case_branch(lit_bool(false), lit_str("A"))], lit_str("C"));
    assert_eq!(
        eval_ast(&ast2, &EvalContext::new()),
        Ok(LiteralValue::StringValue("C".to_string()))
    );
}

#[test]
fn test_filter_modifier_extraction() {
    let got = parse_to_ast("sum(sales) [where allow filters on city, state]");
    let expected = Expression::Function {
        function_name: "sum".to_string(),
        params: vec![field_ref("sales")],
        where_modifier: Some(where_modifier(
            Some(allowed_filters(vec![field_ref("city"), field_ref("state")])),
            vec![],
        )),
        group_by_modifier: None,
    };
    assert_eq!(got, expected);
}

#[test]
fn test_ignore_filter_forms() {
    let got = parse_to_ast("sum(sales) [where ignore all filters]");
    let expected = Expression::Function {
        function_name: "sum".to_string(),
        params: vec![field_ref("sales")],
        where_modifier: Some(where_modifier(Some(ignore_all_filters()), vec![])),
        group_by_modifier: None,
    };
    assert_eq!(got, expected);

    let got2 = parse_to_ast("sum(sales) [where ignore filters on department]");
    let expected2 = Expression::Function {
        function_name: "sum".to_string(),
        params: vec![field_ref("sales")],
        where_modifier: Some(where_modifier(
            Some(ignored_filters(vec![field_ref("department")])),
            vec![],
        )),
        group_by_modifier: None,
    };
    assert_eq!(got2, expected2);
}

#[test]
fn test_additional_filters_in_source_order() {
    let got = parse_to_ast("sum(sales) [where ignore all filters and product = \"Book\"]");
    let expected = Expression::Function {
        function_name: "sum".to_string(),
        params: vec![field_ref("sales")],
        where_modifier: Some(where_modifier(
            Some(ignore_all_filters()),
            vec![func("=", vec![field_ref("product"), lit_str("Book")])],
        )),
        group_by_modifier: None,
    };
    assert_eq!(got, expected);
}

#[test]
fn test_group_modifier_extraction() {
    let got = parse_to_ast("sum(sales) [group by group(1), group(4)]");
    let expected = Expression::Function {
        function_name: "sum".to_string(),
        params: vec![field_ref("sales")],
        where_modifier: None,
        group_by_modifier: Some(group_by_modifier(included_groups(vec![
            query_group(1),
            query_group(4),
        ]))),
    };
    assert_eq!(got, expected);
}

#[test]
fn test_group_by_all_groups() {
    let got = parse_to_ast("sum(sales) [group by all groups]");
    match got {
        Expression::Function {
            group_by_modifier: Some(GroupByModifier { group_context }),
            ..
        } => {
            assert_eq!(group_context, calclang::ast::all_groups());
        }
        other => panic!("unexpected tree: {:?}", other),
    }
}

#[test]
fn test_group_by_field_references() {
    let got = parse_to_ast("sum(sales) [group by state, city]");
    let expected = Expression::Function {
        function_name: "sum".to_string(),
        params: vec![field_ref("sales")],
        where_modifier: None,
        group_by_modifier: Some(group_by_modifier(included_groups(vec![
            calclang::ast::field_group(field_ref("state")),
            calclang::ast::field_group(field_ref("city")),
        ]))),
    };
    assert_eq!(got, expected);
}

#[test]
fn test_group_by_then_where_on_one_call() {
    let got = parse_to_ast("sum(sales) [group by product] [where city = \"Opelika\"]");
    let expected = Expression::Function {
        function_name: "sum".to_string(),
        params: vec![field_ref("sales")],
        where_modifier: Some(where_modifier(
            None,
            vec![func("=", vec![field_ref("city"), lit_str("Opelika")])],
        )),
        group_by_modifier: Some(group_by_modifier(included_groups(vec![
            calclang::ast::field_group(field_ref("product")),
        ]))),
    };
    assert_eq!(got, expected);
}

#[test]
fn test_where_attaches_to_innermost_operand() {
    // In a subtraction, a trailing where clause qualifies the operand it
    // textually follows, not the whole difference.
    let got = parse_to_ast("sum(sales) - sum(planned_sales) [where city = \"Opelika\"]");
    let expected = func(
        "-",
        vec![
            func("sum", vec![field_ref("sales")]),
            Expression::Function {
                function_name: "sum".to_string(),
                params: vec![field_ref("planned_sales")],
                where_modifier: Some(where_modifier(
                    None,
                    vec![func("=", vec![field_ref("city"), lit_str("Opelika")])],
                )),
                group_by_modifier: None,
            },
        ],
    );
    assert_eq!(got, expected);
}

#[test]
fn test_precedence_folds_left() {
    // "1 + 2 * 3" must convert to +(1, *(2, 3)), and "10 - 5 - 2" to
    // -(-(10, 5), 2).
    let got = parse_to_ast("1 + 2 * 3");
    let expected = func(
        "+",
        vec![lit_num(1, 1), func("*", vec![lit_num(2, 1), lit_num(3, 1)])],
    );
    assert_eq!(got, expected);

    let got2 = parse_to_ast("10 - 5 - 2");
    let expected2 = func(
        "-",
        vec![
            func("-", vec![lit_num(10, 1), lit_num(5, 1)]),
            lit_num(2, 1),
        ],
    );
    assert_eq!(got2, expected2);
}

#[test]
fn test_if_both_surface_forms() {
    let a = parse_to_ast("if true then 1 else 2");
    let b = parse_to_ast("if(true, 1, 2)");
    let expected = if_expr(lit_bool(true), lit_num(1, 1), lit_num(2, 1));
    assert_eq!(a, expected);
    assert_eq!(b, expected);
    assert_eq!(eval_num("if true then 1 else 2"), 1.0);
    assert_eq!(eval_num("if(false, 1, 2)"), 2.0);
}

#[test]
fn test_field_lookup_and_missing_field() {
    let mut ctx = EvalContext::new();
    ctx.insert(
        "salary",
        LiteralValue::NumberValue(Rational { num: 3500, den: 1 }),
    );
    assert_eq!(
        eval_expression("salary + 500", &ctx),
        Ok(LiteralValue::NumberValue(Rational { num: 4000, den: 1 }))
    );
    assert_eq!(
        eval_expression("bonus", &ctx),
        Err(ExprError::Eval {
            error: EvalError::FieldNotFound("bonus".to_string())
        })
    );
}

#[test]
fn test_unknown_function_error() {
    let mut ctx = EvalContext::new();
    ctx.insert(
        "sales",
        LiteralValue::NumberValue(Rational { num: 7, den: 1 }),
    );
    assert_eq!(
        eval_expression("sum(sales)", &ctx),
        Err(ExprError::Eval {
            error: EvalError::UnknownFunction("sum".to_string())
        })
    );
}

#[test]
fn test_type_mismatch_errors() {
    let ctx = EvalContext::new();
    assert_eq!(
        eval_expression("1 + \"x\"", &ctx),
        Err(ExprError::Eval {
            error: EvalError::TypeMismatch
        })
    );
    // A non-Boolean condition is a type mismatch, never a silent
    // else-branch.
    assert_eq!(
        eval_expression("if 1 then 2 else 3", &ctx),
        Err(ExprError::Eval {
            error: EvalError::TypeMismatch
        })
    );
    // Ordering comparisons are numeric only.
    assert_eq!(
        eval_expression("\"a\" < \"b\"", &ctx),
        Err(ExprError::Eval {
            error: EvalError::TypeMismatch
        })
    );
}

#[test]
fn test_comparisons_and_logic() {
    let ctx = EvalContext::new();
    assert_eq!(
        eval_expression("1 / 2 = 2 / 4", &ctx),
        Ok(LiteralValue::BooleanValue(true))
    );
    assert_eq!(
        eval_expression("\"a\" = \"a\"", &ctx),
        Ok(LiteralValue::BooleanValue(true))
    );
    assert_eq!(
        eval_expression("\"a\" <> \"b\"", &ctx),
        Ok(LiteralValue::BooleanValue(true))
    );
    assert_eq!(
        eval_expression("1 < 2 and not (3 > 4) or false", &ctx),
        Ok(LiteralValue::BooleanValue(true))
    );
    assert_eq!(
        eval_expression("2 <= 2", &ctx),
        Ok(LiteralValue::BooleanValue(true))
    );
    assert_eq!(
        eval_expression("2 >= 3", &ctx),
        Ok(LiteralValue::BooleanValue(false))
    );
}

#[test]
fn test_syntax_error_carries_position() {
    // "field1 + " recognizes "field1"; the dangling "+" at character 7
    // is the offending token.
    assert_eq!(
        eval_expression("field1 + ", &EvalContext::new()),
        Err(ExprError::Syntax { position: 7 })
    );
    // "field1 . field2" parses "field1", then stops at the stray dot.
    assert_eq!(
        eval_expression("field1 . field2", &EvalContext::new()),
        Err(ExprError::Syntax { position: 7 })
    );
    match ExpressionParser::parse("field1 + + field2") {
        Err(e) => assert_eq!(e.position, 7),
        Ok(_) => panic!("should not parse"),
    }
}

#[test]
fn test_identifier_evaluates_as_field_reference() {
    // Unicode identifiers parse as field references and reach
    // evaluation: with an empty context the outcome is the missing
    // field, never a syntax error.
    for name in ["поле1", "字段1", "__x", "field_1"] {
        assert_eq!(
            eval_expression(name, &EvalContext::new()),
            Err(ExprError::Eval {
                error: EvalError::FieldNotFound(name.to_string())
            }),
            "identifier '{}' should reach evaluation",
            name
        );
    }
}

#[test]
fn test_number_literal_beyond_range_is_reported() {
    // "15e48" is recognized by the grammar but does not fit the exact
    // 64-bit fraction; conversion reports it rather than rounding.
    let chars = str_to_chars("15e48");
    let node = ExpressionParser::parse("15e48").expect("should parse");
    assert!(convert_to_ast(&chars, &node).is_err());
}

#[test]
fn test_numeric_overflow_is_reported() {
    let big = i64::MAX;
    let expr = format!("{} * {}", big, big);
    assert_eq!(
        eval_expression(&expr, &EvalContext::new()),
        Err(ExprError::Eval {
            error: EvalError::NumericOverflow
        })
    );
}

#[test]
fn test_fractions_stay_reduced() {
    // A long chain of fractional additions stays within range because
    // every operation takes the common divisor out.
    let mut expr = String::from("0.5");
    for _ in 0..60 {
        expr.push_str(" + 0.5");
    }
    assert_eq!(
        eval_expression(&expr, &EvalContext::new()),
        Ok(LiteralValue::NumberValue(Rational { num: 61, den: 2 }))
    );
}

#[test]
fn test_string_escapes_decode() {
    assert_eq!(
        eval_expression("\"he said \\\"hi\\\"\"", &EvalContext::new()),
        Ok(LiteralValue::StringValue("he said \"hi\"".to_string()))
    );
}

#[test]
fn test_exponent_literals() {
    assert_eq!(eval_num("1.23e-4"), 1.23e-4);
    assert_eq!(eval_num("4e2"), 400.0);
}
