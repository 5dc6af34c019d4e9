use calclang::chars::str_to_chars;
use calclang::grammar::parse_input;
use calclang::ExpressionParser;

fn parses(expr: &str) -> bool {
    ExpressionParser::parse(expr).is_ok()
}

#[test]
fn test_valid_arithmetic_expressions() {
    let expressions = vec![
        "field1 + 42",
        "field1.field2 * 3.14",
        "(field1 + field2) * (field3 / field4)",
        "field1 - field2.field3 + 42 * 7.5",
    ];
    for expr in expressions {
        assert!(parses(expr), "Expression '{}' should be valid", expr);
    }
}

#[test]
fn test_invalid_arithmetic_expressions() {
    let expressions = vec![
        "field1 + ",
        "field1 + + field2",
        "field1.field2. * 3.14",
        "(field1 + field2) * field3 /",
        "field1 - field2.field3 + 42 7.5",
    ];
    for expr in expressions {
        assert!(!parses(expr), "Expression '{}' should be invalid", expr);
    }
}

#[test]
fn test_edge_cases() {
    let expressions = vec![
        "field",
        "1",
        "1.0",
        "field.field",
        "field1 + field2",
        "(field)",
        "field * (field1 + field2)",
    ];
    for expr in expressions {
        assert!(parses(expr), "Expression '{}' should be valid", expr);
    }
}

#[test]
fn test_whitespace_handling() {
    let expressions = vec![
        " field1 + 42",
        "field1 +\t42",
        "field1\n+\n42",
        "( field1 + field2 ) * ( field3 / field4 )",
    ];
    for expr in expressions {
        assert!(parses(expr), "Expression '{}' should handle whitespace", expr);
    }
}

#[test]
fn test_invalid_whitespace_handling() {
    let expressions = vec!["field1 . field2 + 42", "field1. field2"];
    for expr in expressions {
        assert!(
            !parses(expr),
            "Expression '{}' should not allow invalid whitespace",
            expr
        );
    }
}

#[test]
fn test_latin_letters() {
    let expressions = vec![
        "field1 + field2",
        "Field1 - field2",
        "fieldWithUpperCaseLetters + anotherField",
    ];
    for expr in expressions {
        assert!(
            parses(expr),
            "Expression '{}' should allow Latin letters, got error: {:?}",
            expr,
            ()
        );
    }
}

#[test]
fn test_numbers() {
    let expressions = vec![
        "field1 + 42",
        "field1 - 3.14",
        "field1 * 1.23e-4",
        "field1 * 15e48",
    ];
    for expr in expressions {
        assert!(parses(expr), "Expression '{}' should allow numbers", expr);
    }
}

#[test]
fn test_periods() {
    let expressions = vec!["field1.field2 + field3"];
    for expr in expressions {
        assert!(parses(expr), "Expression '{}' should allow periods", expr);
    }
}

#[test]
fn test_underscores() {
    let expressions = vec![
        "field_1 + field_2",
        "fie__ld1.field_2",
        "field_name_with_underscore",
        "__field_name_with_under____score",
    ];
    for expr in expressions {
        assert!(parses(expr), "Expression '{}' should allow underscores", expr);
    }
}

#[test]
fn test_not_allowed_identifiers() {
    let expressions = vec!["1field + 2field", "!field + &field", "field@ + field$"];
    for expr in expressions {
        assert!(
            !parses(expr),
            "Expression '{}' should not allow invalid identifiers",
            expr
        );
    }
}

#[test]
fn test_non_latin_characters() {
    let expressions = vec!["поле1 + поле2", "フィールド1 + フィールド2", "字段1 + 字段2"];
    for expr in expressions {
        assert!(
            parses(expr),
            "Expression '{}' should allow non-latin characters",
            expr
        );
    }
}

#[test]
fn test_special_symbols() {
    let expressions = vec!["field✨ + field🚀", "field❤️ + field😊"];
    for expr in expressions {
        assert!(
            !parses(expr),
            "Expression '{}' should not allow special symbols like emojis",
            expr
        );
    }
}

#[test]
fn test_mixed_identifiers() {
    let expressions = vec![
        "field1_поле + field2",
        "field1_フィールド + field2",
        "field1_字段 + field2",
    ];
    for expr in expressions {
        assert!(
            parses(expr),
            "Expression '{}' should allow mixed-character identifiers",
            expr
        );
    }
}

#[test]
fn test_function_calls() {
    let valid_expressions = vec![
        "my_function(field1)",
        "my_function(42)",
        "my_function(3.14)",
        "my_function(\"hello\")",
        "my_function(field1, field2)",
        "my_function(field1, 42, 3.14, \"hello\")",
        "my_function(field1, nested_function(field2))",
        "my_function(field1) + my_function(field2)",
        "my_function(nested_function(field1))",
    ];
    for expr in valid_expressions {
        assert!(
            parses(expr),
            "Expression '{}' should be a valid function call",
            expr
        );
    }

    let invalid_expressions = vec![
        "my_function(",
        "my_function)",
        "my_function(,)",
        "my_function(42,)",
        "my_function(,42)",
        "my_function(42, ,)",
        "my_function(42,,42)",
    ];
    for expr in invalid_expressions {
        assert!(
            !parses(expr),
            "Expression '{}' should be an invalid function call",
            expr
        );
    }
}

#[test]
fn test_boolean_literals() {
    let valid_expressions = vec![
        "true",
        "false",
        "my_function(true)",
        "my_function(false)",
        "my_function(field1, true, 42, \"hello\")",
        "(true)",
        "(false)",
    ];
    for expr in valid_expressions {
        assert!(
            parses(expr),
            "Expression '{}' should be a valid boolean expression, got error: {:?}",
            expr,
            ()
        );
    }
}

#[test]
fn test_operator_precedence_parsing() {
    let input = "2 * (3 + 4) / 7 > 1 and true or false and 3 * (5 - 1) < 12";
    let parse_result = parse_input(&str_to_chars(input));
    assert!(parse_result.is_ok(), "Failed to parse input expression");
    let same = ExpressionParser::parse(input);
    assert!(same.is_ok());
}
