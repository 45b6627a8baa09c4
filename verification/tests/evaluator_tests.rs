use flow::{evaluate, evaluate_or_message, evaluate_postfix, tokenize, Context};
use flow::{Error, EvalError, LexError, ParseError, Token};

fn empty_ctx() -> Context {
    Context::new()
}

fn ctx_of(pairs: &[(&str, i64)]) -> Context {
    let mut ctx = Context::new();
    for (name, value) in pairs {
        ctx.insert((*name).to_string(), *value);
    }
    ctx
}

fn eval_ok(expr: &str, ctx: &Context) -> i64 {
    match evaluate(expr, ctx) {
        Ok(v) => v,
        Err(e) => panic!("expected a value for {:?}, got {:?}", expr, e),
    }
}

#[test]
fn test_basic_arithmetic() {
    assert_eq!(eval_ok("5 + 3", &empty_ctx()), 8);
    assert_eq!(eval_ok("10 - 4", &empty_ctx()), 6);
    assert_eq!(eval_ok("3 % 2", &empty_ctx()), 1);
}

#[test]
fn test_operator_precedence() {
    assert_eq!(eval_ok("5 + 3 * 2", &empty_ctx()), 11);
    assert_eq!(eval_ok("( 5 + 3 ) * 2", &empty_ctx()), 16);
    assert_eq!(eval_ok("10 - 4 + 2", &empty_ctx()), 8);
}

#[test]
fn test_variable_substitution() {
    assert_eq!(eval_ok("$x + 5", &ctx_of(&[("x", 3)])), 8);
    assert_eq!(eval_ok("$x * $y", &ctx_of(&[("x", 4), ("y", 2)])), 8);
}

#[test]
fn test_abs_function() {
    assert_eq!(eval_ok("abs -5", &empty_ctx()), 5);
    assert_eq!(eval_ok("abs 5", &empty_ctx()), 5);
    assert_eq!(eval_ok("5 + abs -3", &empty_ctx()), 8);
}

#[test]
fn unary_operators_nest_without_parentheses() {
    assert_eq!(eval_ok("abs abs abs -5", &empty_ctx()), 5);
    assert_eq!(eval_ok("abs ( 0 - 7 )", &empty_ctx()), 7);
}

#[test]
fn complex_expressions_mix_precedence_and_unary() {
    assert_eq!(eval_ok("5 + 3 * 2 - abs -4 % 3", &empty_ctx()), 10);
    let ctx = ctx_of(&[("x", 1), ("y", 2), ("z", 3)]);
    assert_eq!(eval_ok("$x + $y * abs ( $z - 5 )", &ctx), 5);
}

#[test]
fn missing_variable_is_an_eval_error() {
    match evaluate("$z + 1", &empty_ctx()) {
        Err(Error::Eval(EvalError::MissingVariable(name))) => assert_eq!(name, "z"),
        other => panic!("expected a missing-variable error, got {:?}", other),
    }
}

#[test]
fn unbalanced_left_paren_is_a_parse_error() {
    match evaluate("( 5 + 3", &empty_ctx()) {
        Err(Error::Parse(ParseError::MismatchedParentheses)) => {}
        other => panic!("expected mismatched parentheses, got {:?}", other),
    }
}

#[test]
fn stray_right_paren_is_a_parse_error() {
    match evaluate("5 + 3 )", &empty_ctx()) {
        Err(Error::Parse(ParseError::MismatchedParentheses)) => {}
        other => panic!("expected mismatched parentheses, got {:?}", other),
    }
}

#[test]
fn empty_expression_is_a_lex_error() {
    match evaluate("", &empty_ctx()) {
        Err(Error::Lex(LexError::EmptyExpression)) => {}
        other => panic!("expected the empty-expression error, got {:?}", other),
    }
    match evaluate("   ", &empty_ctx()) {
        Err(Error::Lex(LexError::EmptyExpression)) => {}
        other => panic!("expected the empty-expression error, got {:?}", other),
    }
}

#[test]
fn re_running_yields_the_same_result() {
    let ctx = ctx_of(&[("x", 7)]);
    let first = evaluate("$x * 3 - 1", &ctx);
    let second = evaluate("$x * 3 - 1", &ctx);
    assert_eq!(first, second);
    assert_eq!(first, Ok(20));
    let failing_first = evaluate("$missing", &ctx);
    let failing_second = evaluate("$missing", &ctx);
    assert_eq!(failing_first, failing_second);
}

#[test]
fn unknown_operator_alone_is_deferred_to_evaluation() {
    match evaluate("5 / 3", &empty_ctx()) {
        Err(Error::Eval(EvalError::UnknownOperator(sym))) => assert_eq!(sym, "/"),
        other => panic!("expected an unknown-operator error, got {:?}", other),
    }
}

#[test]
fn unknown_operator_in_comparison_is_a_parse_error() {
    match evaluate("5 / 3 + 1", &empty_ctx()) {
        Err(Error::Parse(ParseError::UnknownOperator(sym))) => assert_eq!(sym, "/"),
        other => panic!("expected an unknown-operator parse error, got {:?}", other),
    }
}

#[test]
fn numeric_looking_fragment_is_rejected_downstream() {
    match evaluate("1.5", &empty_ctx()) {
        Err(Error::Eval(EvalError::UnknownOperator(sym))) => assert_eq!(sym, "1.5"),
        other => panic!("expected an unknown-operator error, got {:?}", other),
    }
}

#[test]
fn leftover_operands_are_surfaced() {
    match evaluate("5 5", &empty_ctx()) {
        Err(Error::Eval(EvalError::MalformedExpression)) => {}
        other => panic!("expected a malformed-expression error, got {:?}", other),
    }
}

#[test]
fn operand_underflow_is_reported_per_arity() {
    match evaluate("+", &empty_ctx()) {
        Err(Error::Eval(EvalError::NotEnoughOperands { unary: false })) => {}
        other => panic!("expected binary operand underflow, got {:?}", other),
    }
    match evaluate("abs", &empty_ctx()) {
        Err(Error::Eval(EvalError::NotEnoughOperands { unary: true })) => {}
        other => panic!("expected unary operand underflow, got {:?}", other),
    }
}

#[test]
fn addition_overflow_is_an_error() {
    match evaluate("9223372036854775807 + 1", &empty_ctx()) {
        Err(Error::Eval(EvalError::Overflow)) => {}
        other => panic!("expected an overflow error, got {:?}", other),
    }
}

#[test]
fn modulo_by_zero_is_an_error() {
    match evaluate("5 % 0", &empty_ctx()) {
        Err(Error::Eval(EvalError::ModuloByZero)) => {}
        other => panic!("expected a modulo-by-zero error, got {:?}", other),
    }
}

#[test]
fn abs_of_most_negative_value_is_an_error() {
    assert_eq!(eval_ok("-9223372036854775808 + 1", &empty_ctx()), i64::MIN + 1);
    match evaluate("abs -9223372036854775808", &empty_ctx()) {
        Err(Error::Eval(EvalError::Overflow)) => {}
        other => panic!("expected an overflow error, got {:?}", other),
    }
}

#[test]
fn negative_and_signed_literals_lex_as_numbers() {
    assert_eq!(eval_ok("-5 + +7", &empty_ctx()), 2);
    assert_eq!(eval_ok("007", &empty_ctx()), 7);
    assert_eq!(eval_ok("0", &empty_ctx()), 0);
}

#[test]
fn truncated_remainder_keeps_the_dividend_sign() {
    assert_eq!(eval_ok("-7 % 2", &empty_ctx()), -1);
    assert_eq!(eval_ok("7 % -2", &empty_ctx()), 1);
}

#[test]
fn tokenizer_classifies_fragments() {
    let tokens = tokenize("( $rate + 12 ) * frob");
    assert_eq!(
        tokens,
        vec![
            Token::LeftParen,
            Token::Variable("rate".to_string()),
            Token::Operator("+".to_string()),
            Token::Number(12),
            Token::RightParen,
            Token::Operator("*".to_string()),
            Token::Operator("frob".to_string()),
        ]
    );
    assert_eq!(tokenize(""), vec![]);
    assert_eq!(tokenize("  \t "), vec![]);
}

#[test]
fn postfix_evaluator_rejects_parentheses_and_empty_input() {
    match evaluate_postfix(vec![Token::LeftParen], &empty_ctx()) {
        Err(EvalError::UnexpectedToken) => {}
        other => panic!("expected an unexpected-token error, got {:?}", other),
    }
    match evaluate_postfix(vec![], &empty_ctx()) {
        Err(EvalError::EmptyExpression) => {}
        other => panic!("expected the empty-expression error, got {:?}", other),
    }
}

#[test]
fn context_lookup_shadows_earlier_bindings() {
    let mut ctx = Context::new();
    ctx.insert("x".to_string(), 1);
    ctx.insert("x".to_string(), 2);
    assert_eq!(ctx.get("x"), Some(2));
    assert_eq!(ctx.get("y"), None);
    assert_eq!(eval_ok("$x", &ctx), 2);
}

#[test]
fn failures_render_as_legacy_text() {
    assert_eq!(evaluate_or_message("5 + 3", &empty_ctx()), Ok(8));
    assert_eq!(
        evaluate_or_message("", &empty_ctx()),
        Err("Invalid expression".to_string())
    );
    assert_eq!(
        evaluate_or_message("$z + 1", &empty_ctx()),
        Err("Invalid or missing variable: z".to_string())
    );
    assert_eq!(
        evaluate_or_message("( 1 + 2", &empty_ctx()),
        Err("Mismatched parentheses".to_string())
    );
    assert_eq!(
        evaluate_or_message("1 ^ 2 + 3", &empty_ctx()),
        Err("Unknown operator: ^".to_string())
    );
}
