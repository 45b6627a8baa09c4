//! The postfix evaluator and the whole-expression entry point.
//!
//! [`evaluate_postfix`] runs a postfix token sequence as a stack machine
//! against a variable context. [`evaluate`] chains the lexer, the
//! shunting-yard parser and the stack machine: expression text in, a
//! number or a typed error out. Re-running the same expression against an
//! unchanged context always yields the same result: the outcome is pinned
//! to a mathematical function of the expression text and the context.

use vstd::prelude::*;

use crate::context::{spec_ctx_lookup, Context};
use crate::errors::{Error, EvalError, LexError, SpecError, SpecEvalError, SpecLexError};
use crate::ops;
use crate::ops::{spec_apply, spec_is_unary, spec_lookup};
use crate::parser::{shunting_yard, spec_parse};
use crate::token::{spec_tokens, tokenize, SpecToken, Token};

verus! {

/// The stack machine, one token at a time: the final value stack, or the
/// evaluation error.
pub open spec fn spec_eval_from(
    ts: Seq<SpecToken>,
    stack: Seq<i64>,
    ctx: Seq<(Seq<char>, i64)>,
) -> Result<Seq<i64>, SpecEvalError>
    decreases ts.len(),
{
    if ts.len() == 0 {
        Ok(stack)
    } else {
        match ts[0] {
            SpecToken::Number(n) => spec_eval_from(ts.skip(1), stack.push(n), ctx),
            SpecToken::Variable(name) => match spec_ctx_lookup(ctx, name) {
                Some(v) => spec_eval_from(ts.skip(1), stack.push(v), ctx),
                None => Err(SpecEvalError::MissingVariable(name)),
            },
            SpecToken::Operator(sym) => match spec_lookup(sym) {
                None => Err(SpecEvalError::UnknownOperator(sym)),
                Some(op) => if spec_is_unary(op) {
                    if stack.len() < 1 {
                        Err(SpecEvalError::NotEnoughOperands { unary: true })
                    } else {
                        match spec_apply(op, stack.last(), None) {
                            Ok(v) => spec_eval_from(ts.skip(1), stack.drop_last().push(v), ctx),
                            Err(e) => Err(e),
                        }
                    }
                } else {
                    if stack.len() < 2 {
                        Err(SpecEvalError::NotEnoughOperands { unary: false })
                    } else {
                        let right = stack.last();
                        let left = stack[stack.len() - 2];
                        match spec_apply(op, left, Some(right)) {
                            Ok(v) => spec_eval_from(
                                ts.skip(1),
                                stack.drop_last().drop_last().push(v),
                                ctx,
                            ),
                            Err(e) => Err(e),
                        }
                    }
                },
            },
            SpecToken::LeftParen => Err(SpecEvalError::UnexpectedToken),
            SpecToken::RightParen => Err(SpecEvalError::UnexpectedToken),
        }
    }
}

/// The value of a postfix token sequence: exactly one value must remain
/// on the stack.
pub open spec fn spec_eval_postfix(ts: Seq<SpecToken>, ctx: Seq<(Seq<char>, i64)>) -> Result<
    i64,
    SpecEvalError,
> {
    match spec_eval_from(ts, Seq::empty(), ctx) {
        Err(e) => Err(e),
        Ok(stack) => if stack.len() == 0 {
            Err(SpecEvalError::EmptyExpression)
        } else if stack.len() > 1 {
            Err(SpecEvalError::MalformedExpression)
        } else {
            Ok(stack[0])
        },
    }
}

/// The value of an expression string against a context: empty input is a
/// lex error, then the parse and the stack machine decide.
pub open spec fn spec_evaluate(s: Seq<char>, ctx: Seq<(Seq<char>, i64)>) -> Result<
    i64,
    SpecError,
> {
    let toks = spec_tokens(s);
    if toks.len() == 0 {
        Err(SpecError::Lex(SpecLexError::EmptyExpression))
    } else {
        match spec_parse(toks) {
            Err(e) => Err(SpecError::Parse(e)),
            Ok(pf) => match spec_eval_postfix(pf, ctx) {
                Err(e) => Err(SpecError::Eval(e)),
                Ok(v) => Ok(v),
            },
        }
    }
}

/// Runs a postfix token sequence as a stack machine against `ctx`.
pub fn evaluate_postfix(postfix: Vec<Token>, ctx: &Context) -> (r: Result<i64, EvalError>)
    ensures
        match (r, spec_eval_postfix(postfix.deep_view(), ctx@)) {
            (Ok(v), Ok(sv)) => v == sv,
            (Err(e), Err(se)) => e@ == se,
            _ => false,
        },
{
    let ghost ts = postfix.deep_view();
    let mut stack: Vec<i64> = Vec::new();
    let mut i: usize = 0;
    proof {
        assert(ts.skip(0) =~= ts);
        assert(stack@ =~= Seq::<i64>::empty());
    }
    while i < postfix.len()
        invariant
            i <= postfix@.len(),
            ts == postfix.deep_view(),
            spec_eval_from(ts, Seq::empty(), ctx@) == spec_eval_from(
                ts.skip(i as int),
                stack@,
                ctx@,
            ),
        decreases postfix@.len() - i,
    {
        let ghost rest = ts.skip(i as int);
        proof {
            assert(rest[0] == ts[i as int]);
            assert(rest.skip(1) =~= ts.skip(i + 1));
        }
        let t = &postfix[i];
        match t {
            Token::Number(n) => {
                stack.push(*n);
            },
            Token::Variable(name) => {
                match ctx.get(name.as_str()) {
                    Some(v) => {
                        stack.push(v);
                    },
                    None => {
                        return Err(EvalError::MissingVariable(name.clone()));
                    },
                }
            },
            Token::Operator(sym) => {
                let op = match ops::lookup(sym.as_str()) {
                    Some(op) => op,
                    None => {
                        return Err(EvalError::UnknownOperator(sym.clone()));
                    },
                };
                if op.is_unary() {
                    let operand = match stack.pop() {
                        Some(v) => v,
                        None => {
                            return Err(EvalError::NotEnoughOperands { unary: true });
                        },
                    };
                    match op.apply(operand, None) {
                        Ok(v) => {
                            stack.push(v);
                        },
                        Err(e) => {
                            return Err(e);
                        },
                    }
                } else {
                    let right = match stack.pop() {
                        Some(v) => v,
                        None => {
                            return Err(EvalError::NotEnoughOperands { unary: false });
                        },
                    };
                    let left = match stack.pop() {
                        Some(v) => v,
                        None => {
                            return Err(EvalError::NotEnoughOperands { unary: false });
                        },
                    };
                    match op.apply(left, Some(right)) {
                        Ok(v) => {
                            stack.push(v);
                        },
                        Err(e) => {
                            return Err(e);
                        },
                    }
                }
            },
            Token::LeftParen => {
                return Err(EvalError::UnexpectedToken);
            },
            Token::RightParen => {
                return Err(EvalError::UnexpectedToken);
            },
        }
        i += 1;
    }
    proof {
        assert(ts.skip(i as int).len() == 0);
    }
    if stack.len() == 0 {
        Err(EvalError::EmptyExpression)
    } else if stack.len() > 1 {
        Err(EvalError::MalformedExpression)
    } else {
        let v = stack[0];
        Ok(v)
    }
}

/// Evaluates an expression string against a context: lex, parse to
/// postfix, then run the stack machine. An empty or all-whitespace
/// expression is rejected up front.
pub fn evaluate(expr: &str, ctx: &Context) -> (r: Result<i64, Error>)
    ensures
        match (r, spec_evaluate(expr@, ctx@)) {
            (Ok(v), Ok(sv)) => v == sv,
            (Err(e), Err(se)) => e@ == se,
            _ => false,
        },
{
    let tokens = tokenize(expr);
    if tokens.len() == 0 {
        return Err(Error::Lex(LexError::EmptyExpression));
    }
    match shunting_yard(tokens) {
        Err(e) => Err(Error::Parse(e)),
        Ok(postfix) => match evaluate_postfix(postfix, ctx) {
            Err(e) => Err(Error::Eval(e)),
            Ok(v) => Ok(v),
        },
    }
}

/// Law: evaluation holds no hidden state. The outcome of [`evaluate`] is
/// pinned by its contract to `spec_evaluate`, a mathematical function of
/// the expression text and the context alone, so re-running the same
/// expression against an unchanged context always yields the same
/// result.
pub proof fn lemma_evaluate_deterministic(
    s1: Seq<char>,
    ctx1: Seq<(Seq<char>, i64)>,
    s2: Seq<char>,
    ctx2: Seq<(Seq<char>, i64)>,
)
    requires
        s1 == s2,
        ctx1 == ctx2,
    ensures
        spec_evaluate(s1, ctx1) == spec_evaluate(s2, ctx2),
{
}

/// Evaluates an expression, rendering any failure as its legacy text:
/// the shape a consumer expecting a single number-or-text value slot is
/// handed at the system boundary.
pub fn evaluate_or_message(expr: &str, ctx: &Context) -> (r: Result<i64, String>)
    ensures
        match (r, spec_evaluate(expr@, ctx@)) {
            (Ok(v), Ok(sv)) => v == sv,
            (Err(s), Err(se)) => s@ == crate::errors::spec_message(se),
            _ => false,
        },
{
    match evaluate(expr, ctx) {
        Ok(v) => Ok(v),
        Err(e) => Err(e.message()),
    }
}

} // verus!
