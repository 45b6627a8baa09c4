//! The shunting-yard parser: infix token order to postfix.
//!
//! A single left-to-right pass keeps an output queue and an
//! operator/parenthesis stack. Numbers and variables go straight to the
//! output. An incoming binary operator first pops every stacked operator
//! of precedence at least its own, so operators of equal precedence
//! associate left to right. An incoming unary operator is a prefix: its
//! operand is still to come and no stacked operator could take a
//! completed left operand, so it pops nothing — unary operators nest. A
//! right parenthesis pops to the matching left one. Unbalanced
//! parentheses of either kind are rejected: a stray `(` and a stray `)`
//! both yield [`ParseError::MismatchedParentheses`].
//!
//! When a precedence comparison meets a symbol with no registered
//! operator, the parse fails with [`ParseError::UnknownOperator`] carrying
//! the unregistered symbol (the incoming one when both are unregistered).
//! An unknown operator that never takes part in a comparison is passed
//! through and rejected later, by the evaluator.

use vstd::prelude::*;

use crate::errors::{ParseError, SpecParseError};
use crate::ops;
use crate::ops::{spec_is_unary, spec_lookup, spec_precedence};
use crate::token::{SpecToken, Token};

verus! {

/// The operators that an incoming operator with symbol `sym` pops off the
/// stack: the new stack and the popped tokens in pop order, or the
/// unregistered symbol met during a precedence comparison. An incoming
/// unary operator pops nothing.
pub open spec fn spec_pop_ops(stack: Seq<SpecToken>, sym: Seq<char>) -> Result<
    (Seq<SpecToken>, Seq<SpecToken>),
    SpecParseError,
>
    decreases stack.len(),
{
    if stack.len() == 0 {
        Ok((stack, Seq::empty()))
    } else {
        match stack.last() {
            SpecToken::Operator(top_sym) => match (spec_lookup(top_sym), spec_lookup(sym)) {
                (Some(top), Some(cur)) => if spec_is_unary(cur) {
                    Ok((stack, Seq::empty()))
                } else if spec_precedence(top) >= spec_precedence(cur) {
                    match spec_pop_ops(stack.drop_last(), sym) {
                        Ok((st, popped)) => Ok(
                            (st, seq![SpecToken::Operator(top_sym)] + popped),
                        ),
                        Err(e) => Err(e),
                    }
                } else {
                    Ok((stack, Seq::empty()))
                },
                _ => Err(
                    SpecParseError::UnknownOperator(
                        if spec_lookup(sym) is None {
                            sym
                        } else {
                            top_sym
                        },
                    ),
                ),
            },
            _ => Ok((stack, Seq::empty())),
        }
    }
}

/// What a right parenthesis pops: the stack below the matching left
/// parenthesis (which is discarded) and the popped tokens in pop order,
/// or `None` when no left parenthesis is on the stack.
pub open spec fn spec_pop_paren(stack: Seq<SpecToken>) -> Option<
    (Seq<SpecToken>, Seq<SpecToken>),
>
    decreases stack.len(),
{
    if stack.len() == 0 {
        None
    } else if stack.last() is LeftParen {
        Some((stack.drop_last(), Seq::empty()))
    } else {
        match spec_pop_paren(stack.drop_last()) {
            Some((st, popped)) => Some((st, seq![stack.last()] + popped)),
            None => None,
        }
    }
}

/// Draining the stack at the end of the scan: every remaining token goes
/// to the output, and a remaining left parenthesis is a mismatch.
pub open spec fn spec_drain(stack: Seq<SpecToken>, out: Seq<SpecToken>) -> Result<
    Seq<SpecToken>,
    SpecParseError,
>
    decreases stack.len(),
{
    if stack.len() == 0 {
        Ok(out)
    } else if stack.last() is LeftParen {
        Err(SpecParseError::MismatchedParentheses)
    } else {
        spec_drain(stack.drop_last(), out.push(stack.last()))
    }
}

/// One step per token of the shunting-yard pass, from the given stack and
/// output queue.
pub open spec fn spec_shunt_from(
    ts: Seq<SpecToken>,
    stack: Seq<SpecToken>,
    out: Seq<SpecToken>,
) -> Result<Seq<SpecToken>, SpecParseError>
    decreases ts.len(),
{
    if ts.len() == 0 {
        spec_drain(stack, out)
    } else {
        match ts[0] {
            SpecToken::Number(_) => spec_shunt_from(ts.skip(1), stack, out.push(ts[0])),
            SpecToken::Variable(_) => spec_shunt_from(ts.skip(1), stack, out.push(ts[0])),
            SpecToken::Operator(sym) => match spec_pop_ops(stack, sym) {
                Ok((st, popped)) => spec_shunt_from(ts.skip(1), st.push(ts[0]), out + popped),
                Err(e) => Err(e),
            },
            SpecToken::LeftParen => spec_shunt_from(ts.skip(1), stack.push(ts[0]), out),
            SpecToken::RightParen => match spec_pop_paren(stack) {
                Some((st, popped)) => spec_shunt_from(ts.skip(1), st, out + popped),
                None => Err(SpecParseError::MismatchedParentheses),
            },
        }
    }
}

/// The postfix form of a token sequence, or the parse error.
pub open spec fn spec_parse(ts: Seq<SpecToken>) -> Result<Seq<SpecToken>, SpecParseError> {
    spec_shunt_from(ts, Seq::empty(), Seq::empty())
}

/// An owned copy of a token, equal in model.
fn clone_token(t: &Token) -> (r: Token)
    ensures
        r@ == t@,
{
    match t {
        Token::Number(n) => Token::Number(*n),
        Token::Variable(name) => Token::Variable(name.clone()),
        Token::Operator(sym) => Token::Operator(sym.clone()),
        Token::LeftParen => Token::LeftParen,
        Token::RightParen => Token::RightParen,
    }
}

/// Converts an infix token sequence to postfix order.
pub fn shunting_yard(tokens: Vec<Token>) -> (r: Result<Vec<Token>, ParseError>)
    ensures
        match (r, spec_parse(tokens.deep_view())) {
            (Ok(v), Ok(sv)) => v.deep_view() == sv,
            (Err(e), Err(se)) => e@ == se,
            _ => false,
        },
{
    let ghost ts = tokens.deep_view();
    let mut out: Vec<Token> = Vec::new();
    let mut stack: Vec<Token> = Vec::new();
    let mut i: usize = 0;
    proof {
        assert(ts.skip(0) =~= ts);
    }
    while i < tokens.len()
        invariant
            i <= tokens@.len(),
            ts == tokens.deep_view(),
            spec_parse(ts) == spec_shunt_from(ts.skip(i as int), stack.deep_view(), out.deep_view()),
        decreases tokens@.len() - i,
    {
        let ghost rest = ts.skip(i as int);
        proof {
            assert(rest[0] == ts[i as int]);
            assert(rest.skip(1) =~= ts.skip(i + 1));
        }
        let t = &tokens[i];
        match t {
            Token::Number(_) | Token::Variable(_) => {
                let ghost out0 = out.deep_view();
                out.push(clone_token(t));
                proof {
                    assert(out.deep_view() =~= out0.push(ts[i as int]));
                }
            },
            Token::Operator(sym) => {
                let ghost symv = sym@;
                let ghost stack0 = stack.deep_view();
                let ghost out0 = out.deep_view();
                let ghost mut done: Seq<SpecToken> = Seq::empty();
                proof {
                    assert(out0 + done =~= out0);
                }
                loop
                    invariant
                        ts == tokens.deep_view(),
                        symv == sym@,
                        out.deep_view() == out0 + done,
                        match spec_pop_ops(stack.deep_view(), symv) {
                            Ok((st, popped)) => spec_pop_ops(stack0, symv) == Ok::<
                                (Seq<SpecToken>, Seq<SpecToken>),
                                SpecParseError,
                            >((st, done + popped)),
                            Err(e) => spec_pop_ops(stack0, symv) == Err::<
                                (Seq<SpecToken>, Seq<SpecToken>),
                                SpecParseError,
                            >(e),
                        },
                        spec_parse(ts) == spec_shunt_from(
                            ts.skip(i as int),
                            stack0,
                            out0,
                        ),
                        ts.skip(i as int).len() > 0,
                        ts.skip(i as int)[0] == SpecToken::Operator(symv),
                        ts.skip(i as int).skip(1) == ts.skip(i + 1),
                        i < ts.len(),
                    ensures
                        symv == sym@,
                        out.deep_view() == out0 + done,
                        spec_pop_ops(stack0, symv) == Ok::<
                            (Seq<SpecToken>, Seq<SpecToken>),
                            SpecParseError,
                        >((stack.deep_view(), done)),
                        spec_parse(ts) == spec_shunt_from(
                            ts.skip(i as int),
                            stack0,
                            out0,
                        ),
                        ts.skip(i as int).len() > 0,
                        ts.skip(i as int)[0] == SpecToken::Operator(symv),
                        ts.skip(i as int).skip(1) == ts.skip(i + 1),
                        i < ts.len(),
                    decreases stack@.len(),
                {
                    if stack.len() == 0 {
                        proof {
                            assert(done + Seq::<SpecToken>::empty() =~= done);
                        }
                        break;
                    }
                    let ghost sdv = stack.deep_view();
                    let top_is_op: bool = matches!(&stack[stack.len() - 1], Token::Operator(_));
                    if !top_is_op {
                        proof {
                            assert(sdv.last() == stack@[stack@.len() - 1].deep_view());
                            assert(!(sdv.last() is Operator));
                            assert(done + Seq::<SpecToken>::empty() =~= done);
                        }
                        break;
                    }
                    let top_known: Option<ops::Op>;
                    let ghost mut top_symv: Seq<char> = Seq::empty();
                    match &stack[stack.len() - 1] {
                        Token::Operator(top_sym) => {
                            top_known = ops::lookup(top_sym.as_str());
                            proof {
                                top_symv = top_sym@;
                                assert(sdv.last() == SpecToken::Operator(top_symv));
                            }
                        },
                        _ => {
                            // Unreachable: the top was just seen to be an operator.
                            top_known = None;
                            proof {
                                assert(false);
                            }
                        },
                    }
                    let cur_known = ops::lookup(sym.as_str());
                    match (top_known, cur_known) {
                        (Some(top_op), Some(cur_op)) => {
                            if cur_op.is_unary() {
                                proof {
                                    assert(done + Seq::<SpecToken>::empty() =~= done);
                                }
                                break;
                            } else if top_op.precedence() >= cur_op.precedence() {
                                let popped = match stack.pop() {
                                    Some(p) => p,
                                    None => {
                                        proof {
                                            assert(false);
                                        }
                                        Token::LeftParen
                                    },
                                };
                                let ghost out_before = out.deep_view();
                                out.push(popped);
                                proof {
                                    assert(stack.deep_view() =~= sdv.drop_last());
                                    assert(popped.deep_view() == sdv.last());
                                    assert(out.deep_view() =~= out_before.push(sdv.last()));
                                    let old_done = done;
                                    done = done.push(SpecToken::Operator(top_symv));
                                    assert(out.deep_view() =~= out0 + done);
                                    assert forall|p: Seq<SpecToken>|
                                        old_done + (seq![SpecToken::Operator(top_symv)] + p)
                                            =~= done + p by {}
                                }
                            } else {
                                proof {
                                    assert(done + Seq::<SpecToken>::empty() =~= done);
                                }
                                break;
                            }
                        },
                        _ => {
                            let bad: String = if cur_known.is_none() {
                                sym.clone()
                            } else {
                                match &stack[stack.len() - 1] {
                                    Token::Operator(top_sym) => top_sym.clone(),
                                    _ => sym.clone(),  // unreachable: the top is an operator
                                }
                            };
                            proof {
                                assert(spec_pop_ops(sdv, symv) == Err::<
                                    (Seq<SpecToken>, Seq<SpecToken>),
                                    SpecParseError,
                                >(SpecParseError::UnknownOperator(bad@)));
                                assert(spec_pop_ops(stack0, symv) == Err::<
                                    (Seq<SpecToken>, Seq<SpecToken>),
                                    SpecParseError,
                                >(SpecParseError::UnknownOperator(bad@)));
                                assert(spec_shunt_from(ts.skip(i as int), stack0, out0) == Err::<
                                    Seq<SpecToken>,
                                    SpecParseError,
                                >(SpecParseError::UnknownOperator(bad@)));
                            }
                            return Err(ParseError::UnknownOperator(bad));
                        },
                    }
                }
                let pushed = clone_token(t);
                let ghost stack_drained = stack.deep_view();
                stack.push(pushed);
                proof {
                    assert(stack.deep_view() =~= stack_drained.push(SpecToken::Operator(symv)));
                    assert(spec_shunt_from(ts.skip(i as int), stack0, out0) == spec_shunt_from(
                        ts.skip(i + 1),
                        stack_drained.push(SpecToken::Operator(symv)),
                        out0 + done,
                    ));
                }
            },
            Token::LeftParen => {
                let ghost stack0 = stack.deep_view();
                stack.push(Token::LeftParen);
                proof {
                    assert(stack.deep_view() =~= stack0.push(SpecToken::LeftParen));
                }
            },
            Token::RightParen => {
                let ghost stack0 = stack.deep_view();
                let ghost out0 = out.deep_view();
                let ghost mut done: Seq<SpecToken> = Seq::empty();
                proof {
                    assert(out0 + done =~= out0);
                }
                loop
                    invariant_except_break
                        match spec_pop_paren(stack.deep_view()) {
                            Some((st, popped)) => spec_pop_paren(stack0) == Some::<
                                (Seq<SpecToken>, Seq<SpecToken>),
                            >((st, done + popped)),
                            None => spec_pop_paren(stack0) is None,
                        },
                    invariant
                        ts == tokens.deep_view(),
                        out.deep_view() == out0 + done,
                        spec_parse(ts) == spec_shunt_from(
                            ts.skip(i as int),
                            stack0,
                            out0,
                        ),
                        ts.skip(i as int).len() > 0,
                        ts.skip(i as int)[0] == SpecToken::RightParen,
                        ts.skip(i as int).skip(1) == ts.skip(i + 1),
                        i < ts.len(),
                    ensures
                        out.deep_view() == out0 + done,
                        spec_pop_paren(stack0) == Some::<
                            (Seq<SpecToken>, Seq<SpecToken>),
                        >((stack.deep_view(), done)),
                        spec_parse(ts) == spec_shunt_from(
                            ts.skip(i as int),
                            stack0,
                            out0,
                        ),
                        ts.skip(i as int).len() > 0,
                        ts.skip(i as int)[0] == SpecToken::RightParen,
                        ts.skip(i as int).skip(1) == ts.skip(i + 1),
                        i < ts.len(),
                    decreases stack@.len(),
                {
                    let ghost sdv = stack.deep_view();
                    match stack.pop() {
                        None => {
                            proof {
                                assert(sdv.len() == 0);
                                assert(spec_pop_paren(stack0) is None);
                                assert(spec_shunt_from(ts.skip(i as int), stack0, out0) == Err::<
                                    Seq<SpecToken>,
                                    SpecParseError,
                                >(SpecParseError::MismatchedParentheses));
                            }
                            return Err(ParseError::MismatchedParentheses);
                        },
                        Some(top) => {
                            proof {
                                assert(sdv.len() > 0);
                                assert(stack.deep_view() =~= sdv.drop_last());
                                assert(top.deep_view() == sdv.last());
                            }
                            match top {
                                Token::LeftParen => {
                                    proof {
                                        assert(sdv.last() is LeftParen);
                                        assert(spec_pop_paren(sdv) == Some::<
                                            (Seq<SpecToken>, Seq<SpecToken>),
                                        >((sdv.drop_last(), Seq::empty())));
                                        assert(done + Seq::<SpecToken>::empty() =~= done);
                                        assert(spec_pop_paren(stack0) == Some::<
                                            (Seq<SpecToken>, Seq<SpecToken>),
                                        >((stack.deep_view(), done)));
                                    }
                                    break;
                                },
                                _ => {
                                    let ghost topv = top.deep_view();
                                    let ghost out_before = out.deep_view();
                                    out.push(top);
                                    proof {
                                        assert(out.deep_view() =~= out_before.push(topv));
                                        let old_done = done;
                                        done = done.push(topv);
                                        assert(out.deep_view() =~= out0 + done);
                                        assert forall|p: Seq<SpecToken>|
                                            old_done + (seq![topv] + p) =~= done + p by {}
                                    }
                                },
                            }
                        },
                    }
                }
                proof {
                    assert(spec_shunt_from(ts.skip(i as int), stack0, out0) == spec_shunt_from(
                        ts.skip(i + 1),
                        stack.deep_view(),
                        out0 + done,
                    ));
                }
            },
        }
        i += 1;
    }
    proof {
        assert(ts.skip(i as int).len() == 0);
    }
    while stack.len() > 0
        invariant
            ts == tokens.deep_view(),
            spec_parse(ts) == spec_drain(stack.deep_view(), out.deep_view()),
        decreases stack@.len(),
    {
        let ghost sdv = stack.deep_view();
        match stack.pop() {
            None => {
                proof {
                    assert(false);
                }
            },
            Some(top) => {
                proof {
                    assert(stack.deep_view() =~= sdv.drop_last());
                    assert(top.deep_view() == sdv.last());
                }
                match top {
                    Token::LeftParen => {
                        proof {
                            assert(sdv.last() is LeftParen);
                            assert(spec_drain(sdv, out.deep_view()) == Err::<
                                Seq<SpecToken>,
                                SpecParseError,
                            >(SpecParseError::MismatchedParentheses));
                        }
                        return Err(ParseError::MismatchedParentheses);
                    },
                    _ => {
                        let ghost out_before = out.deep_view();
                        let ghost topv = top.deep_view();
                        out.push(top);
                        proof {
                            assert(out.deep_view() =~= out_before.push(topv));
                        }
                    },
                }
            },
        }
    }
    Ok(out)
}

} // verus!
