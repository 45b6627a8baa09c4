//! The error taxonomy of the pipeline.
//!
//! Every stage returns a typed success-or-failure outcome to its caller:
//! lexing fails only on an empty expression, parsing fails on an unknown
//! operator symbol or unbalanced parentheses, evaluation fails on unknown
//! operators, missing variables, operand-stack underflow, a malformed
//! postfix sequence, or integer arithmetic that leaves the 64-bit range.
//!
//! Each exec error type has a ghost model (its `View`) over `Seq<char>`,
//! so that the stage contracts can speak of errors mathematically.

use vstd::prelude::*;

verus! {

/// Failure of the lexing stage.
///
/// Lexical classification is permissive: unrecognised fragments become
/// operator tokens and are rejected downstream, so the only lex-time
/// failure is an empty (or all-whitespace) expression.
#[derive(Debug, Clone, PartialEq, Eq)]
pub enum LexError {
    /// The expression contains no token at all.
    EmptyExpression,
}

/// Failure of the shunting-yard parsing stage.
#[derive(Debug, Clone, PartialEq, Eq)]
pub enum ParseError {
    /// An operator symbol met during a precedence comparison is not
    /// registered. Carries the unregistered symbol.
    UnknownOperator(String),
    /// A parenthesis is left unmatched at the end of the scan. Both a
    /// stray `(` and a stray `)` are rejected.
    MismatchedParentheses,
}

/// Failure of the postfix evaluation stage.
#[derive(Debug, Clone, PartialEq, Eq)]
pub enum EvalError {
    /// An operator token holds a symbol with no registered operator.
    UnknownOperator(String),
    /// A variable token names a key that the context does not hold.
    MissingVariable(String),
    /// The operand stack held too few values for an operator.
    NotEnoughOperands {
        /// Whether the starved operator was unary.
        unary: bool,
    },
    /// A parenthesis token appeared in a postfix sequence.
    UnexpectedToken,
    /// The postfix sequence left no value on the stack.
    EmptyExpression,
    /// The postfix sequence left more than one value on the stack.
    MalformedExpression,
    /// An arithmetic result left the `i64` range.
    Overflow,
    /// The right operand of `%` was zero.
    ModuloByZero,
}

/// Failure of the graph compiler.
///
/// Compilation never aborts the process: a bad decision specification is
/// reported to the caller as a value.
#[derive(Debug, Clone, PartialEq, Eq)]
pub enum BuildError {
    /// A decision's `kind` has no registered node builder. Carries the
    /// unregistered kind.
    UnknownKind(String),
    /// An expression-kind decision declared no inputs. Carries the
    /// decision's id.
    EmptyInputs(String),
}

/// Failure of expression evaluation as a whole: the failing stage's error.
#[derive(Debug, Clone, PartialEq, Eq)]
pub enum Error {
    /// The lexer failed.
    Lex(LexError),
    /// The parser failed.
    Parse(ParseError),
    /// The evaluator failed.
    Eval(EvalError),
}

/// Ghost model of [`LexError`].
pub enum SpecLexError {
    EmptyExpression,
}

/// Ghost model of [`ParseError`]: symbols are character sequences.
pub enum SpecParseError {
    UnknownOperator(Seq<char>),
    MismatchedParentheses,
}

/// Ghost model of [`EvalError`]: names are character sequences.
pub enum SpecEvalError {
    UnknownOperator(Seq<char>),
    MissingVariable(Seq<char>),
    NotEnoughOperands { unary: bool },
    UnexpectedToken,
    EmptyExpression,
    MalformedExpression,
    Overflow,
    ModuloByZero,
}

/// Ghost model of [`BuildError`].
pub enum SpecBuildError {
    UnknownKind(Seq<char>),
    EmptyInputs(Seq<char>),
}

/// Ghost model of [`Error`].
pub enum SpecError {
    Lex(SpecLexError),
    Parse(SpecParseError),
    Eval(SpecEvalError),
}

/// The legacy text of a lex error.
pub open spec fn spec_lex_message(e: SpecLexError) -> Seq<char> {
    "Invalid expression"@
}

/// The legacy text of a parse error.
pub open spec fn spec_parse_message(e: SpecParseError) -> Seq<char> {
    match e {
        SpecParseError::UnknownOperator(sym) => "Unknown operator: "@ + sym,
        SpecParseError::MismatchedParentheses => "Mismatched parentheses"@,
    }
}

/// The legacy text of an evaluation error.
pub open spec fn spec_eval_message(e: SpecEvalError) -> Seq<char> {
    match e {
        SpecEvalError::UnknownOperator(sym) => "Unknown operator: "@ + sym,
        SpecEvalError::MissingVariable(name) => "Invalid or missing variable: "@ + name,
        SpecEvalError::NotEnoughOperands { unary } => if unary {
            "Not enough operands for unary operator"@
        } else {
            "Not enough operands for binary operator"@
        },
        SpecEvalError::UnexpectedToken => "Unexpected token in postfix expression"@,
        SpecEvalError::EmptyExpression => "Empty expression"@,
        SpecEvalError::MalformedExpression => "Malformed postfix expression"@,
        SpecEvalError::Overflow => "Arithmetic overflow"@,
        SpecEvalError::ModuloByZero => "Modulo by zero"@,
    }
}

/// The legacy text of an evaluation failure: the failing stage's text.
pub open spec fn spec_message(e: SpecError) -> Seq<char> {
    match e {
        SpecError::Lex(inner) => spec_lex_message(inner),
        SpecError::Parse(inner) => spec_parse_message(inner),
        SpecError::Eval(inner) => spec_eval_message(inner),
    }
}

impl LexError {
    /// The error rendered as the legacy text.
    pub fn message(&self) -> (s: String)
        ensures
            s@ == spec_lex_message(self@),
    {
        String::from_str("Invalid expression")
    }
}

impl ParseError {
    /// The error rendered as the legacy text.
    pub fn message(&self) -> (s: String)
        ensures
            s@ == spec_parse_message(self@),
    {
        match self {
            ParseError::UnknownOperator(sym) => String::from_str("Unknown operator: ").concat(
                sym.as_str(),
            ),
            ParseError::MismatchedParentheses => String::from_str("Mismatched parentheses"),
        }
    }
}

impl EvalError {
    /// The error rendered as the legacy text.
    pub fn message(&self) -> (s: String)
        ensures
            s@ == spec_eval_message(self@),
    {
        match self {
            EvalError::UnknownOperator(sym) => String::from_str("Unknown operator: ").concat(
                sym.as_str(),
            ),
            EvalError::MissingVariable(name) => String::from_str(
                "Invalid or missing variable: ",
            ).concat(name.as_str()),
            EvalError::NotEnoughOperands { unary } => if *unary {
                String::from_str("Not enough operands for unary operator")
            } else {
                String::from_str("Not enough operands for binary operator")
            },
            EvalError::UnexpectedToken => String::from_str("Unexpected token in postfix expression"),
            EvalError::EmptyExpression => String::from_str("Empty expression"),
            EvalError::MalformedExpression => String::from_str("Malformed postfix expression"),
            EvalError::Overflow => String::from_str("Arithmetic overflow"),
            EvalError::ModuloByZero => String::from_str("Modulo by zero"),
        }
    }
}

impl Error {
    /// The error rendered as the legacy text: what a consumer expecting
    /// a single generic value slot is shown in place of a number.
    pub fn message(&self) -> (s: String)
        ensures
            s@ == spec_message(self@),
    {
        match self {
            Error::Lex(e) => e.message(),
            Error::Parse(e) => e.message(),
            Error::Eval(e) => e.message(),
        }
    }
}

impl View for LexError {
    type V = SpecLexError;

    open spec fn view(&self) -> SpecLexError {
        SpecLexError::EmptyExpression
    }
}

impl View for ParseError {
    type V = SpecParseError;

    open spec fn view(&self) -> SpecParseError {
        match self {
            ParseError::UnknownOperator(sym) => SpecParseError::UnknownOperator(sym@),
            ParseError::MismatchedParentheses => SpecParseError::MismatchedParentheses,
        }
    }
}

impl View for EvalError {
    type V = SpecEvalError;

    open spec fn view(&self) -> SpecEvalError {
        match self {
            EvalError::UnknownOperator(sym) => SpecEvalError::UnknownOperator(sym@),
            EvalError::MissingVariable(name) => SpecEvalError::MissingVariable(name@),
            EvalError::NotEnoughOperands { unary } => SpecEvalError::NotEnoughOperands {
                unary: *unary,
            },
            EvalError::UnexpectedToken => SpecEvalError::UnexpectedToken,
            EvalError::EmptyExpression => SpecEvalError::EmptyExpression,
            EvalError::MalformedExpression => SpecEvalError::MalformedExpression,
            EvalError::Overflow => SpecEvalError::Overflow,
            EvalError::ModuloByZero => SpecEvalError::ModuloByZero,
        }
    }
}

impl View for BuildError {
    type V = SpecBuildError;

    open spec fn view(&self) -> SpecBuildError {
        match self {
            BuildError::UnknownKind(kind) => SpecBuildError::UnknownKind(kind@),
            BuildError::EmptyInputs(id) => SpecBuildError::EmptyInputs(id@),
        }
    }
}

impl View for Error {
    type V = SpecError;

    open spec fn view(&self) -> SpecError {
        match self {
            Error::Lex(e) => SpecError::Lex(e@),
            Error::Parse(e) => SpecError::Parse(e@),
            Error::Eval(e) => SpecError::Eval(e@),
        }
    }
}

} // verus!
