//! A verified rule/decision pipeline core.
//!
//! The crate has two halves:
//!
//! * an arithmetic expression language — a whitespace lexer, a
//!   shunting-yard parser and a stack-based postfix evaluator that runs a
//!   formula against a runtime variable context;
//! * a decision-graph compiler — it turns an ordered list of decision
//!   specifications into a directed graph of typed nodes, bounded by fixed
//!   input and output sentinel nodes, ready for a downstream execution
//!   engine.
//!
//! Every function is specified by `requires`/`ensures` contracts over
//! mathematical models of the data, and the contracts are checked by Verus.
//! File and network I/O, JSON encoding and the downstream engine live
//! outside this crate; they exchange plain values with it.

pub mod context;
pub mod errors;
pub mod evaluator;
pub mod graph;
pub mod models;
pub mod ops;
pub mod parser;
pub mod rule;
pub mod token;

pub use context::Context;
pub use errors::{BuildError, Error, EvalError, LexError, ParseError};
pub use evaluator::{evaluate, evaluate_or_message, evaluate_postfix};
pub use graph::{
    build, DecisionEdge, DecisionGraph, DecisionGraphBuilder, DecisionNode, DecisionNodeKind,
    DecisionTableNodeBuilder, EdgeBuilder, ExpressionNodeBuilder, FunctionNodeBuilder, HitPolicy,
    NodeFactory,
};
pub use ops::Op;
pub use parser::shunting_yard;
pub use rule::{Decision, DecisionRef, Rule};
pub use token::{tokenize, Token};
