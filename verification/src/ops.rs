//! The operator registry.
//!
//! The reference operator set is closed and matched exhaustively:
//! `+` and `-` at precedence 1 (binary), `*` and `%` at precedence 2
//! (binary), and the unary `abs` at precedence 3, which ignores its right
//! operand. [`lookup`] is the registry lookup from an operator symbol to
//! its operator; every other symbol is unregistered.
//!
//! Values are 64-bit signed integers. [`Op::apply`] uses checked
//! arithmetic: a result outside the `i64` range is an
//! [`SpecEvalError::Overflow`] and a zero right operand of `%` is an
//! [`SpecEvalError::ModuloByZero`], never a wrap-around or a panic.

use vstd::prelude::*;

use crate::errors::{EvalError, SpecEvalError};

verus! {

/// A registered operator.
#[derive(Debug, Clone, Copy, PartialEq, Eq, Structural)]
pub enum Op {
    /// Binary `+`, precedence 1.
    Add,
    /// Binary `-`, precedence 1.
    Sub,
    /// Binary `*`, precedence 2.
    Mul,
    /// Binary `%` (truncated remainder), precedence 2.
    Mod,
    /// Unary `abs` (absolute value), precedence 3.
    Abs,
}

/// The precedence that the registry assigns to `op`: higher binds tighter.
pub open spec fn spec_precedence(op: Op) -> int {
    match op {
        Op::Add => 1,
        Op::Sub => 1,
        Op::Mul => 2,
        Op::Mod => 2,
        Op::Abs => 3,
    }
}

/// Whether `op` takes a single operand.
pub open spec fn spec_is_unary(op: Op) -> bool {
    op is Abs
}

/// The registry lookup: the operator registered under `sym`, if any.
pub open spec fn spec_lookup(sym: Seq<char>) -> Option<Op> {
    if sym == seq!['+'] {
        Some(Op::Add)
    } else if sym == seq!['-'] {
        Some(Op::Sub)
    } else if sym == seq!['*'] {
        Some(Op::Mul)
    } else if sym == seq!['%'] {
        Some(Op::Mod)
    } else if sym == seq!['a', 'b', 's'] {
        Some(Op::Abs)
    } else {
        None
    }
}

/// Rust's `%` on integers: the remainder of truncated division, with the
/// sign of the left operand.
pub open spec fn spec_rem_trunc(a: int, b: int) -> int
    recommends
        b != 0,
{
    if a == 0 {
        0
    } else if a > 0 && b > 0 {
        a % b
    } else if a < 0 && b < 0 {
        -((-a) % (-b))
    } else if a < 0 {
        -((-a) % b)
    } else {
        a % (-b)
    }
}

/// What applying `op` to `left` and `right` yields. A unary operator uses
/// `left` alone; a binary operator applied without a right operand falls
/// back to 0, as the registry has always had it.
pub open spec fn spec_apply(op: Op, left: i64, right: Option<i64>) -> Result<i64, SpecEvalError> {
    if spec_is_unary(op) {
        if left == i64::MIN {
            Err(SpecEvalError::Overflow)
        } else if left < 0 {
            Ok((-(left as int)) as i64)
        } else {
            Ok(left)
        }
    } else {
        let b: i64 = match right {
            Some(r) => r,
            None => 0,
        };
        match op {
            Op::Add => if i64::MIN <= left + b <= i64::MAX {
                Ok((left + b) as i64)
            } else {
                Err(SpecEvalError::Overflow)
            },
            Op::Sub => if i64::MIN <= left - b <= i64::MAX {
                Ok((left - b) as i64)
            } else {
                Err(SpecEvalError::Overflow)
            },
            Op::Mul => if i64::MIN <= left * b <= i64::MAX {
                Ok((left * b) as i64)
            } else {
                Err(SpecEvalError::Overflow)
            },
            Op::Mod => if b == 0 {
                Err(SpecEvalError::ModuloByZero)
            } else if left == i64::MIN && b == -1 {
                Err(SpecEvalError::Overflow)
            } else {
                Ok(spec_rem_trunc(left as int, b as int) as i64)
            },
            Op::Abs => Err(SpecEvalError::Overflow),  // unreachable: Abs is unary
        }
    }
}

/// Looks an operator symbol up in the registry.
pub fn lookup(sym: &str) -> (r: Option<Op>)
    ensures
        r == spec_lookup(sym@),
{
    let n = sym.unicode_len();
    if n == 1 {
        let c = sym.get_char(0);
        if c == '+' {
            proof { assert(sym@ =~= seq!['+']); }
            Some(Op::Add)
        } else if c == '-' {
            proof { assert(sym@ =~= seq!['-']); }
            Some(Op::Sub)
        } else if c == '*' {
            proof { assert(sym@ =~= seq!['*']); }
            Some(Op::Mul)
        } else if c == '%' {
            proof { assert(sym@ =~= seq!['%']); }
            Some(Op::Mod)
        } else {
            None
        }
    } else if n == 3 {
        let c0 = sym.get_char(0);
        let c1 = sym.get_char(1);
        let c2 = sym.get_char(2);
        if c0 == 'a' && c1 == 'b' && c2 == 's' {
            proof { assert(sym@ =~= seq!['a', 'b', 's']); }
            Some(Op::Abs)
        } else {
            None
        }
    } else {
        None
    }
}

impl Op {
    /// The operator's precedence.
    pub fn precedence(&self) -> (p: u8)
        ensures
            p as int == spec_precedence(*self),
    {
        match self {
            Op::Add => 1,
            Op::Sub => 1,
            Op::Mul => 2,
            Op::Mod => 2,
            Op::Abs => 3,
        }
    }

    /// Whether the operator takes a single operand.
    pub fn is_unary(&self) -> (u: bool)
        ensures
            u == spec_is_unary(*self),
    {
        match self {
            Op::Abs => true,
            _ => false,
        }
    }

    /// Applies the operator to `left` and (for a binary operator) `right`.
    pub fn apply(&self, left: i64, right: Option<i64>) -> (r: Result<i64, EvalError>)
        ensures
            match (r, spec_apply(*self, left, right)) {
                (Ok(v), Ok(sv)) => v == sv,
                (Err(e), Err(se)) => e@ == se,
                _ => false,
            },
    {
        if self.is_unary() {
            if left == i64::MIN {
                Err(EvalError::Overflow)
            } else if left < 0 {
                Ok(-left)
            } else {
                Ok(left)
            }
        } else {
            let b: i64 = match right {
                Some(r) => r,
                None => 0,
            };
            match self {
                Op::Add => match left.checked_add(b) {
                    Some(v) => Ok(v),
                    None => Err(EvalError::Overflow),
                },
                Op::Sub => match left.checked_sub(b) {
                    Some(v) => Ok(v),
                    None => Err(EvalError::Overflow),
                },
                Op::Mul => match left.checked_mul(b) {
                    Some(v) => Ok(v),
                    None => Err(EvalError::Overflow),
                },
                Op::Mod => if b == 0 {
                    Err(EvalError::ModuloByZero)
                } else if left == i64::MIN && b == -1 {
                    Err(EvalError::Overflow)
                } else {
                    let v = left.checked_rem(b);
                    match v {
                        Some(v) => Ok(v),
                        None => Err(EvalError::ModuloByZero),  // unreachable: guarded above
                    }
                },
                Op::Abs => Err(EvalError::Overflow),  // unreachable: Abs is unary
            }
        }
    }
}

} // verus!
