//! Tokens and the lexer.
//!
//! An expression is split on whitespace and each fragment is classified in
//! order: `"("` and `")"` become parentheses, a decimal integer literal
//! (an optional sign and digits, in `i64` range) becomes a number, a
//! fragment starting with the `$` sigil becomes a variable reference, and
//! anything else becomes an operator symbol. Classification is
//! deliberately permissive: a numeric-looking but invalid fragment is
//! treated as an operator and rejected later, at registry lookup time.

use vstd::prelude::*;

verus! {

/// An atomic lexical unit of an expression.
#[derive(Debug, Clone, PartialEq)]
pub enum Token {
    /// A numeric literal.
    Number(i64),
    /// A `$`-prefixed variable reference, without the sigil.
    Variable(String),
    /// An operator symbol, verbatim.
    Operator(String),
    /// `(`.
    LeftParen,
    /// `)`.
    RightParen,
}

/// Ghost model of [`Token`]: names and symbols are character sequences.
pub enum SpecToken {
    Number(i64),
    Variable(Seq<char>),
    Operator(Seq<char>),
    LeftParen,
    RightParen,
}

impl View for Token {
    type V = SpecToken;

    open spec fn view(&self) -> SpecToken {
        match self {
            Token::Number(n) => SpecToken::Number(*n),
            Token::Variable(name) => SpecToken::Variable(name@),
            Token::Operator(sym) => SpecToken::Operator(sym@),
            Token::LeftParen => SpecToken::LeftParen,
            Token::RightParen => SpecToken::RightParen,
        }
    }
}

impl DeepView for Token {
    type V = SpecToken;

    open spec fn deep_view(&self) -> SpecToken {
        self.view()
    }
}

/// The whitespace that separates fragments.
pub open spec fn spec_is_space(c: char) -> bool {
    c == ' ' || c == '\t' || c == '\n' || c == '\r'
}

/// A decimal digit.
pub open spec fn spec_is_digit(c: char) -> bool {
    '0' as int <= c as int && c as int <= '9' as int
}

/// The value of a decimal digit.
pub open spec fn spec_digit_val(c: char) -> int {
    c as int - '0' as int
}

/// Whether every character of `w` is a decimal digit.
pub open spec fn spec_all_digits(w: Seq<char>) -> bool {
    forall|k: int| 0 <= k < w.len() ==> spec_is_digit(#[trigger] w[k])
}

/// The value of a digit string, most significant digit first.
pub open spec fn spec_digits_val(w: Seq<char>) -> int
    decreases w.len(),
{
    if w.len() == 0 {
        0
    } else {
        spec_digits_val(w.drop_last()) * 10 + spec_digit_val(w.last())
    }
}

/// Whether `w` carries a leading sign.
pub open spec fn spec_has_sign(w: Seq<char>) -> bool {
    w.len() >= 1 && (w[0] == '+' || w[0] == '-')
}

/// The digits of `w`, the leading sign dropped.
pub open spec fn spec_literal_body(w: Seq<char>) -> Seq<char> {
    if spec_has_sign(w) {
        w.skip(1)
    } else {
        w
    }
}

/// The magnitude bound of an integer literal: `i64::MAX` for a positive
/// one, one more for a negative one.
pub open spec fn spec_literal_limit(w: Seq<char>) -> int {
    if w.len() >= 1 && w[0] == '-' {
        0x8000000000000000
    } else {
        0x7fffffffffffffff
    }
}

/// Whether `w` is a decimal integer literal that fits in `i64`: an
/// optional sign, then one or more digits.
pub open spec fn spec_is_int_literal(w: Seq<char>) -> bool {
    let body = spec_literal_body(w);
    &&& body.len() >= 1
    &&& spec_all_digits(body)
    &&& spec_digits_val(body) <= spec_literal_limit(w)
}

/// The value of an integer literal.
pub open spec fn spec_int_value(w: Seq<char>) -> int
    recommends
        spec_is_int_literal(w),
{
    if w.len() >= 1 && w[0] == '-' {
        -spec_digits_val(spec_literal_body(w))
    } else {
        spec_digits_val(spec_literal_body(w))
    }
}

/// How a whitespace-free fragment is classified.
pub open spec fn spec_classify(w: Seq<char>) -> SpecToken {
    if w == seq!['('] {
        SpecToken::LeftParen
    } else if w == seq![')'] {
        SpecToken::RightParen
    } else if spec_is_int_literal(w) {
        SpecToken::Number(spec_int_value(w) as i64)
    } else if w.len() >= 1 && w[0] == '$' {
        SpecToken::Variable(w.skip(1))
    } else {
        SpecToken::Operator(w)
    }
}

/// The token sequence of `s`, accumulated left to right: `cur` is the
/// fragment under construction.
pub open spec fn spec_lex_from(s: Seq<char>, cur: Seq<char>) -> Seq<SpecToken>
    decreases s.len(),
{
    if s.len() == 0 {
        if cur.len() == 0 {
            Seq::empty()
        } else {
            seq![spec_classify(cur)]
        }
    } else if spec_is_space(s[0]) {
        if cur.len() == 0 {
            spec_lex_from(s.skip(1), Seq::empty())
        } else {
            seq![spec_classify(cur)] + spec_lex_from(s.skip(1), Seq::empty())
        }
    } else {
        spec_lex_from(s.skip(1), cur.push(s[0]))
    }
}

/// The token sequence of an expression string.
pub open spec fn spec_tokens(s: Seq<char>) -> Seq<SpecToken> {
    spec_lex_from(s, Seq::empty())
}

/// A digit string's value is never negative.
proof fn lemma_digits_val_nonneg(w: Seq<char>)
    requires
        spec_all_digits(w),
    ensures
        spec_digits_val(w) >= 0,
    decreases w.len(),
{
    if w.len() > 0 {
        assert(spec_all_digits(w.drop_last())) by {
            assert(forall|k: int| 0 <= k < w.len() - 1 ==> w.drop_last()[k] == w[k]);
        }
        lemma_digits_val_nonneg(w.drop_last());
    }
}

/// Extending a digit string never shrinks its value.
proof fn lemma_digits_val_prefix_le(w: Seq<char>, i: int)
    requires
        spec_all_digits(w),
        0 <= i <= w.len(),
    ensures
        spec_digits_val(w.subrange(0, i)) <= spec_digits_val(w),
    decreases w.len() - i,
{
    if i == w.len() {
        assert(w.subrange(0, i) =~= w);
    } else {
        let shorter = w.subrange(0, i);
        let longer = w.subrange(0, i + 1);
        assert(longer.drop_last() =~= shorter);
        lemma_digits_val_nonneg(shorter);
        assert(spec_is_digit(w[i]));
        assert(spec_digits_val(longer) == spec_digits_val(shorter) * 10 + spec_digit_val(w[i]));
        assert(spec_digits_val(shorter) <= spec_digits_val(shorter) * 10) by {
            lemma_digits_val_nonneg(shorter);
        }
        lemma_digits_val_prefix_le(w, i + 1);
    }
}

/// Parses `w` as a decimal integer literal, if it is one.
pub fn parse_int(w: &str) -> (r: Option<i64>)
    ensures
        r is Some <==> spec_is_int_literal(w@),
        r matches Some(v) ==> v as int == spec_int_value(w@),
{
    let n = w.unicode_len();
    if n == 0 {
        return None;
    }
    let c0 = w.get_char(0);
    let neg: bool = c0 == '-';
    let start: usize = if c0 == '-' || c0 == '+' {
        1
    } else {
        0
    };
    if start >= n {
        // A sign with no digits is not a literal.
        return None;
    }
    let ghost body = spec_literal_body(w@);
    let ghost limit = spec_literal_limit(w@);
    let limit_exec: u64 = if neg {
        0x8000000000000000
    } else {
        0x7fffffffffffffff
    };
    assert(limit_exec as int == limit);
    assert(body =~= w@.subrange(start as int, n as int));
    let mut mag: u64 = 0;
    let mut i: usize = start;
    while i < n
        invariant
            start <= i <= n,
            n == w@.len(),
            n >= 1,
            start == 0 || start == 1,
            start < n,
            neg == (w@[0] == '-'),
            body == spec_literal_body(w@),
            body == w@.subrange(start as int, n as int),
            limit == spec_literal_limit(w@),
            limit_exec as int == limit,
            forall|k: int| start <= k < i ==> spec_is_digit(#[trigger] w@[k]),
            mag as int == spec_digits_val(w@.subrange(start as int, i as int)),
            mag <= limit_exec,
        decreases n - i,
    {
        let c = w.get_char(i);
        let u = c as u32;
        if u < 48 || u > 57 {
            proof {
                // The fragment holds a non-digit, so it is no literal.
                assert(u as int == c as int);
                assert(!spec_is_digit(c));
                assert(body.len() == n - start);
                assert(body[i - start] == w@[i as int]);
                assert(!spec_all_digits(body));
            }
            return None;
        }
        let d = (u - 48) as u64;
        assert(d as int == spec_digit_val(w@[i as int]));
        if mag > (limit_exec - d) / 10 {
            proof {
                // The digits read so far already outgrow the limit, and
                // appending digits never shrinks the value.
                let x = limit - d;
                vstd::arithmetic::div_mod::lemma_fundamental_div_mod(x, 10);
                vstd::arithmetic::div_mod::lemma_mod_bound(x, 10);
                assert(10 * (mag as int) + (d as int) > limit);
                let prefix = w@.subrange(start as int, i as int);
                let grown = w@.subrange(start as int, i + 1);
                assert(grown.drop_last() =~= prefix);
                assert(grown.last() == w@[i as int]);
                assert(spec_digit_val(w@[i as int]) == d as int);
                assert(spec_digits_val(grown) == (mag as int) * 10 + d);
                assert(spec_digits_val(grown) > limit);
                if spec_is_int_literal(w@) {
                    assert(spec_all_digits(body));
                    assert(grown =~= body.subrange(0, i + 1 - start));
                    lemma_digits_val_prefix_le(body, i + 1 - start);
                    assert(spec_digits_val(body) > limit);
                    assert(false);
                }
            }
            return None;
        }
        proof {
            let grown = w@.subrange(start as int, i + 1);
            assert(grown.drop_last() =~= w@.subrange(start as int, i as int));
            assert(spec_digits_val(grown) == mag as int * 10 + d);
        }
        mag = mag * 10 + d;
        i += 1;
    }
    proof {
        assert(w@.subrange(start as int, n as int) =~= body);
        assert(spec_all_digits(body)) by {
            assert(forall|k: int| 0 <= k < body.len() ==> body[k] == w@[k + start]);
        }
        assert(spec_digits_val(body) == mag as int);
        assert(spec_is_int_literal(w@));
    }
    if neg {
        if mag == 0x8000000000000000 {
            Some(i64::MIN)
        } else {
            Some(-(mag as i64))
        }
    } else {
        Some(mag as i64)
    }
}

/// Whether `c` separates fragments.
pub fn is_space_char(c: char) -> (r: bool)
    ensures
        r == spec_is_space(c),
{
    c == ' ' || c == '\t' || c == '\n' || c == '\r'
}

/// Classifies one whitespace-free fragment.
pub fn classify_word(w: &str) -> (t: Token)
    requires
        w@.len() >= 1,
    ensures
        t@ == spec_classify(w@),
{
    let n = w.unicode_len();
    let c0 = w.get_char(0);
    if n == 1 && c0 == '(' {
        proof { assert(w@ =~= seq!['(']); }
        return Token::LeftParen;
    }
    if n == 1 && c0 == ')' {
        proof { assert(w@ =~= seq![')']); }
        return Token::RightParen;
    }
    match parse_int(w) {
        Some(v) => {
            return Token::Number(v);
        },
        None => {},
    }
    if c0 == '$' {
        let name = w.substring_char(1, n);
        proof { assert(name@ =~= w@.skip(1)); }
        return Token::Variable(String::from_str(name));
    }
    Token::Operator(String::from_str(w))
}

/// Splits an expression on whitespace and classifies each fragment in
/// order.
pub fn tokenize(expr: &str) -> (tokens: Vec<Token>)
    ensures
        tokens.deep_view() == spec_tokens(expr@),
{
    let n = expr.unicode_len();
    let mut tokens: Vec<Token> = Vec::new();
    let mut start: usize = 0;
    let mut i: usize = 0;
    proof {
        assert(expr@.skip(0) =~= expr@);
        assert(expr@.subrange(0, 0) =~= Seq::<char>::empty());
    }
    while i < n
        invariant
            start <= i <= n,
            n == expr@.len(),
            forall|k: int| start <= k < i ==> !spec_is_space(#[trigger] expr@[k]),
            tokens.deep_view() + spec_lex_from(
                expr@.skip(i as int),
                expr@.subrange(start as int, i as int),
            ) == spec_tokens(expr@),
        decreases n - i,
    {
        let ghost rest = expr@.skip(i as int);
        let ghost cur = expr@.subrange(start as int, i as int);
        proof {
            assert(rest[0] == expr@[i as int]);
            assert(rest.skip(1) =~= expr@.skip(i + 1));
        }
        let c = expr.get_char(i);
        if is_space_char(c) {
            if start < i {
                let w = expr.substring_char(start, i);
                let t = classify_word(w);
                let ghost old_dv = tokens.deep_view();
                tokens.push(t);
                proof {
                    assert(tokens.deep_view() =~= old_dv.push(spec_classify(cur)));
                    assert(old_dv.push(spec_classify(cur)) + spec_lex_from(
                        expr@.skip(i + 1),
                        Seq::empty(),
                    ) =~= old_dv + (seq![spec_classify(cur)] + spec_lex_from(
                        expr@.skip(i + 1),
                        Seq::empty(),
                    )));
                }
            }
            start = i + 1;
            i += 1;
            proof {
                assert(expr@.subrange(start as int, i as int) =~= Seq::<char>::empty());
            }
        } else {
            i += 1;
            proof {
                assert(cur.push(expr@[i - 1]) =~= expr@.subrange(start as int, i as int));
            }
        }
    }
    let ghost cur = expr@.subrange(start as int, n as int);
    proof {
        assert(expr@.skip(n as int).len() == 0);
    }
    if start < n {
        let w = expr.substring_char(start, n);
        let t = classify_word(w);
        let ghost old_dv = tokens.deep_view();
        tokens.push(t);
        proof {
            assert(tokens.deep_view() =~= old_dv.push(spec_classify(cur)));
            assert(old_dv.push(spec_classify(cur)) =~= old_dv + seq![spec_classify(cur)]);
        }
    }
    tokens
}

} // verus!
