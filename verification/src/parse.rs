//! The parser: tokens to exactly one expression, with one token of lookahead.
//!
//! The grammar is
//! ```text
//! Expression := Immediate | '(' Symbol Expression ')'
//! Immediate  := Null | Boolean | Character | Integer
//! ```
//! where the symbol at operator position must name one of the eleven
//! primitives. `parsed_at` is the grammar as a function from a token sequence
//! and a position to the expression recognized there and the position after
//! it; `parsed` additionally demands that the expression covers the whole
//! sequence, so trailing tokens, a missing operand, an unmatched parenthesis,
//! an unknown operator and empty input are all parse errors. `parse` is a
//! recursive-descent reading proved to return exactly what `parsed` yields.

use vstd::prelude::*;

use crate::expression::{primitive_of, Call, Expression, UnaryPrimitive};
use crate::immediate::Immediate;
use crate::lex::{Token, TokenView};

verus! {

/// The error of a token sequence that violates the grammar.
#[derive(Debug)]
pub struct ParseError;

/// The token values of an executable token vector, without their ranges.
pub open spec fn token_values(tokens: Seq<(Token, usize, usize)>) -> Seq<TokenView> {
    tokens.map(|i: int, t: (Token, usize, usize)| t.0@)
}

/// The expression the grammar recognizes at `pos`, with the position just
/// after it, or nothing when no expression starts there.
pub open spec fn parsed_at(ts: Seq<TokenView>, pos: int) -> Option<(Expression, int)>
    decreases ts.len() - pos,
    when 0 <= pos <= ts.len()
{
    if pos >= ts.len() {
        None
    } else {
        match ts[pos] {
            TokenView::Null => Some((Expression::Immediate(Immediate::Null), pos + 1)),
            TokenView::Boolean(b) => Some((Expression::Immediate(Immediate::Boolean(b)), pos + 1)),
            TokenView::Character(c) => Some(
                (Expression::Immediate(Immediate::Character(c)), pos + 1),
            ),
            TokenView::Integer(n) => Some((Expression::Immediate(Immediate::Integer(n)), pos + 1)),
            TokenView::LeftParenthesis => if pos + 1 < ts.len() {
                match ts[pos + 1] {
                    TokenView::Symbol(name) => match primitive_of(name) {
                        Some(p) => match parsed_at(ts, pos + 2) {
                            Some(inner) => if inner.1 < ts.len() && ts[inner.1]
                                is RightParenthesis {
                                Some(
                                    (
                                        Expression::Call(
                                            Call { primitive: p, expression: Box::new(inner.0) },
                                        ),
                                        inner.1 + 1,
                                    ),
                                )
                            } else {
                                None
                            },
                            None => None,
                        },
                        None => None,
                    },
                    _ => None,
                }
            } else {
                None
            },
            _ => None,
        }
    }
}

/// The one expression a whole token sequence holds, or nothing when the
/// sequence holds none or more than one.
pub open spec fn parsed(ts: Seq<TokenView>) -> Option<Expression> {
    match parsed_at(ts, 0) {
        Some(p) => if p.1 == ts.len() {
            Some(p.0)
        } else {
            None
        },
        None => None,
    }
}

/// The expression a source text holds: its tokens read as one expression
/// covering the whole input.
pub open spec fn source_expression(s: Seq<u8>) -> Option<Expression> {
    parsed(crate::lex::tokens_from(s, 0).map(|i: int, t: (TokenView, int, int)| t.0))
}

/// A run of digits keeps the scan in the integer state to the end of it.
proof fn lemma_scan_digits(s: Seq<u8>, i: int)
    requires
        0 <= i <= s.len(),
        forall|j: int| i <= j < s.len() ==> crate::digits::is_digit(#[trigger] s[j]),
    ensures
        crate::lex::scan(crate::lex::State::Integer, s, i) == (
            crate::lex::State::Integer,
            s.len() as int,
        ),
    decreases s.len() - i,
{
    if i < s.len() {
        lemma_scan_digits(s, i + 1);
    }
}

/// A source whose whole text scans to one accepted lexeme holds exactly
/// that one token.
proof fn lemma_single_token(s: Seq<u8>, state: crate::lex::State, tv: TokenView)
    requires
        0 < s.len(),
        crate::lex::scan(crate::lex::State::Start, s, 0) == (state, s.len() as int),
        state != crate::lex::State::Whitespace,
        crate::lex::accepted(state, s, 0, s.len() as int) == tv,
        !(tv is Unrecognized),
    ensures
        crate::lex::tokens_from(s, 0) == seq![(tv, 0int, s.len() as int)],
{
    assert(crate::lex::tokens_from(s, s.len() as int) =~= Seq::<(TokenView, int, int)>::empty());
    assert(crate::lex::tokens_from(s, 0) =~= seq![(tv, 0int, s.len() as int)]);
}

/// A sequence of one immediate token parses to that immediate.
proof fn lemma_parse_immediate_token(ts: Seq<TokenView>, imm: Immediate)
    requires
        ts.len() == 1,
        ts[0] == match imm {
            Immediate::Null => TokenView::Null,
            Immediate::Boolean(b) => TokenView::Boolean(b),
            Immediate::Character(c) => TokenView::Character(c),
            Immediate::Integer(n) => TokenView::Integer(n),
        },
    ensures
        parsed(ts) == Some(Expression::Immediate(imm)),
{
    assert(parsed_at(ts, 0) == Some((Expression::Immediate(imm), 1int)));
}

/// Round trip: the canonical printed form of every immediate — both
/// booleans, null, every integer, every printable character and each of the
/// four named escapes — lexes to one token and parses back to the same
/// immediate, so re-printing the parsed result reproduces the text exactly.
pub proof fn lemma_print_parse_round_trip(imm: Immediate)
    requires
        imm matches Immediate::Character(c) ==> crate::ascii::is_graphic(c) || c
            == crate::ascii::TAB || c == crate::ascii::LINE_FEED || c
            == crate::ascii::CARRIAGE_RETURN || c == crate::ascii::SPACE,
    ensures
        source_expression(crate::immediate::printed(imm)) == Some(Expression::Immediate(imm)),
{
    let s = crate::immediate::printed(imm);
    let start = crate::lex::State::Start;
    reveal_with_fuel(crate::lex::scan, 12);
    match imm {
        Immediate::Null => {
            assert(crate::lex::step(start, s, 0) == Some((crate::lex::State::LeftParenthesis, 1int)));
            assert(crate::lex::scan(start, s, 0) == crate::lex::scan(
                crate::lex::State::LeftParenthesis,
                s,
                1,
            ));
            assert(crate::lex::step(crate::lex::State::LeftParenthesis, s, 1) == Some(
                (crate::lex::State::Null, 2int),
            ));
            assert(crate::lex::scan(start, s, 0) == (crate::lex::State::Null, 2int));
            lemma_single_token(s, crate::lex::State::Null, TokenView::Null);
        },
        Immediate::Boolean(b) => {
            assert(crate::lex::step(start, s, 0) == Some((crate::lex::State::Hash, 1int)));
            let next = if b {
                crate::lex::State::True
            } else {
                crate::lex::State::False
            };
            assert(crate::lex::step(crate::lex::State::Hash, s, 1) == Some((next, 2int)));
            assert(crate::lex::scan(start, s, 0) == (next, 2int));
            lemma_single_token(s, next, TokenView::Boolean(b));
        },
        Immediate::Character(c) => {
            assert(crate::lex::step(start, s, 0) == Some((crate::lex::State::Hash, 1int)));
            assert(crate::lex::step(crate::lex::State::Hash, s, 1) == Some(
                (crate::lex::State::Slash, 2int),
            ));
            assert(crate::ascii::escape_newline().len() == 7);
            assert(crate::ascii::escape_return().len() == 6);
            assert(crate::ascii::escape_space().len() == 5);
            assert(crate::ascii::escape_tab().len() == 3);
            if c == crate::ascii::LINE_FEED {
                assert(s =~= seq![crate::ascii::HASH, crate::ascii::BACKSLASH]
                    + crate::ascii::escape_newline());
                assert(s.subrange(2, 9) =~= crate::ascii::escape_newline());
                assert(crate::lex::word_at(s, 2, crate::ascii::escape_newline()));
                assert(crate::lex::step(crate::lex::State::Slash, s, 2) == Some(
                    (crate::lex::State::Newline, 9int),
                ));
                assert(crate::lex::scan(start, s, 0) == (crate::lex::State::Newline, 9int));
                lemma_single_token(s, crate::lex::State::Newline, TokenView::Character(c));
            } else if c == crate::ascii::CARRIAGE_RETURN {
                assert(s.subrange(2, 8) =~= crate::ascii::escape_return());
                assert(crate::lex::word_at(s, 2, crate::ascii::escape_return()));
                assert(!crate::lex::word_at(s, 2, crate::ascii::escape_newline()));
                assert(crate::lex::step(crate::lex::State::Slash, s, 2) == Some(
                    (crate::lex::State::Return, 8int),
                ));
                assert(crate::lex::scan(start, s, 0) == (crate::lex::State::Return, 8int));
                lemma_single_token(s, crate::lex::State::Return, TokenView::Character(c));
            } else if c == crate::ascii::SPACE {
                assert(s.subrange(2, 7) =~= crate::ascii::escape_space());
                assert(crate::lex::word_at(s, 2, crate::ascii::escape_space()));
                assert(!crate::lex::word_at(s, 2, crate::ascii::escape_newline()));
                assert(!crate::lex::word_at(s, 2, crate::ascii::escape_return()));
                assert(crate::lex::step(crate::lex::State::Slash, s, 2) == Some(
                    (crate::lex::State::Space, 7int),
                ));
                assert(crate::lex::scan(start, s, 0) == (crate::lex::State::Space, 7int));
                lemma_single_token(s, crate::lex::State::Space, TokenView::Character(c));
            } else if c == crate::ascii::TAB {
                assert(s.subrange(2, 5) =~= crate::ascii::escape_tab());
                assert(crate::lex::word_at(s, 2, crate::ascii::escape_tab()));
                assert(!crate::lex::word_at(s, 2, crate::ascii::escape_newline()));
                assert(!crate::lex::word_at(s, 2, crate::ascii::escape_return()));
                assert(!crate::lex::word_at(s, 2, crate::ascii::escape_space()));
                assert(crate::lex::step(crate::lex::State::Slash, s, 2) == Some(
                    (crate::lex::State::Tab, 5int),
                ));
                assert(crate::lex::scan(start, s, 0) == (crate::lex::State::Tab, 5int));
                lemma_single_token(s, crate::lex::State::Tab, TokenView::Character(c));
            } else {
                assert(s =~= seq![crate::ascii::HASH, crate::ascii::BACKSLASH, c]);
                assert(!crate::lex::word_at(s, 2, crate::ascii::escape_newline()));
                assert(!crate::lex::word_at(s, 2, crate::ascii::escape_return()));
                assert(!crate::lex::word_at(s, 2, crate::ascii::escape_space()));
                assert(!crate::lex::word_at(s, 2, crate::ascii::escape_tab()));
                assert(crate::lex::step(crate::lex::State::Slash, s, 2) == Some(
                    (crate::lex::State::Character, 3int),
                ));
                assert(crate::lex::scan(start, s, 0) == (crate::lex::State::Character, 3int));
                assert(crate::lex::accepted(crate::lex::State::Character, s, 0, 3)
                    == TokenView::Character(c));
                lemma_single_token(s, crate::lex::State::Character, TokenView::Character(c));
            }
        },
        Immediate::Integer(n) => {
            crate::digits::lemma_parse_decimal_of(n);
            if n >= 0 {
                crate::digits::lemma_digits_of(n as nat);
                assert(s == crate::digits::digits_of(n as nat));
                assert(crate::digits::is_digit(s[0]));
                assert(crate::lex::step(start, s, 0) == Some((crate::lex::State::Integer, 1int)));
                lemma_scan_digits(s, 1);
                assert(crate::lex::scan(start, s, 0) == (
                    crate::lex::State::Integer,
                    s.len() as int,
                ));
            } else {
                crate::digits::lemma_digits_of((-(n as int)) as nat);
                assert(s =~= seq![crate::ascii::MINUS] + crate::digits::digits_of(
                    (-(n as int)) as nat,
                ));
                assert(s[0] == crate::ascii::MINUS);
                assert(crate::lex::step(start, s, 0) == Some((crate::lex::State::Sign, 1int)));
                assert(crate::digits::is_digit(s[1]));
                assert(crate::lex::step(crate::lex::State::Sign, s, 1) == Some(
                    (crate::lex::State::Integer, 2int),
                ));
                assert(forall|j: int| 2 <= j < s.len() ==> crate::digits::is_digit(#[trigger] s[j]));
                lemma_scan_digits(s, 2);
                assert(crate::lex::scan(start, s, 0) == (
                    crate::lex::State::Integer,
                    s.len() as int,
                ));
            }
            assert(s.subrange(0, s.len() as int) =~= s);
            assert(crate::lex::accepted(crate::lex::State::Integer, s, 0, s.len() as int)
                == TokenView::Integer(n));
            lemma_single_token(s, crate::lex::State::Integer, TokenView::Integer(n));
        },
    }
    let ts = crate::lex::tokens_from(s, 0).map(|i: int, t: (TokenView, int, int)| t.0);
    assert(ts =~= seq![
        match imm {
            Immediate::Null => TokenView::Null,
            Immediate::Boolean(b) => TokenView::Boolean(b),
            Immediate::Character(c) => TokenView::Character(c),
            Immediate::Integer(n) => TokenView::Integer(n),
        },
    ]);
    lemma_parse_immediate_token(ts, imm);
}

/// Read one expression starting at `pos`.
fn parse_expression(tokens: &[(Token, usize, usize)], pos: usize) -> (r: Result<
    (Expression, usize),
    ParseError,
>)
    requires
        pos <= tokens@.len(),
    ensures
        match r {
            Ok(p) => parsed_at(token_values(tokens@), pos as int) == Some((p.0, p.1 as int)) && pos
                < p.1 <= tokens@.len(),
            Err(_) => parsed_at(token_values(tokens@), pos as int) is None,
        },
    decreases tokens@.len() - pos,
{
    let ghost ts = token_values(tokens@);
    if pos >= tokens.len() {
        return Err(ParseError);
    }
    assert(ts[pos as int] == tokens@[pos as int].0@);
    match &tokens[pos].0 {
        Token::Null => Ok((Expression::Immediate(Immediate::Null), pos + 1)),
        Token::Boolean(b) => Ok((Expression::Immediate(Immediate::Boolean(*b)), pos + 1)),
        Token::Character(c) => Ok((Expression::Immediate(Immediate::Character(*c)), pos + 1)),
        Token::Integer(n) => Ok((Expression::Immediate(Immediate::Integer(*n)), pos + 1)),
        Token::LeftParenthesis => {
            if pos + 1 >= tokens.len() {
                return Err(ParseError);
            }
            assert(ts[pos + 1] == tokens@[pos + 1].0@);
            match &tokens[pos + 1].0 {
                Token::Symbol(name) => match UnaryPrimitive::from_symbol(name.as_slice()) {
                    Ok(p) => match parse_expression(tokens, pos + 2) {
                        Ok(inner) => {
                            let after = inner.1;
                            if after < tokens.len() && matches!(
                                &tokens[after].0,
                                Token::RightParenthesis,
                            ) {
                                assert(ts[after as int] == tokens@[after as int].0@);
                                Ok((Expression::Call(Call::new(p, inner.0)), after + 1))
                            } else {
                                if after < tokens.len() {
                                    assert(ts[after as int] == tokens@[after as int].0@);
                                }
                                Err(ParseError)
                            }
                        },
                        Err(e) => Err(e),
                    },
                    Err(_) => Err(ParseError),
                },
                _ => Err(ParseError),
            }
        },
        _ => Err(ParseError),
    }
}

/// Read exactly one expression covering the whole token sequence: what
/// `parsed` yields, or the first structural violation as a `ParseError`.
pub fn parse(tokens: &[(Token, usize, usize)]) -> (r: Result<Expression, ParseError>)
    ensures
        match parsed(token_values(tokens@)) {
            Some(e) => r matches Ok(f) && f == e,
            None => r is Err,
        },
{
    match parse_expression(tokens, 0) {
        Ok(p) => if p.1 == tokens.len() {
            Ok(p.0)
        } else {
            Err(ParseError)
        },
        Err(e) => Err(e),
    }
}

} // verus!
