//! The lexer: a deterministic finite-state scan over source bytes.
//!
//! `lex` turns source text into the finite token sequence `tokens_from`
//! describes: from each position it follows `step` transitions as long as one
//! applies (longest match), accepts the final state with `accepted`, drops
//! whitespace runs, and resynchronizes one byte past anything unrecognized,
//! so a single bad byte never aborts the scan. Named character escapes take
//! priority over the generic single-byte character literal, and an integer
//! lexeme that does not fit a signed 32-bit value is rejected as
//! `Unrecognized`, never truncated.

use vstd::prelude::*;

use crate::ascii::{
    escape_newline, escape_return, escape_space, escape_tab, is_graphic, is_whitespace, BACKSLASH, HASH, LEFT_PAREN, LOWER_A, LOWER_B, LOWER_C, LOWER_E,
    LOWER_F, LOWER_I, LOWER_L, LOWER_N, LOWER_P, LOWER_R, LOWER_S, LOWER_T, LOWER_U, LOWER_W,
    MINUS, PLUS, RIGHT_PAREN, SPACE, TAB, LINE_FEED, CARRIAGE_RETURN,
};
use crate::digits::{is_digit, spec_parse_decimal, parse_decimal};

verus! {

/// One token, with borrowed symbol text copied out of the source.
#[derive(Debug)]
pub enum Token {
    LeftParenthesis,
    RightParenthesis,
    Null,
    Boolean(bool),
    Character(u8),
    Integer(i32),
    Symbol(Vec<u8>),
    Unrecognized,
}

/// The mathematical value of a token: symbols as byte sequences.
pub enum TokenView {
    LeftParenthesis,
    RightParenthesis,
    Null,
    Boolean(bool),
    Character(u8),
    Integer(i32),
    Symbol(Seq<u8>),
    Unrecognized,
}

impl View for Token {
    type V = TokenView;

    open spec fn view(&self) -> TokenView {
        match self {
            Token::LeftParenthesis => TokenView::LeftParenthesis,
            Token::RightParenthesis => TokenView::RightParenthesis,
            Token::Null => TokenView::Null,
            Token::Boolean(b) => TokenView::Boolean(*b),
            Token::Character(c) => TokenView::Character(*c),
            Token::Integer(n) => TokenView::Integer(*n),
            Token::Symbol(s) => TokenView::Symbol(s@),
            Token::Unrecognized => TokenView::Unrecognized,
        }
    }
}

/// Whether two tokens hold the same value.
pub fn token_eq(a: &Token, b: &Token) -> (r: bool)
    ensures
        r == (a@ == b@),
{
    match (a, b) {
        (Token::LeftParenthesis, Token::LeftParenthesis) => true,
        (Token::RightParenthesis, Token::RightParenthesis) => true,
        (Token::Null, Token::Null) => true,
        (Token::Boolean(x), Token::Boolean(y)) => x == y,
        (Token::Character(x), Token::Character(y)) => x == y,
        (Token::Integer(x), Token::Integer(y)) => x == y,
        (Token::Symbol(x), Token::Symbol(y)) => crate::expression::bytes_eq(
            x.as_slice(),
            y.as_slice(),
        ),
        (Token::Unrecognized, Token::Unrecognized) => true,
        _ => false,
    }
}

impl PartialEq for Token {
    fn eq(&self, other: &Self) -> bool {
        token_eq(self, other)
    }
}

impl vstd::std_specs::cmp::PartialEqSpecImpl for Token {
    open spec fn obeys_eq_spec() -> bool {
        true
    }

    open spec fn eq_spec(&self, other: &Token) -> bool {
        self@ == other@
    }
}

/// The states of the scan: each corresponds to a partially recognized lexeme.
#[derive(Clone, Copy, Debug, PartialEq, Eq, Structural)]
pub enum State {
    Start,
    RightParenthesis,
    LeftParenthesis,
    Null,
    Hash,
    Slash,
    Newline,
    Return,
    Space,
    Tab,
    Character,
    False,
    True,
    Sign,
    Integer,
    Symbol,
    Whitespace,
}

/// The bytes a symbol lexeme is made of: letters, digits, and a fixed
/// punctuation set.
pub open spec fn is_symbol_byte(b: u8) -> bool {
    ||| b == 33
    ||| 35 <= b <= 38
    ||| b == 42
    ||| b == 43
    ||| 45 <= b <= 58
    ||| 60 <= b <= 90
    ||| b == 94
    ||| b == 95
    ||| 97 <= b <= 122
    ||| b == 124
    ||| b == 126
}

/// Whether the word `w` occurs in `s` at position `i`.
pub open spec fn word_at(s: Seq<u8>, i: int, w: Seq<u8>) -> bool {
    i + w.len() <= s.len() && s.subrange(i, i + w.len()) == w
}

/// One transition of the scan: the next state and the position after the
/// consumed bytes, or nothing when no lexeme can grow.
pub open spec fn step(state: State, s: Seq<u8>, i: int) -> Option<(State, int)> {
    match state {
        State::Start => if i < s.len() {
            let b = s[i];
            if b == LEFT_PAREN {
                Some((State::LeftParenthesis, i + 1))
            } else if b == RIGHT_PAREN {
                Some((State::RightParenthesis, i + 1))
            } else if b == HASH {
                Some((State::Hash, i + 1))
            } else if b == PLUS || b == MINUS {
                Some((State::Sign, i + 1))
            } else if is_digit(b) {
                Some((State::Integer, i + 1))
            } else if is_symbol_byte(b) {
                Some((State::Symbol, i + 1))
            } else if is_whitespace(b) {
                Some((State::Whitespace, i + 1))
            } else {
                None
            }
        } else {
            None
        },
        State::LeftParenthesis => if i < s.len() && s[i] == RIGHT_PAREN {
            Some((State::Null, i + 1))
        } else {
            None
        },
        State::Hash => if i < s.len() {
            let b = s[i];
            if b == BACKSLASH {
                Some((State::Slash, i + 1))
            } else if b == LOWER_F {
                Some((State::False, i + 1))
            } else if b == LOWER_T {
                Some((State::True, i + 1))
            } else {
                None
            }
        } else {
            None
        },
        State::Slash => if word_at(s, i, escape_newline()) {
            Some((State::Newline, i + 7))
        } else if word_at(s, i, escape_return()) {
            Some((State::Return, i + 6))
        } else if word_at(s, i, escape_space()) {
            Some((State::Space, i + 5))
        } else if word_at(s, i, escape_tab()) {
            Some((State::Tab, i + 3))
        } else if i < s.len() && is_graphic(s[i]) {
            Some((State::Character, i + 1))
        } else {
            None
        },
        State::Sign => if i < s.len() && is_digit(s[i]) {
            Some((State::Integer, i + 1))
        } else if i < s.len() && is_symbol_byte(s[i]) {
            Some((State::Symbol, i + 1))
        } else {
            None
        },
        State::Integer => if i < s.len() && is_digit(s[i]) {
            Some((State::Integer, i + 1))
        } else {
            None
        },
        State::Symbol => if i < s.len() && is_symbol_byte(s[i]) {
            Some((State::Symbol, i + 1))
        } else {
            None
        },
        State::Whitespace => if i < s.len() && is_whitespace(s[i]) {
            Some((State::Whitespace, i + 1))
        } else {
            None
        },
        _ => None,
    }
}

/// Follow transitions from `state` at `i` until none applies: the longest
/// match, as the final state and the position after the lexeme.
pub open spec fn scan(state: State, s: Seq<u8>, i: int) -> (State, int)
    decreases s.len() - i,
    when 0 <= i <= s.len()
{
    match step(state, s, i) {
        Some(next) => scan(next.0, s, next.1),
        None => (state, i),
    }
}

/// The scan can only move forward, never past the end, and stops in a state
/// with no outgoing transition; a changed state means progress was made.
pub proof fn lemma_scan(state: State, s: Seq<u8>, i: int)
    requires
        0 <= i <= s.len(),
    ensures
        ({
            let (stop_state, stop) = scan(state, s, i);
            &&& i <= stop <= s.len()
            &&& (stop_state != state ==> stop > i)
            &&& step(stop_state, s, stop) is None
        }),
    decreases s.len() - i,
{
    match step(state, s, i) {
        Some(next) => {
            lemma_scan(next.0, s, next.1);
        },
        None => {},
    }
}

/// The token the final state of a lexeme yields. A state that recognizes no
/// complete lexeme, or an integer lexeme whose value does not fit, yields
/// `Unrecognized`.
pub open spec fn accepted(state: State, s: Seq<u8>, start: int, stop: int) -> TokenView {
    match state {
        State::LeftParenthesis => TokenView::LeftParenthesis,
        State::RightParenthesis => TokenView::RightParenthesis,
        State::Null => TokenView::Null,
        State::False => TokenView::Boolean(false),
        State::True => TokenView::Boolean(true),
        State::Newline => TokenView::Character(LINE_FEED),
        State::Return => TokenView::Character(CARRIAGE_RETURN),
        State::Space => TokenView::Character(SPACE),
        State::Tab => TokenView::Character(TAB),
        State::Character => TokenView::Character(s[stop - 1]),
        State::Integer => match spec_parse_decimal(s.subrange(start, stop)) {
            Some(n) => TokenView::Integer(n),
            None => TokenView::Unrecognized,
        },
        State::Sign => TokenView::Symbol(s.subrange(start, stop)),
        State::Symbol => TokenView::Symbol(s.subrange(start, stop)),
        _ => TokenView::Unrecognized,
    }
}

/// The token sequence of the source from `pos` on, with each token's
/// half-open byte range: whitespace runs are dropped, and an unrecognized
/// lexeme is skipped one byte past its scanned end.
pub open spec fn tokens_from(s: Seq<u8>, pos: int) -> Seq<(TokenView, int, int)>
    decreases s.len() + 1 - pos,
    when 0 <= pos <= s.len() + 1
{
    if pos >= s.len() {
        Seq::empty()
    } else {
        proof {
            lemma_scan(State::Start, s, pos);
        }
        let (state, stop) = scan(State::Start, s, pos);
        if state == State::Whitespace {
            tokens_from(s, stop)
        } else {
            let t = accepted(state, s, pos, stop);
            let resume = if t is Unrecognized {
                stop + 1
            } else {
                stop
            };
            seq![(t, pos, resume)] + tokens_from(s, resume)
        }
    }
}

/// The token ranges are ordered and disjoint: every token covers a
/// non-empty range at or after `pos`, and each token's range ends no later
/// than the next one begins, so the lexemes partition the consumed input in
/// source order.
pub proof fn lemma_token_ranges(s: Seq<u8>, pos: int)
    requires
        0 <= pos <= s.len() + 1,
    ensures
        forall|k: int|
            0 <= k < tokens_from(s, pos).len() ==> pos <= #[trigger] tokens_from(s, pos)[k].1
                < tokens_from(s, pos)[k].2,
        forall|k: int|
            0 <= k < tokens_from(s, pos).len() - 1 ==> #[trigger] tokens_from(s, pos)[k].2
                <= tokens_from(s, pos)[k + 1].1,
    decreases s.len() + 1 - pos,
{
    if pos >= s.len() {
    } else {
        lemma_scan(State::Start, s, pos);
        let (state, stop) = scan(State::Start, s, pos);
        if state == State::Whitespace {
            lemma_token_ranges(s, stop);
            let ts = tokens_from(s, pos);
            assert(ts == tokens_from(s, stop));
            assert forall|k: int| 0 <= k < ts.len() implies pos <= #[trigger] ts[k].1
                < ts[k].2 by {
                assert(ts[k] == tokens_from(s, stop)[k]);
            }
            assert forall|k: int| 0 <= k < ts.len() - 1 implies #[trigger] ts[k].2 <= ts[k
                + 1].1 by {
                assert(ts[k] == tokens_from(s, stop)[k]);
                assert(ts[k + 1] == tokens_from(s, stop)[k + 1]);
            }
        } else {
            let t = accepted(state, s, pos, stop);
            let resume = if t is Unrecognized {
                stop + 1
            } else {
                stop
            };
            assert(pos < resume);
            lemma_token_ranges(s, resume);
            let ts = tokens_from(s, pos);
            let rest = tokens_from(s, resume);
            assert(ts =~= seq![(t, pos, resume)] + rest);
            assert forall|k: int| 0 <= k < ts.len() implies pos <= #[trigger] ts[k].1
                < ts[k].2 by {
                if k > 0 {
                    assert(ts[k] == rest[k - 1]);
                }
            }
            assert forall|k: int| 0 <= k < ts.len() - 1 implies #[trigger] ts[k].2 <= ts[k
                + 1].1 by {
                if k > 0 {
                    assert(ts[k] == rest[k - 1]);
                    assert(ts[k + 1] == rest[k]);
                } else {
                    assert(ts[1] == rest[0]);
                }
            }
        }
    }
}

/// The values and ranges of an executable token vector.
pub open spec fn views_of(tokens: Seq<(Token, usize, usize)>) -> Seq<(TokenView, int, int)> {
    tokens.map(|i: int, t: (Token, usize, usize)| (t.0@, t.1 as int, t.2 as int))
}

/// Whether this byte may occur in a symbol lexeme.
fn is_symbol(byte: u8) -> (r: bool)
    ensures
        r == is_symbol_byte(byte),
{
    byte == 33 || (35 <= byte && byte <= 38) || byte == 42 || byte == 43 || (45 <= byte && byte
        <= 58) || (60 <= byte && byte <= 90) || byte == 94 || byte == 95 || (97 <= byte && byte
        <= 122) || byte == 124 || byte == 126
}

/// Whether the word `w` occurs in `s` at position `i`.
fn word_at_position(s: &[u8], i: usize, w: &[u8]) -> (r: bool)
    requires
        i <= s@.len(),
        s@.len() < usize::MAX,
    ensures
        r == word_at(s@, i as int, w@),
{
    if s.len() - i < w.len() {
        return false;
    }
    let mut k: usize = 0;
    while k < w.len()
        invariant
            0 <= k <= w@.len(),
            i + w@.len() <= s@.len(),
            s@.len() < usize::MAX,
            forall|j: int| 0 <= j < k ==> s@[i + j] == w@[j],
        decreases w@.len() - k,
    {
        if s[i + k] != w[k] {
            proof {
                assert(s@.subrange(i as int, i + w@.len())[k as int] == s@[i + k]);
            }
            return false;
        }
        k += 1;
    }
    proof {
        assert(s@.subrange(i as int, i + w@.len()) =~= w@);
    }
    true
}

fn newline_word() -> (r: Vec<u8>)
    ensures
        r@ == escape_newline(),
{
    let r = vec![LOWER_N, LOWER_E, LOWER_W, LOWER_L, LOWER_I, LOWER_N, LOWER_E];
    proof {
        assert(r@ =~= escape_newline());
    }
    r
}

fn return_word() -> (r: Vec<u8>)
    ensures
        r@ == escape_return(),
{
    let r = vec![LOWER_R, LOWER_E, LOWER_T, LOWER_U, LOWER_R, LOWER_N];
    proof {
        assert(r@ =~= escape_return());
    }
    r
}

fn space_word() -> (r: Vec<u8>)
    ensures
        r@ == escape_space(),
{
    let r = vec![LOWER_S, LOWER_P, LOWER_A, LOWER_C, LOWER_E];
    proof {
        assert(r@ =~= escape_space());
    }
    r
}

fn tab_word() -> (r: Vec<u8>)
    ensures
        r@ == escape_tab(),
{
    let r = vec![LOWER_T, LOWER_A, LOWER_B];
    proof {
        assert(r@ =~= escape_tab());
    }
    r
}

/// One transition of the scan at position `i`.
fn transition(s: &[u8], state: State, i: usize) -> (r: Option<(State, usize)>)
    requires
        i <= s@.len(),
        s@.len() < usize::MAX,
    ensures
        match r {
            Some(p) => step(state, s@, i as int) == Some((p.0, p.1 as int)) && i < p.1 <= s@.len(),
            None => step(state, s@, i as int) is None,
        },
{
    match state {
        State::Start => if i < s.len() {
            let b = s[i];
            if b == LEFT_PAREN {
                Some((State::LeftParenthesis, i + 1))
            } else if b == RIGHT_PAREN {
                Some((State::RightParenthesis, i + 1))
            } else if b == HASH {
                Some((State::Hash, i + 1))
            } else if b == PLUS || b == MINUS {
                Some((State::Sign, i + 1))
            } else if 48 <= b && b <= 57 {
                Some((State::Integer, i + 1))
            } else if is_symbol(b) {
                Some((State::Symbol, i + 1))
            } else if b == SPACE || b == TAB || b == LINE_FEED || b == 12 || b == CARRIAGE_RETURN {
                Some((State::Whitespace, i + 1))
            } else {
                None
            }
        } else {
            None
        },
        State::LeftParenthesis => if i < s.len() && s[i] == RIGHT_PAREN {
            Some((State::Null, i + 1))
        } else {
            None
        },
        State::Hash => if i < s.len() {
            let b = s[i];
            if b == BACKSLASH {
                Some((State::Slash, i + 1))
            } else if b == LOWER_F {
                Some((State::False, i + 1))
            } else if b == LOWER_T {
                Some((State::True, i + 1))
            } else {
                None
            }
        } else {
            None
        },
        State::Slash => if word_at_position(s, i, newline_word().as_slice()) {
            Some((State::Newline, i + 7))
        } else if word_at_position(s, i, return_word().as_slice()) {
            Some((State::Return, i + 6))
        } else if word_at_position(s, i, space_word().as_slice()) {
            Some((State::Space, i + 5))
        } else if word_at_position(s, i, tab_word().as_slice()) {
            Some((State::Tab, i + 3))
        } else if i < s.len() && 33 <= s[i] && s[i] <= 126 {
            Some((State::Character, i + 1))
        } else {
            None
        },
        State::Sign => if i < s.len() && 48 <= s[i] && s[i] <= 57 {
            Some((State::Integer, i + 1))
        } else if i < s.len() && is_symbol(s[i]) {
            Some((State::Symbol, i + 1))
        } else {
            None
        },
        State::Integer => if i < s.len() && 48 <= s[i] && s[i] <= 57 {
            Some((State::Integer, i + 1))
        } else {
            None
        },
        State::Symbol => if i < s.len() && is_symbol(s[i]) {
            Some((State::Symbol, i + 1))
        } else {
            None
        },
        State::Whitespace => if i < s.len() {
            let b = s[i];
            if b == SPACE || b == TAB || b == LINE_FEED || b == 12 || b == CARRIAGE_RETURN {
                Some((State::Whitespace, i + 1))
            } else {
                None
            }
        } else {
            None
        },
        _ => None,
    }
}

/// The token of a finished lexeme.
fn accept(s: &[u8], state: State, start: usize, stop: usize) -> (t: Token)
    requires
        start <= stop <= s@.len(),
        state == State::Character ==> start < stop,
    ensures
        t@ == accepted(state, s@, start as int, stop as int),
{
    match state {
        State::LeftParenthesis => Token::LeftParenthesis,
        State::RightParenthesis => Token::RightParenthesis,
        State::Null => Token::Null,
        State::False => Token::Boolean(false),
        State::True => Token::Boolean(true),
        State::Newline => Token::Character(LINE_FEED),
        State::Return => Token::Character(CARRIAGE_RETURN),
        State::Space => Token::Character(SPACE),
        State::Tab => Token::Character(TAB),
        State::Character => Token::Character(s[stop - 1]),
        State::Integer => match parse_decimal(&s[start..stop]) {
            Some(n) => Token::Integer(n),
            None => Token::Unrecognized,
        },
        State::Sign => Token::Symbol(vstd::slice::slice_to_vec(&s[start..stop])),
        State::Symbol => Token::Symbol(vstd::slice::slice_to_vec(&s[start..stop])),
        _ => Token::Unrecognized,
    }
}

/// Tokenize the whole source: the token sequence `tokens_from` describes,
/// eagerly, with each token's byte range.
pub fn lex(source: &[u8]) -> (tokens: Vec<(Token, usize, usize)>)
    requires
        source@.len() < usize::MAX,
    ensures
        views_of(tokens@) == tokens_from(source@, 0),
{
    let mut tokens: Vec<(Token, usize, usize)> = Vec::new();
    let mut pos: usize = 0;
    proof {
        assert(views_of(tokens@) =~= Seq::<(TokenView, int, int)>::empty());
    }
    while pos < source.len()
        invariant
            pos <= source@.len() + 1,
            source@.len() < usize::MAX,
            views_of(tokens@) + tokens_from(source@, pos as int) == tokens_from(source@, 0),
        decreases source@.len() + 1 - pos,
    {
        let ghost entry_pos = pos as int;
        let mut state = State::Start;
        let mut stop: usize = pos;
        loop
            invariant_except_break
                pos <= stop <= source@.len(),
                source@.len() < usize::MAX,
                scan(state, source@, stop as int) == scan(State::Start, source@, pos as int),
            ensures
                pos <= stop <= source@.len(),
                (state, stop as int) == scan(State::Start, source@, pos as int),
            decreases source@.len() - stop,
        {
            match transition(source, state, stop) {
                Some(p) => {
                    state = p.0;
                    stop = p.1;
                },
                None => {
                    break ;
                },
            }
        }
        proof {
            lemma_scan(State::Start, source@, pos as int);
        }
        if state == State::Whitespace {
            pos = stop;
        } else {
            let token = accept(source, state, pos, stop);
            let resume = if matches!(token, Token::Unrecognized) {
                stop + 1
            } else {
                stop
            };
            proof {
                let tv = accepted(state, source@, entry_pos, stop as int);
                assert(tokens_from(source@, entry_pos) =~= seq![(tv, entry_pos, resume as int)]
                    + tokens_from(source@, resume as int));
                assert(views_of(tokens@.push((token, pos, resume))) =~= views_of(tokens@).push(
                    (tv, entry_pos, resume as int),
                ));
                assert((views_of(tokens@) + seq![(tv, entry_pos, resume as int)]) + tokens_from(
                    source@,
                    resume as int,
                ) =~= views_of(tokens@) + (seq![(tv, entry_pos, resume as int)] + tokens_from(
                    source@,
                    resume as int,
                )));
                assert(views_of(tokens@).push((tv, entry_pos, resume as int)) =~= views_of(tokens@)
                    + seq![(tv, entry_pos, resume as int)]);
            }
            tokens.push((token, pos, resume));
            pos = resume;
        }
    }
    proof {
        assert(views_of(tokens@) + tokens_from(source@, pos as int) =~= views_of(tokens@));
    }
    tokens
}

} // verus!
