//! The code generator and the compile entry points.
//!
//! `compile` lowers one expression to the assembly text `assembly` describes:
//! one globally visible entry routine that leaves the expression's tagged
//! word in the accumulator and returns. The body is emitted by a post-order
//! walk — operand before operator — so every operation finds its operand's
//! word already in the accumulator, and no other register is needed. Every
//! predicate shares one comparison epilogue that turns the equality flag
//! into a tagged boolean. Code generation itself cannot fail; `run` maps a
//! parse failure into the single `CompilationError` it returns, and
//! `execute` runs the compiled program's semantics instead, returning what
//! the runtime would print.

use vstd::prelude::*;

use crate::ascii::{
    COLON, COMMA, DOLLAR, DOT, LINE_FEED, LOWER_A, LOWER_B, LOWER_C, LOWER_D, LOWER_E, LOWER_G,
    LOWER_H, LOWER_L, LOWER_M, LOWER_N, LOWER_O, LOWER_P, LOWER_R, LOWER_S, LOWER_T, LOWER_U,
    LOWER_V, LOWER_X, LOWER_Y, LOWER_Z, PERCENT, SPACE, TAB, UNDERSCORE,
};
use crate::digits::{decimal_of, push_decimal};
use crate::expression::{Expression, UnaryPrimitive};
use crate::lex::{lex, tokens_from, Token, TokenView};
use crate::parse::{parse, source_expression, ParseError};
use crate::semantics::{evaluate, print_word, printed_word, word_of};

verus! {

/// The failure of a compile invocation: the stage that rejected the source.
#[derive(Debug)]
pub enum CompilationError {
    LexicalError,
    ParseError,
    Other,
}

impl From<ParseError> for CompilationError {
    fn from(value: ParseError) -> Self {
        CompilationError::ParseError
    }
}

impl vstd::std_specs::convert::FromSpecImpl<ParseError> for CompilationError {
    open spec fn obeys_from_spec() -> bool {
        true
    }

    open spec fn from_spec(value: ParseError) -> Self {
        CompilationError::ParseError
    }
}

/// `.globl _scheme_entry` and the entry label.
pub open spec fn asm_prologue() -> Seq<u8> {
    seq![DOT, LOWER_G, LOWER_L, LOWER_O, LOWER_B, LOWER_L, SPACE, UNDERSCORE, LOWER_S, LOWER_C,
        LOWER_H, LOWER_E, LOWER_M, LOWER_E, UNDERSCORE, LOWER_E, LOWER_N, LOWER_T, LOWER_R,
        LOWER_Y, LINE_FEED, UNDERSCORE, LOWER_S, LOWER_C, LOWER_H, LOWER_E, LOWER_M, LOWER_E,
        UNDERSCORE, LOWER_E, LOWER_N, LOWER_T, LOWER_R, LOWER_Y, COLON, LINE_FEED]
}

/// `ret`.
pub open spec fn asm_epilogue() -> Seq<u8> {
    seq![TAB, LOWER_R, LOWER_E, LOWER_T, LINE_FEED]
}

/// `movl $` before an immediate's word.
pub open spec fn asm_load_prefix() -> Seq<u8> {
    seq![TAB, LOWER_M, LOWER_O, LOWER_V, LOWER_L, SPACE, DOLLAR]
}

/// `, %eax` after an immediate's word.
pub open spec fn asm_load_suffix() -> Seq<u8> {
    seq![COMMA, SPACE, PERCENT, LOWER_E, LOWER_A, LOWER_X, LINE_FEED]
}

/// Load an immediate's tagged word into the accumulator, the word written
/// as a signed 32-bit decimal.
pub open spec fn asm_load(w: u32) -> Seq<u8> {
    asm_load_prefix() + decimal_of((w as i32) as int) + asm_load_suffix()
}

/// `addl $4, %eax`: add the tagged representation of integer one.
pub open spec fn asm_add1() -> Seq<u8> {
    seq![TAB, LOWER_A, LOWER_D, LOWER_D, LOWER_L, SPACE, DOLLAR, 52, COMMA, SPACE, PERCENT,
        LOWER_E, LOWER_A, LOWER_X, LINE_FEED]
}

/// `subl $4, %eax`: subtract the tagged representation of integer one.
pub open spec fn asm_sub1() -> Seq<u8> {
    seq![TAB, LOWER_S, LOWER_U, LOWER_B, LOWER_L, SPACE, DOLLAR, 52, COMMA, SPACE, PERCENT,
        LOWER_E, LOWER_A, LOWER_X, LINE_FEED]
}

/// Untag, complement, retag: `shr $2` / `not` / `shl $2`.
pub open spec fn asm_lognot() -> Seq<u8> {
    seq![TAB, LOWER_S, LOWER_H, LOWER_R, SPACE, DOLLAR, 50, COMMA, SPACE, PERCENT, LOWER_E,
        LOWER_A, LOWER_X, LINE_FEED, TAB, LOWER_N, LOWER_O, LOWER_T, SPACE, PERCENT, LOWER_E,
        LOWER_A, LOWER_X, LINE_FEED, TAB, LOWER_S, LOWER_H, LOWER_L, SPACE, DOLLAR, 50, COMMA,
        SPACE, PERCENT, LOWER_E, LOWER_A, LOWER_X, LINE_FEED]
}

/// Shift up to the character position and set the character tag:
/// `shll $6` / `orl $15`.
pub open spec fn asm_fixnum_to_char() -> Seq<u8> {
    seq![TAB, LOWER_S, LOWER_H, LOWER_L, LOWER_L, SPACE, DOLLAR, 54, COMMA, SPACE, PERCENT,
        LOWER_E, LOWER_A, LOWER_X, LINE_FEED, TAB, LOWER_O, LOWER_R, LOWER_L, SPACE, DOLLAR, 49,
        53, COMMA, SPACE, PERCENT, LOWER_E, LOWER_A, LOWER_X, LINE_FEED]
}

/// Shift down to the integer position: `shrl $6`.
pub open spec fn asm_char_to_fixnum() -> Seq<u8> {
    seq![TAB, LOWER_S, LOWER_H, LOWER_R, LOWER_L, SPACE, DOLLAR, 54, COMMA, SPACE, PERCENT,
        LOWER_E, LOWER_A, LOWER_X, LINE_FEED]
}

/// `cmp $0, %rax`: the zero test.
pub open spec fn asm_zero_test() -> Seq<u8> {
    seq![TAB, LOWER_C, LOWER_M, LOWER_P, SPACE, DOLLAR, 48, COMMA, SPACE, PERCENT, LOWER_R,
        LOWER_A, LOWER_X, LINE_FEED]
}

/// `cmp $63, %al`: the empty-list test on the low byte.
pub open spec fn asm_null_test() -> Seq<u8> {
    seq![TAB, LOWER_C, LOWER_M, LOWER_P, SPACE, DOLLAR, 54, 51, COMMA, SPACE, PERCENT, LOWER_A,
        LOWER_L, LINE_FEED]
}

/// `cmp $47, %al`: the boolean-false test on the low byte.
pub open spec fn asm_false_test() -> Seq<u8> {
    seq![TAB, LOWER_C, LOWER_M, LOWER_P, SPACE, DOLLAR, 52, 55, COMMA, SPACE, PERCENT, LOWER_A,
        LOWER_L, LINE_FEED]
}

/// `and $3, %al` / `cmp $0, %al`: the integer-tag test.
pub open spec fn asm_fixnum_test() -> Seq<u8> {
    seq![TAB, LOWER_A, LOWER_N, LOWER_D, SPACE, DOLLAR, 51, COMMA, SPACE, PERCENT, LOWER_A,
        LOWER_L, LINE_FEED, TAB, LOWER_C, LOWER_M, LOWER_P, SPACE, DOLLAR, 48, COMMA, SPACE,
        PERCENT, LOWER_A, LOWER_L, LINE_FEED]
}

/// `and $191, %al` / `cmp $47, %al`: the boolean-tag test.
pub open spec fn asm_boolean_test() -> Seq<u8> {
    seq![TAB, LOWER_A, LOWER_N, LOWER_D, SPACE, DOLLAR, 49, 57, 49, COMMA, SPACE, PERCENT,
        LOWER_A, LOWER_L, LINE_FEED, TAB, LOWER_C, LOWER_M, LOWER_P, SPACE, DOLLAR, 52, 55, COMMA,
        SPACE, PERCENT, LOWER_A, LOWER_L, LINE_FEED]
}

/// `and $63, %al` / `cmp $15, %al`: the character-tag test.
pub open spec fn asm_character_test() -> Seq<u8> {
    seq![TAB, LOWER_A, LOWER_N, LOWER_D, SPACE, DOLLAR, 54, 51, COMMA, SPACE, PERCENT, LOWER_A,
        LOWER_L, LINE_FEED, TAB, LOWER_C, LOWER_M, LOWER_P, SPACE, DOLLAR, 49, 53, COMMA, SPACE,
        PERCENT, LOWER_A, LOWER_L, LINE_FEED]
}

/// The shared comparison epilogue: equality flag to 0/1, zero-extend, shift
/// into the boolean data bit, set the boolean base pattern.
pub open spec fn asm_comparison() -> Seq<u8> {
    seq![TAB, LOWER_S, LOWER_E, LOWER_T, LOWER_E, SPACE, PERCENT, LOWER_A, LOWER_L, LINE_FEED,
        TAB, LOWER_M, LOWER_O, LOWER_V, LOWER_Z, LOWER_B, LOWER_L, SPACE, PERCENT, LOWER_A,
        LOWER_L, COMMA, SPACE, PERCENT, LOWER_E, LOWER_A, LOWER_X, LINE_FEED, TAB, LOWER_S,
        LOWER_A, LOWER_L, SPACE, DOLLAR, 54, COMMA, SPACE, PERCENT, LOWER_A, LOWER_L, LINE_FEED,
        TAB, LOWER_O, LOWER_R, SPACE, DOLLAR, 52, 55, COMMA, SPACE, PERCENT, LOWER_A, LOWER_L,
        LINE_FEED]
}

/// The instructions of one primitive, applied to the accumulator.
pub open spec fn asm_primitive(p: UnaryPrimitive) -> Seq<u8> {
    match p {
        UnaryPrimitive::FxAdd1 => asm_add1(),
        UnaryPrimitive::FxSub1 => asm_sub1(),
        UnaryPrimitive::FxLogNot => asm_lognot(),
        UnaryPrimitive::FixnumToChar => asm_fixnum_to_char(),
        UnaryPrimitive::CharToFixnum => asm_char_to_fixnum(),
        UnaryPrimitive::FixnumIsZero => asm_zero_test() + asm_comparison(),
        UnaryPrimitive::IsNull => asm_null_test() + asm_comparison(),
        UnaryPrimitive::Not => asm_false_test() + asm_comparison(),
        UnaryPrimitive::IsFixnum => asm_fixnum_test() + asm_comparison(),
        UnaryPrimitive::IsBoolean => asm_boolean_test() + asm_comparison(),
        UnaryPrimitive::IsCharacter => asm_character_test() + asm_comparison(),
    }
}

/// The straight-line body of an expression: a post-order walk, operand
/// before operator.
pub open spec fn asm_body(e: Expression) -> Seq<u8>
    decreases e,
{
    match e {
        Expression::Immediate(imm) => asm_load(imm.word()),
        Expression::Call(c) => asm_body(*c.expression) + asm_primitive(c.primitive),
    }
}

/// The whole routine: prologue, body, and the plain return.
pub open spec fn assembly(e: Expression) -> Seq<u8> {
    asm_prologue() + asm_body(e) + asm_epilogue()
}

/// Append the shared comparison epilogue.
fn emit_comparison(output: &mut Vec<u8>)
    ensures
        final(output)@ == old(output)@ + asm_comparison(),
{
    let mut t = vec![TAB, LOWER_S, LOWER_E, LOWER_T, LOWER_E, SPACE, PERCENT, LOWER_A, LOWER_L,
        LINE_FEED, TAB, LOWER_M, LOWER_O, LOWER_V, LOWER_Z, LOWER_B, LOWER_L, SPACE, PERCENT,
        LOWER_A, LOWER_L, COMMA, SPACE, PERCENT, LOWER_E, LOWER_A, LOWER_X, LINE_FEED, TAB,
        LOWER_S, LOWER_A, LOWER_L, SPACE, DOLLAR, 54, COMMA, SPACE, PERCENT, LOWER_A, LOWER_L,
        LINE_FEED, TAB, LOWER_O, LOWER_R, SPACE, DOLLAR, 52, 55, COMMA, SPACE, PERCENT, LOWER_A,
        LOWER_L, LINE_FEED];
    proof {
        assert(t@ =~= asm_comparison());
    }
    output.append(&mut t);
}

/// Append the instructions of one expression: the operand first, then its
/// operator's instructions.
fn emit_expression(output: &mut Vec<u8>, expression: &Expression)
    ensures
        final(output)@ == old(output)@ + asm_body(*expression),
    decreases *expression,
{
    match expression {
        Expression::Immediate(imm) => {
            let mut t = vec![TAB, LOWER_M, LOWER_O, LOWER_V, LOWER_L, SPACE, DOLLAR];
            proof {
                assert(t@ =~= asm_load_prefix());
            }
            output.append(&mut t);
            let w = imm.to_word();
            push_decimal(output, #[verifier::truncate] (w as i32));
            let mut t2 = vec![COMMA, SPACE, PERCENT, LOWER_E, LOWER_A, LOWER_X, LINE_FEED];
            proof {
                assert(t2@ =~= asm_load_suffix());
            }
            output.append(&mut t2);
            proof {
                assert(output@ =~= old(output)@ + asm_body(*expression));
            }
        },
        Expression::Call(c) => {
            emit_expression(output, &*c.expression);
            match c.primitive {
                UnaryPrimitive::FxAdd1 => {
                    let mut t = vec![TAB, LOWER_A, LOWER_D, LOWER_D, LOWER_L, SPACE, DOLLAR, 52,
                        COMMA, SPACE, PERCENT, LOWER_E, LOWER_A, LOWER_X, LINE_FEED];
                    proof {
                        assert(t@ =~= asm_add1());
                    }
                    output.append(&mut t);
                },
                UnaryPrimitive::FxSub1 => {
                    let mut t = vec![TAB, LOWER_S, LOWER_U, LOWER_B, LOWER_L, SPACE, DOLLAR, 52,
                        COMMA, SPACE, PERCENT, LOWER_E, LOWER_A, LOWER_X, LINE_FEED];
                    proof {
                        assert(t@ =~= asm_sub1());
                    }
                    output.append(&mut t);
                },
                UnaryPrimitive::FxLogNot => {
                    let mut t = vec![TAB, LOWER_S, LOWER_H, LOWER_R, SPACE, DOLLAR, 50, COMMA,
                        SPACE, PERCENT, LOWER_E, LOWER_A, LOWER_X, LINE_FEED, TAB, LOWER_N,
                        LOWER_O, LOWER_T, SPACE, PERCENT, LOWER_E, LOWER_A, LOWER_X, LINE_FEED,
                        TAB, LOWER_S, LOWER_H, LOWER_L, SPACE, DOLLAR, 50, COMMA, SPACE, PERCENT,
                        LOWER_E, LOWER_A, LOWER_X, LINE_FEED];
                    proof {
                        assert(t@ =~= asm_lognot());
                    }
                    output.append(&mut t);
                },
                UnaryPrimitive::FixnumToChar => {
                    let mut t = vec![TAB, LOWER_S, LOWER_H, LOWER_L, LOWER_L, SPACE, DOLLAR, 54,
                        COMMA, SPACE, PERCENT, LOWER_E, LOWER_A, LOWER_X, LINE_FEED, TAB, LOWER_O,
                        LOWER_R, LOWER_L, SPACE, DOLLAR, 49, 53, COMMA, SPACE, PERCENT, LOWER_E,
                        LOWER_A, LOWER_X, LINE_FEED];
                    proof {
                        assert(t@ =~= asm_fixnum_to_char());
                    }
                    output.append(&mut t);
                },
                UnaryPrimitive::CharToFixnum => {
                    let mut t = vec![TAB, LOWER_S, LOWER_H, LOWER_R, LOWER_L, SPACE, DOLLAR, 54,
                        COMMA, SPACE, PERCENT, LOWER_E, LOWER_A, LOWER_X, LINE_FEED];
                    proof {
                        assert(t@ =~= asm_char_to_fixnum());
                    }
                    output.append(&mut t);
                },
                UnaryPrimitive::FixnumIsZero => {
                    let mut t = vec![TAB, LOWER_C, LOWER_M, LOWER_P, SPACE, DOLLAR, 48, COMMA,
                        SPACE, PERCENT, LOWER_R, LOWER_A, LOWER_X, LINE_FEED];
                    proof {
                        assert(t@ =~= asm_zero_test());
                    }
                    output.append(&mut t);
                    emit_comparison(output);
                },
                UnaryPrimitive::IsNull => {
                    let mut t = vec![TAB, LOWER_C, LOWER_M, LOWER_P, SPACE, DOLLAR, 54, 51, COMMA,
                        SPACE, PERCENT, LOWER_A, LOWER_L, LINE_FEED];
                    proof {
                        assert(t@ =~= asm_null_test());
                    }
                    output.append(&mut t);
                    emit_comparison(output);
                },
                UnaryPrimitive::Not => {
                    let mut t = vec![TAB, LOWER_C, LOWER_M, LOWER_P, SPACE, DOLLAR, 52, 55, COMMA,
                        SPACE, PERCENT, LOWER_A, LOWER_L, LINE_FEED];
                    proof {
                        assert(t@ =~= asm_false_test());
                    }
                    output.append(&mut t);
                    emit_comparison(output);
                },
                UnaryPrimitive::IsFixnum => {
                    let mut t = vec![TAB, LOWER_A, LOWER_N, LOWER_D, SPACE, DOLLAR, 51, COMMA,
                        SPACE, PERCENT, LOWER_A, LOWER_L, LINE_FEED, TAB, LOWER_C, LOWER_M,
                        LOWER_P, SPACE, DOLLAR, 48, COMMA, SPACE, PERCENT, LOWER_A, LOWER_L,
                        LINE_FEED];
                    proof {
                        assert(t@ =~= asm_fixnum_test());
                    }
                    output.append(&mut t);
                    emit_comparison(output);
                },
                UnaryPrimitive::IsBoolean => {
                    let mut t = vec![TAB, LOWER_A, LOWER_N, LOWER_D, SPACE, DOLLAR, 49, 57, 49,
                        COMMA, SPACE, PERCENT, LOWER_A, LOWER_L, LINE_FEED, TAB, LOWER_C, LOWER_M,
                        LOWER_P, SPACE, DOLLAR, 52, 55, COMMA, SPACE, PERCENT, LOWER_A, LOWER_L,
                        LINE_FEED];
                    proof {
                        assert(t@ =~= asm_boolean_test());
                    }
                    output.append(&mut t);
                    emit_comparison(output);
                },
                UnaryPrimitive::IsCharacter => {
                    let mut t = vec![TAB, LOWER_A, LOWER_N, LOWER_D, SPACE, DOLLAR, 54, 51, COMMA,
                        SPACE, PERCENT, LOWER_A, LOWER_L, LINE_FEED, TAB, LOWER_C, LOWER_M,
                        LOWER_P, SPACE, DOLLAR, 49, 53, COMMA, SPACE, PERCENT, LOWER_A, LOWER_L,
                        LINE_FEED];
                    proof {
                        assert(t@ =~= asm_character_test());
                    }
                    output.append(&mut t);
                    emit_comparison(output);
                },
            }
            proof {
                assert(output@ =~= old(output)@ + asm_body(*expression));
            }
        },
    }
}

/// Compile one expression into the text of the entry routine. Code
/// generation cannot fail: the result is always the assembly of the tree.
pub fn compile(expression: Expression) -> (r: Result<Vec<u8>, CompilationError>)
    ensures
        r matches Ok(out) && out@ == assembly(expression),
{
    let mut output: Vec<u8> = Vec::new();
    let mut t = vec![DOT, LOWER_G, LOWER_L, LOWER_O, LOWER_B, LOWER_L, SPACE, UNDERSCORE, LOWER_S,
        LOWER_C, LOWER_H, LOWER_E, LOWER_M, LOWER_E, UNDERSCORE, LOWER_E, LOWER_N, LOWER_T,
        LOWER_R, LOWER_Y, LINE_FEED, UNDERSCORE, LOWER_S, LOWER_C, LOWER_H, LOWER_E, LOWER_M,
        LOWER_E, UNDERSCORE, LOWER_E, LOWER_N, LOWER_T, LOWER_R, LOWER_Y, COLON, LINE_FEED];
    proof {
        assert(t@ =~= asm_prologue());
    }
    output.append(&mut t);
    emit_expression(&mut output, &expression);
    let mut t2 = vec![TAB, LOWER_R, LOWER_E, LOWER_T, LINE_FEED];
    proof {
        assert(t2@ =~= asm_epilogue());
    }
    output.append(&mut t2);
    proof {
        assert(output@ =~= assembly(expression));
    }
    Ok(output)
}

/// Tokenize, parse and compile one source text: the assembly of the one
/// expression the source holds, or the error of the stage that rejected it.
pub fn run(source: &[u8]) -> (r: Result<Vec<u8>, CompilationError>)
    requires
        source@.len() < usize::MAX,
    ensures
        match source_expression(source@) {
            Some(e) => r matches Ok(out) && out@ == assembly(e),
            None => r matches Err(c) && c is ParseError,
        },
{
    let tokens = lex(source);
    proof {
        lemma_source_tokens(source@, tokens@);
    }
    match parse(tokens.as_slice()) {
        Ok(expression) => compile(expression),
        Err(_) => Err(CompilationError::ParseError),
    }
}

/// The token values of a lexed vector are the token values of the source.
proof fn lemma_source_tokens(s: Seq<u8>, tokens: Seq<(Token, usize, usize)>)
    requires
        crate::lex::views_of(tokens) == tokens_from(s, 0),
    ensures
        crate::parse::token_values(tokens) == tokens_from(s, 0).map(
            |i: int, t: (TokenView, int, int)| t.0,
        ),
{
    assert(crate::parse::token_values(tokens) =~= crate::lex::views_of(tokens).map(
        |i: int, t: (TokenView, int, int)| t.0,
    ));
}

/// Compile and run one source text against the modeled machine: the text
/// the runtime prints for the word the generated code computes, or the
/// error of the stage that rejected the source.
pub fn execute(source: &[u8]) -> (r: Result<Vec<u8>, CompilationError>)
    requires
        source@.len() < usize::MAX,
    ensures
        match source_expression(source@) {
            Some(e) => r matches Ok(out) && out@ == printed_word(word_of(e)),
            None => r matches Err(c) && c is ParseError,
        },
{
    let tokens = lex(source);
    proof {
        lemma_source_tokens(source@, tokens@);
    }
    match parse(tokens.as_slice()) {
        Ok(expression) => Ok(print_word(evaluate(&expression))),
        Err(_) => Err(CompilationError::ParseError),
    }
}

} // verus!
