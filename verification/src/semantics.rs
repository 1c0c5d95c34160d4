//! The meaning of an expression: the tagged word the generated code leaves
//! in the accumulator, and the text the runtime prints for it.
//!
//! `word_of` follows the emitted instruction sequence operation for
//! operation: arithmetic wraps per two's complement at the tagged-bit level
//! (the overflow policy of this compiler: `(fxadd1 536870911)` wraps to the
//! most negative fixnum, it is not rejected), the conversions shift between
//! the integer and character tag positions, and every predicate compares a
//! masked accumulator and yields a tagged boolean. `evaluate` computes it,
//! and `print_word` renders a word the way the runtime renders the
//! accumulator on exit.

use vstd::prelude::*;

use crate::ascii::{GREATER_THAN, HASH, LESS_THAN, LOWER_K, LOWER_N, LOWER_O, LOWER_U, LOWER_W};
use crate::expression::{Call, Expression, UnaryPrimitive};
use crate::immediate::{
    is_boolean_word, is_character_word, is_integer_word, is_null_word, printed, spec_decode,
    Immediate, BOOLEAN_FALSE, BOOLEAN_TRUE, CHARACTER_SHIFT, CHARACTER_TAG, INTEGER_MASK,
    INTEGER_SHIFT, INTEGER_TAG, NULL,
};

verus! {

/// The tagged boolean word of a test outcome.
pub open spec fn boolean_word(b: bool) -> u32 {
    if b {
        BOOLEAN_TRUE
    } else {
        BOOLEAN_FALSE
    }
}

/// The word a primitive leaves in the accumulator when applied to the word
/// its operand left there.
pub open spec fn primitive_word(p: UnaryPrimitive, a: u32) -> u32 {
    match p {
        UnaryPrimitive::FxAdd1 => a.wrapping_add(4),
        UnaryPrimitive::FxSub1 => a.wrapping_sub(4),
        UnaryPrimitive::FxLogNot => (!(a >> INTEGER_SHIFT)) << INTEGER_SHIFT,
        UnaryPrimitive::FixnumToChar => (a << (CHARACTER_SHIFT - INTEGER_SHIFT)) | CHARACTER_TAG,
        UnaryPrimitive::CharToFixnum => a >> (CHARACTER_SHIFT - INTEGER_SHIFT),
        UnaryPrimitive::FixnumIsZero => boolean_word(a == INTEGER_TAG),
        UnaryPrimitive::IsNull => boolean_word(is_null_word(a)),
        UnaryPrimitive::Not => boolean_word(a & 0xff == BOOLEAN_FALSE),
        UnaryPrimitive::IsFixnum => boolean_word(is_integer_word(a)),
        UnaryPrimitive::IsBoolean => boolean_word(is_boolean_word(a)),
        UnaryPrimitive::IsCharacter => boolean_word(is_character_word(a)),
    }
}

/// The tagged word an expression evaluates to: its immediate's encoding at a
/// leaf, and the primitive's operation on the operand's word at a call.
pub open spec fn word_of(e: Expression) -> u32
    decreases e,
{
    match e {
        Expression::Immediate(imm) => imm.word(),
        Expression::Call(c) => primitive_word(c.primitive, word_of(*c.expression)),
    }
}

/// A call expression, for stating laws about compound programs.
pub open spec fn applied(p: UnaryPrimitive, e: Expression) -> Expression {
    Expression::Call(Call { primitive: p, expression: Box::new(e) })
}

/// One evaluation step: a call's word is its primitive's operation on its
/// operand's word.
pub proof fn lemma_word_of_applied(p: UnaryPrimitive, e: Expression)
    ensures
        word_of(applied(p, e)) == primitive_word(p, word_of(e)),
{
}

/// Compute the tagged word an expression evaluates to.
pub fn evaluate(e: &Expression) -> (w: u32)
    ensures
        w == word_of(*e),
    decreases *e,
{
    match e {
        Expression::Immediate(imm) => imm.to_word(),
        Expression::Call(c) => {
            let a = evaluate(&*c.expression);
            match c.primitive {
                UnaryPrimitive::FxAdd1 => a.wrapping_add(4),
                UnaryPrimitive::FxSub1 => a.wrapping_sub(4),
                UnaryPrimitive::FxLogNot => (!(a >> INTEGER_SHIFT)) << INTEGER_SHIFT,
                UnaryPrimitive::FixnumToChar => (a << (CHARACTER_SHIFT - INTEGER_SHIFT))
                    | CHARACTER_TAG,
                UnaryPrimitive::CharToFixnum => a >> (CHARACTER_SHIFT - INTEGER_SHIFT),
                UnaryPrimitive::FixnumIsZero => if a == INTEGER_TAG {
                    BOOLEAN_TRUE
                } else {
                    BOOLEAN_FALSE
                },
                UnaryPrimitive::IsNull => if a & 0xff == NULL {
                    BOOLEAN_TRUE
                } else {
                    BOOLEAN_FALSE
                },
                UnaryPrimitive::Not => if a & 0xff == BOOLEAN_FALSE {
                    BOOLEAN_TRUE
                } else {
                    BOOLEAN_FALSE
                },
                UnaryPrimitive::IsFixnum => if a & INTEGER_MASK == INTEGER_TAG {
                    BOOLEAN_TRUE
                } else {
                    BOOLEAN_FALSE
                },
                UnaryPrimitive::IsBoolean => if a & crate::immediate::BOOLEAN_MASK
                    == BOOLEAN_FALSE {
                    BOOLEAN_TRUE
                } else {
                    BOOLEAN_FALSE
                },
                UnaryPrimitive::IsCharacter => if a & crate::immediate::CHARACTER_MASK
                    == CHARACTER_TAG {
                    BOOLEAN_TRUE
                } else {
                    BOOLEAN_FALSE
                },
            }
        },
    }
}

/// The text printed for a word that encodes no immediate.
pub open spec fn unknown_text() -> Seq<u8> {
    seq![HASH, LESS_THAN, LOWER_U, LOWER_N, LOWER_K, LOWER_N, LOWER_O, LOWER_W, LOWER_N,
        GREATER_THAN]
}

/// The text the runtime prints for an accumulator word: the canonical form
/// of the immediate it encodes, an integer's value read back through the
/// two-bit arithmetic shift.
pub open spec fn printed_word(w: u32) -> Seq<u8> {
    match spec_decode(w) {
        Some(imm) => printed(imm),
        None => unknown_text(),
    }
}

/// Render a word the way the runtime renders the accumulator.
pub fn print_word(w: u32) -> (r: Vec<u8>)
    ensures
        r@ == printed_word(w),
{
    match crate::immediate::decode(w) {
        Some(imm) => imm.to_text(),
        None => {
            let r = vec![HASH, LESS_THAN, LOWER_U, LOWER_N, LOWER_K, LOWER_N, LOWER_O, LOWER_W,
                LOWER_N, GREATER_THAN];
            proof {
                assert(r@ =~= unknown_text());
            }
            r
        },
    }
}

/// Tag disjointness at the evaluation level: each type predicate, run on an
/// immediate of any kind with any payload, answers true exactly for its own
/// kind.
pub proof fn lemma_predicate_classification(x: Immediate)
    ensures
        word_of(applied(UnaryPrimitive::IsFixnum, Expression::Immediate(x))) == boolean_word(
            x is Integer,
        ),
        word_of(applied(UnaryPrimitive::IsBoolean, Expression::Immediate(x))) == boolean_word(
            x is Boolean,
        ),
        word_of(applied(UnaryPrimitive::IsCharacter, Expression::Immediate(x))) == boolean_word(
            x is Character,
        ),
        word_of(applied(UnaryPrimitive::IsNull, Expression::Immediate(x))) == boolean_word(
            x is Null,
        ),
{
    lemma_word_of_applied(UnaryPrimitive::IsFixnum, Expression::Immediate(x));
    lemma_word_of_applied(UnaryPrimitive::IsBoolean, Expression::Immediate(x));
    lemma_word_of_applied(UnaryPrimitive::IsCharacter, Expression::Immediate(x));
    lemma_word_of_applied(UnaryPrimitive::IsNull, Expression::Immediate(x));
    crate::immediate::lemma_tag_disjointness(x);
}

/// The zero test is exact on the fixnums that fit: `(fxzero? N)` evaluates
/// to true exactly when N is zero.
pub proof fn lemma_zero_test(n: i32)
    requires
        crate::immediate::fits_fixnum(n as int),
    ensures
        word_of(applied(UnaryPrimitive::FixnumIsZero, Expression::Immediate(Immediate::Integer(n))))
            == boolean_word(n == 0),
{
    lemma_word_of_applied(UnaryPrimitive::FixnumIsZero, Expression::Immediate(Immediate::Integer(n)));
    assert(-0x2000_0000 <= n < 0x2000_0000 ==> (((n as u32) << 2) == 0 <==> n == 0))
        by (bit_vector);
}

/// A literal program prints as its own canonical text: the runtime's
/// rendering of an immediate's word is the immediate's printed form, for
/// every immediate whose integer fits the shifted range.
pub proof fn lemma_literal_output(x: Immediate)
    requires
        x matches Immediate::Integer(n) ==> crate::immediate::fits_fixnum(n as int),
    ensures
        printed_word(word_of(Expression::Immediate(x))) == printed(x),
{
    crate::immediate::lemma_decode_word(x);
}

/// Double negation: `(not (not X))` evaluates to true exactly when the
/// tagged encoding of the immediate X is not the boolean-false pattern.
pub proof fn lemma_double_negation(x: Immediate)
    ensures
        word_of(applied(UnaryPrimitive::Not, applied(UnaryPrimitive::Not, Expression::Immediate(x))))
            == boolean_word(x.word() != BOOLEAN_FALSE),
{
    let inner = Expression::Immediate(x);
    lemma_word_of_applied(UnaryPrimitive::Not, inner);
    lemma_word_of_applied(UnaryPrimitive::Not, applied(UnaryPrimitive::Not, inner));
    crate::immediate::lemma_tag_disjointness(x);
    assert(BOOLEAN_TRUE & 0xff != BOOLEAN_FALSE && BOOLEAN_FALSE & 0xff == BOOLEAN_FALSE)
        by (bit_vector);
    assert(forall|n: i32| #[trigger] ((n as u32) << INTEGER_SHIFT) & 0xff != BOOLEAN_FALSE)
        by (bit_vector);
    assert(forall|c: u8| #[trigger] (((c as u32) << CHARACTER_SHIFT) | CHARACTER_TAG) & 0xff
        != BOOLEAN_FALSE) by (bit_vector);
    assert(NULL & 0xff != BOOLEAN_FALSE) by (bit_vector);
}

/// Conversion inverses at the word level: `(char->fixnum (fixnum->char N))`
/// leaves the word of N for every N in the printable-ASCII code range, and
/// `(fixnum->char (char->fixnum C))` leaves the word of C for every
/// character C.
pub proof fn lemma_conversion_inverses(n: i32, c: u8)
    ensures
        0 <= n <= 126 ==> word_of(
            applied(
                UnaryPrimitive::CharToFixnum,
                applied(UnaryPrimitive::FixnumToChar, Expression::Immediate(Immediate::Integer(n))),
            ),
        ) == Immediate::Integer(n).word(),
        word_of(
            applied(
                UnaryPrimitive::FixnumToChar,
                applied(
                    UnaryPrimitive::CharToFixnum,
                    Expression::Immediate(Immediate::Character(c)),
                ),
            ),
        ) == Immediate::Character(c).word(),
{
    lemma_word_of_applied(
        UnaryPrimitive::FixnumToChar,
        Expression::Immediate(Immediate::Integer(n)),
    );
    lemma_word_of_applied(
        UnaryPrimitive::CharToFixnum,
        applied(UnaryPrimitive::FixnumToChar, Expression::Immediate(Immediate::Integer(n))),
    );
    lemma_word_of_applied(
        UnaryPrimitive::CharToFixnum,
        Expression::Immediate(Immediate::Character(c)),
    );
    lemma_word_of_applied(
        UnaryPrimitive::FixnumToChar,
        applied(UnaryPrimitive::CharToFixnum, Expression::Immediate(Immediate::Character(c))),
    );
    assert(0 <= n <= 126 ==> ((((n as u32) << 2) << 6 | 0x0f) >> 6) == (n as u32) << 2)
        by (bit_vector);
    assert(((((c as u32) << 8 | 0x0f) >> 6) << 6 | 0x0f) == (c as u32) << 8 | 0x0f)
        by (bit_vector);
}

/// The overflow policy of fixnum arithmetic, stated for every 32-bit
/// operand: increment, decrement and bitwise complement act on the untagged
/// value with wrapping two's-complement semantics, so the boundary fixnums
/// wrap instead of being rejected.
pub proof fn lemma_fixnum_arithmetic(n: i32)
    ensures
        word_of(applied(UnaryPrimitive::FxAdd1, Expression::Immediate(Immediate::Integer(n))))
            == Immediate::Integer(n.wrapping_add(1)).word(),
        word_of(applied(UnaryPrimitive::FxSub1, Expression::Immediate(Immediate::Integer(n))))
            == Immediate::Integer(n.wrapping_sub(1)).word(),
        word_of(applied(UnaryPrimitive::FxLogNot, Expression::Immediate(Immediate::Integer(n))))
            == Immediate::Integer(!n).word(),
{
    lemma_word_of_applied(UnaryPrimitive::FxAdd1, Expression::Immediate(Immediate::Integer(n)));
    lemma_word_of_applied(UnaryPrimitive::FxSub1, Expression::Immediate(Immediate::Integer(n)));
    lemma_word_of_applied(UnaryPrimitive::FxLogNot, Expression::Immediate(Immediate::Integer(n)));
    assert(((n as u32) << 2).wrapping_add(4) == (n.wrapping_add(1) as u32) << 2) by (bit_vector);
    assert(((n as u32) << 2).wrapping_sub(4) == (n.wrapping_sub(1) as u32) << 2) by (bit_vector);
    assert((!(((n as u32) << 2) >> 2)) << 2 == ((!n) as u32) << 2) by (bit_vector);
}

} // verus!
