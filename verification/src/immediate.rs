//! The tagged 32-bit representation of immediate values.
//!
//! Every immediate datum is encoded in one 32-bit word that carries both its
//! runtime type and its value. The bit layout is a fixed contract shared with
//! the native runtime that decodes and prints the accumulator: integers keep
//! their two's-complement value shifted left by two (low two bits `00`),
//! booleans and the empty list are fixed byte patterns, and characters keep
//! their code shifted left by eight above a four-bit tag.

use vstd::prelude::*;

use crate::ascii::{
    escape_newline, escape_return, escape_space, escape_tab, BACKSLASH, CARRIAGE_RETURN, HASH,
    LEFT_PAREN, LINE_FEED, LOWER_A, LOWER_B, LOWER_C, LOWER_E, LOWER_F, LOWER_I, LOWER_L, LOWER_N,
    LOWER_P, LOWER_R, LOWER_S, LOWER_T, LOWER_U, LOWER_W, RIGHT_PAREN, SPACE, TAB,
};
use crate::digits::decimal_of;

verus! {

/// Position of the data bit that distinguishes true from false.
pub const BOOLEAN_BIT: u32 = 6;
/// Mask under which both boolean patterns compare equal to `BOOLEAN_FALSE`.
pub const BOOLEAN_MASK: u32 = 0xbf;
pub const BOOLEAN_TRUE: u32 = 0x6f;
pub const BOOLEAN_FALSE: u32 = 0x2f;

pub const INTEGER_MASK: u32 = 0x03;
pub const INTEGER_TAG: u32 = 0x00;
pub const INTEGER_SHIFT: u32 = 2;

pub const CHARACTER_MASK: u32 = 0x3f;
pub const CHARACTER_TAG: u32 = 0x0f;
pub const CHARACTER_SHIFT: u32 = 8;

/// The empty-list pattern, compared against the low byte of the accumulator.
pub const NULL: u32 = 0x3f;

/// An immediate datum: the leaves of the expression language.
#[derive(Clone, Copy, Debug, PartialEq, Eq, Structural)]
pub enum Immediate {
    Null,
    Boolean(bool),
    Character(u8),
    Integer(i32),
}

impl Immediate {
    /// The tagged 32-bit word that encodes this immediate. An integer whose
    /// shifted value exceeds 32 bits wraps per two's complement, matching the
    /// 32-bit move instruction that loads it.
    pub open spec fn word(self) -> u32 {
        match self {
            Immediate::Null => NULL,
            Immediate::Boolean(b) => if b {
                BOOLEAN_TRUE
            } else {
                BOOLEAN_FALSE
            },
            Immediate::Character(c) => ((c as u32) << CHARACTER_SHIFT) | CHARACTER_TAG,
            Immediate::Integer(n) => (n as u32) << INTEGER_SHIFT,
        }
    }

    /// Compute the tagged word of this immediate.
    pub fn to_word(&self) -> (w: u32)
        ensures
            w == self.word(),
    {
        match self {
            Immediate::Null => NULL,
            Immediate::Boolean(b) => if *b {
                BOOLEAN_TRUE
            } else {
                BOOLEAN_FALSE
            },
            Immediate::Character(c) => ((*c as u32) << CHARACTER_SHIFT) | CHARACTER_TAG,
            Immediate::Integer(n) => (#[verifier::truncate] (*n as u32)) << INTEGER_SHIFT,
        }
    }
}

/// The canonical source text of an immediate: the form the lexer reads back
/// as the same value. The four whitespace-like characters print as their
/// spelled-out escapes; every other character prints as itself after the
/// two-byte character prefix.
pub open spec fn printed(imm: Immediate) -> Seq<u8> {
    match imm {
        Immediate::Null => seq![LEFT_PAREN, RIGHT_PAREN],
        Immediate::Boolean(b) => if b {
            seq![HASH, LOWER_T]
        } else {
            seq![HASH, LOWER_F]
        },
        Immediate::Character(c) => if c == LINE_FEED {
            seq![HASH, BACKSLASH] + escape_newline()
        } else if c == CARRIAGE_RETURN {
            seq![HASH, BACKSLASH] + escape_return()
        } else if c == SPACE {
            seq![HASH, BACKSLASH] + escape_space()
        } else if c == TAB {
            seq![HASH, BACKSLASH] + escape_tab()
        } else {
            seq![HASH, BACKSLASH, c]
        },
        Immediate::Integer(n) => decimal_of(n as int),
    }
}

impl Immediate {
    /// Print this immediate in its canonical source form.
    pub fn to_text(&self) -> (r: Vec<u8>)
        ensures
            r@ == printed(*self),
    {
        match self {
            Immediate::Null => {
                let r = vec![LEFT_PAREN, RIGHT_PAREN];
                proof {
                    assert(r@ =~= printed(*self));
                }
                r
            },
            Immediate::Boolean(b) => {
                let r = if *b {
                    vec![HASH, LOWER_T]
                } else {
                    vec![HASH, LOWER_F]
                };
                proof {
                    assert(r@ =~= printed(*self));
                }
                r
            },
            Immediate::Character(c) => {
                let mut r = vec![HASH, BACKSLASH];
                if *c == LINE_FEED {
                    let mut w = vec![LOWER_N, LOWER_E, LOWER_W, LOWER_L, LOWER_I, LOWER_N, LOWER_E];
                    r.append(&mut w);
                } else if *c == CARRIAGE_RETURN {
                    let mut w = vec![LOWER_R, LOWER_E, LOWER_T, LOWER_U, LOWER_R, LOWER_N];
                    r.append(&mut w);
                } else if *c == SPACE {
                    let mut w = vec![LOWER_S, LOWER_P, LOWER_A, LOWER_C, LOWER_E];
                    r.append(&mut w);
                } else if *c == TAB {
                    let mut w = vec![LOWER_T, LOWER_A, LOWER_B];
                    r.append(&mut w);
                } else {
                    r.push(*c);
                }
                proof {
                    assert(r@ =~= printed(*self));
                }
                r
            },
            Immediate::Integer(n) => {
                let mut r: Vec<u8> = Vec::new();
                crate::digits::push_decimal(&mut r, *n);
                proof {
                    assert(r@ =~= printed(*self));
                }
                r
            },
        }
    }
}

/// The integers whose tagged encoding keeps their value: what fits a 32-bit
/// word after the two-bit shift.
pub open spec fn fits_fixnum(n: int) -> bool {
    -0x2000_0000 <= n < 0x2000_0000
}

/// The value a tagged word stands for, as the runtime reads it back: the
/// classification tests in their fixed order, then the payload bits.
pub open spec fn spec_decode(w: u32) -> Option<Immediate> {
    if is_integer_word(w) {
        Some(Immediate::Integer((w as i32) >> INTEGER_SHIFT))
    } else if is_character_word(w) {
        Some(Immediate::Character(((w >> CHARACTER_SHIFT) & 0xff) as u8))
    } else if w == BOOLEAN_TRUE {
        Some(Immediate::Boolean(true))
    } else if w == BOOLEAN_FALSE {
        Some(Immediate::Boolean(false))
    } else if w == NULL {
        Some(Immediate::Null)
    } else {
        None
    }
}

/// Read the immediate a tagged word encodes, if any.
pub fn decode(w: u32) -> (r: Option<Immediate>)
    ensures
        r == spec_decode(w),
{
    if w & INTEGER_MASK == INTEGER_TAG {
        Some(Immediate::Integer((#[verifier::truncate] (w as i32)) >> INTEGER_SHIFT))
    } else if w & CHARACTER_MASK == CHARACTER_TAG {
        Some(Immediate::Character(#[verifier::truncate] (((w >> CHARACTER_SHIFT) & 0xff) as u8)))
    } else if w == BOOLEAN_TRUE {
        Some(Immediate::Boolean(true))
    } else if w == BOOLEAN_FALSE {
        Some(Immediate::Boolean(false))
    } else if w == NULL {
        Some(Immediate::Null)
    } else {
        None
    }
}

/// Decoding inverts encoding: every boolean, character and null word, and
/// the word of every integer that fits the shifted range, reads back as the
/// immediate it came from.
pub proof fn lemma_decode_word(imm: Immediate)
    requires
        imm matches Immediate::Integer(n) ==> fits_fixnum(n as int),
    ensures
        spec_decode(imm.word()) == Some(imm),
{
    lemma_tag_disjointness(imm);
    match imm {
        Immediate::Integer(n) => {
            assert(fits_fixnum(n as int) ==> ((((n as u32) << INTEGER_SHIFT) as i32)
                >> INTEGER_SHIFT) == n) by (bit_vector);
        },
        Immediate::Character(c) => {
            assert(((((c as u32) << CHARACTER_SHIFT) | CHARACTER_TAG) >> CHARACTER_SHIFT) & 0xff
                == c) by (bit_vector);
        },
        _ => {},
    }
}

/// The mask/compare test the generated code uses to recognize an integer word.
pub open spec fn is_integer_word(w: u32) -> bool {
    w & INTEGER_MASK == INTEGER_TAG
}

/// The mask/compare test the generated code uses to recognize a boolean word.
pub open spec fn is_boolean_word(w: u32) -> bool {
    w & BOOLEAN_MASK == BOOLEAN_FALSE
}

/// The mask/compare test the generated code uses to recognize a character word.
pub open spec fn is_character_word(w: u32) -> bool {
    w & CHARACTER_MASK == CHARACTER_TAG
}

/// The low-byte compare the generated code uses to recognize the empty list.
pub open spec fn is_null_word(w: u32) -> bool {
    w & 0xff == NULL
}

/// Bit-level facts behind tag disjointness, stated over every possible
/// payload of each immediate kind.
proof fn lemma_word_bits()
    by (bit_vector)
    ensures
        forall|n: i32| #[trigger] ((n as u32) << INTEGER_SHIFT) & INTEGER_MASK == INTEGER_TAG,
        forall|n: i32| #[trigger] ((n as u32) << INTEGER_SHIFT) & BOOLEAN_MASK != BOOLEAN_FALSE,
        forall|n: i32| #[trigger] ((n as u32) << INTEGER_SHIFT) & CHARACTER_MASK != CHARACTER_TAG,
        forall|n: i32| #[trigger] ((n as u32) << INTEGER_SHIFT) & 0xff != NULL,
        forall|c: u8| #[trigger] (((c as u32) << CHARACTER_SHIFT) | CHARACTER_TAG) & CHARACTER_MASK
            == CHARACTER_TAG,
        forall|c: u8| #[trigger] (((c as u32) << CHARACTER_SHIFT) | CHARACTER_TAG) & INTEGER_MASK
            != INTEGER_TAG,
        forall|c: u8| #[trigger] (((c as u32) << CHARACTER_SHIFT) | CHARACTER_TAG) & BOOLEAN_MASK
            != BOOLEAN_FALSE,
        forall|c: u8| #[trigger] (((c as u32) << CHARACTER_SHIFT) | CHARACTER_TAG) & 0xff != NULL,
        BOOLEAN_TRUE & BOOLEAN_MASK == BOOLEAN_FALSE,
        BOOLEAN_FALSE & BOOLEAN_MASK == BOOLEAN_FALSE,
        BOOLEAN_TRUE & INTEGER_MASK != INTEGER_TAG,
        BOOLEAN_FALSE & INTEGER_MASK != INTEGER_TAG,
        BOOLEAN_TRUE & CHARACTER_MASK != CHARACTER_TAG,
        BOOLEAN_FALSE & CHARACTER_MASK != CHARACTER_TAG,
        BOOLEAN_TRUE & 0xff != NULL,
        BOOLEAN_FALSE & 0xff != NULL,
        NULL & 0xff == NULL,
        NULL & INTEGER_MASK != INTEGER_TAG,
        NULL & BOOLEAN_MASK != BOOLEAN_FALSE,
        NULL & CHARACTER_MASK != CHARACTER_TAG,
{
}

/// Tag disjointness: each of the four classification tests accepts the
/// encodings of its own kind and rejects the encodings of every other kind,
/// whatever the payload.
pub proof fn lemma_tag_disjointness(imm: Immediate)
    ensures
        is_integer_word(imm.word()) <==> imm is Integer,
        is_boolean_word(imm.word()) <==> imm is Boolean,
        is_character_word(imm.word()) <==> imm is Character,
        is_null_word(imm.word()) <==> imm is Null,
{
    lemma_word_bits();
}

} // verus!
