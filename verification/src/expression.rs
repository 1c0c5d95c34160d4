//! The expression tree the parser builds and the code generator walks.
//!
//! An expression is either an immediate literal or a call of one of the
//! eleven unary primitives on a single operand. The set of primitive names
//! is closed: `primitive_of` gives the mapping from surface names to
//! primitives, and `UnaryPrimitive::from_symbol` is its executable mirror.

use vstd::prelude::*;

use crate::ascii::{
    DIGIT_ONE, GREATER_THAN, LOWER_A, LOWER_B, LOWER_C, LOWER_D, LOWER_E, LOWER_F, LOWER_G,
    LOWER_H, LOWER_I, LOWER_L, LOWER_M, LOWER_N, LOWER_O, LOWER_R, LOWER_S, LOWER_T, LOWER_U,
    LOWER_X, LOWER_Z, MINUS, QUESTION,
};
use crate::immediate::Immediate;

verus! {

/// The eleven built-in unary operations.
#[derive(Clone, Copy, Debug, PartialEq, Eq, Structural)]
pub enum UnaryPrimitive {
    FxAdd1,
    FxSub1,
    FxLogNot,
    CharToFixnum,
    FixnumToChar,
    FixnumIsZero,
    IsNull,
    Not,
    IsFixnum,
    IsBoolean,
    IsCharacter,
}

/// A primitive applied to one operand.
#[derive(Debug, PartialEq)]
pub struct Call {
    pub primitive: UnaryPrimitive,
    pub expression: Box<Expression>,
}

/// One expression of the language: an immediate leaf or a unary call.
#[derive(Debug)]
pub enum Expression {
    Call(Call),
    Immediate(Immediate),
}

/// The error of reading a symbol that names no primitive.
pub struct ParseUnaryPrimitiveError;

/// The surface name of each primitive.
pub open spec fn keyword(p: UnaryPrimitive) -> Seq<u8> {
    match p {
        UnaryPrimitive::FxAdd1 => seq![LOWER_F, LOWER_X, LOWER_A, LOWER_D, LOWER_D, DIGIT_ONE],
        UnaryPrimitive::FxSub1 => seq![LOWER_F, LOWER_X, LOWER_S, LOWER_U, LOWER_B, DIGIT_ONE],
        UnaryPrimitive::FxLogNot => seq![
            LOWER_F,
            LOWER_X,
            LOWER_L,
            LOWER_O,
            LOWER_G,
            LOWER_N,
            LOWER_O,
            LOWER_T,
        ],
        UnaryPrimitive::CharToFixnum => seq![
            LOWER_C,
            LOWER_H,
            LOWER_A,
            LOWER_R,
            MINUS,
            GREATER_THAN,
            LOWER_F,
            LOWER_I,
            LOWER_X,
            LOWER_N,
            LOWER_U,
            LOWER_M,
        ],
        UnaryPrimitive::FixnumToChar => seq![
            LOWER_F,
            LOWER_I,
            LOWER_X,
            LOWER_N,
            LOWER_U,
            LOWER_M,
            MINUS,
            GREATER_THAN,
            LOWER_C,
            LOWER_H,
            LOWER_A,
            LOWER_R,
        ],
        UnaryPrimitive::FixnumIsZero => seq![
            LOWER_F,
            LOWER_X,
            LOWER_Z,
            LOWER_E,
            LOWER_R,
            LOWER_O,
            QUESTION,
        ],
        UnaryPrimitive::IsNull => seq![LOWER_N, LOWER_U, LOWER_L, LOWER_L, QUESTION],
        UnaryPrimitive::Not => seq![LOWER_N, LOWER_O, LOWER_T],
        UnaryPrimitive::IsFixnum => seq![
            LOWER_F,
            LOWER_I,
            LOWER_X,
            LOWER_N,
            LOWER_U,
            LOWER_M,
            QUESTION,
        ],
        UnaryPrimitive::IsBoolean => seq![
            LOWER_B,
            LOWER_O,
            LOWER_O,
            LOWER_L,
            LOWER_E,
            LOWER_A,
            LOWER_N,
            QUESTION,
        ],
        UnaryPrimitive::IsCharacter => seq![LOWER_C, LOWER_H, LOWER_A, LOWER_R, QUESTION],
    }
}

/// The primitive a symbol names, if any: the closed set of operator names.
pub open spec fn primitive_of(s: Seq<u8>) -> Option<UnaryPrimitive> {
    if s == keyword(UnaryPrimitive::FxAdd1) {
        Some(UnaryPrimitive::FxAdd1)
    } else if s == keyword(UnaryPrimitive::FxSub1) {
        Some(UnaryPrimitive::FxSub1)
    } else if s == keyword(UnaryPrimitive::FxLogNot) {
        Some(UnaryPrimitive::FxLogNot)
    } else if s == keyword(UnaryPrimitive::CharToFixnum) {
        Some(UnaryPrimitive::CharToFixnum)
    } else if s == keyword(UnaryPrimitive::FixnumToChar) {
        Some(UnaryPrimitive::FixnumToChar)
    } else if s == keyword(UnaryPrimitive::FixnumIsZero) {
        Some(UnaryPrimitive::FixnumIsZero)
    } else if s == keyword(UnaryPrimitive::IsNull) {
        Some(UnaryPrimitive::IsNull)
    } else if s == keyword(UnaryPrimitive::Not) {
        Some(UnaryPrimitive::Not)
    } else if s == keyword(UnaryPrimitive::IsFixnum) {
        Some(UnaryPrimitive::IsFixnum)
    } else if s == keyword(UnaryPrimitive::IsBoolean) {
        Some(UnaryPrimitive::IsBoolean)
    } else if s == keyword(UnaryPrimitive::IsCharacter) {
        Some(UnaryPrimitive::IsCharacter)
    } else {
        None
    }
}

/// Whether two byte strings hold the same bytes.
pub fn bytes_eq(a: &[u8], b: &[u8]) -> (r: bool)
    ensures
        r == (a@ == b@),
{
    if a.len() != b.len() {
        return false;
    }
    let mut i: usize = 0;
    while i < a.len()
        invariant
            0 <= i <= a.len(),
            a.len() == b.len(),
            forall|j: int| 0 <= j < i ==> a@[j] == b@[j],
        decreases a.len() - i,
    {
        if a[i] != b[i] {
            return false;
        }
        i += 1;
    }
    proof {
        assert(a@ =~= b@);
    }
    true
}

impl UnaryPrimitive {
    /// The bytes of this primitive's surface name.
    pub fn name_bytes(&self) -> (r: Vec<u8>)
        ensures
            r@ == keyword(*self),
    {
        match self {
            UnaryPrimitive::FxAdd1 => vec![LOWER_F, LOWER_X, LOWER_A, LOWER_D, LOWER_D, DIGIT_ONE],
            UnaryPrimitive::FxSub1 => vec![LOWER_F, LOWER_X, LOWER_S, LOWER_U, LOWER_B, DIGIT_ONE],
            UnaryPrimitive::FxLogNot => vec![
                LOWER_F,
                LOWER_X,
                LOWER_L,
                LOWER_O,
                LOWER_G,
                LOWER_N,
                LOWER_O,
                LOWER_T,
            ],
            UnaryPrimitive::CharToFixnum => vec![
                LOWER_C,
                LOWER_H,
                LOWER_A,
                LOWER_R,
                MINUS,
                GREATER_THAN,
                LOWER_F,
                LOWER_I,
                LOWER_X,
                LOWER_N,
                LOWER_U,
                LOWER_M,
            ],
            UnaryPrimitive::FixnumToChar => vec![
                LOWER_F,
                LOWER_I,
                LOWER_X,
                LOWER_N,
                LOWER_U,
                LOWER_M,
                MINUS,
                GREATER_THAN,
                LOWER_C,
                LOWER_H,
                LOWER_A,
                LOWER_R,
            ],
            UnaryPrimitive::FixnumIsZero => vec![
                LOWER_F,
                LOWER_X,
                LOWER_Z,
                LOWER_E,
                LOWER_R,
                LOWER_O,
                QUESTION,
            ],
            UnaryPrimitive::IsNull => vec![LOWER_N, LOWER_U, LOWER_L, LOWER_L, QUESTION],
            UnaryPrimitive::Not => vec![LOWER_N, LOWER_O, LOWER_T],
            UnaryPrimitive::IsFixnum => vec![
                LOWER_F,
                LOWER_I,
                LOWER_X,
                LOWER_N,
                LOWER_U,
                LOWER_M,
                QUESTION,
            ],
            UnaryPrimitive::IsBoolean => vec![
                LOWER_B,
                LOWER_O,
                LOWER_O,
                LOWER_L,
                LOWER_E,
                LOWER_A,
                LOWER_N,
                QUESTION,
            ],
            UnaryPrimitive::IsCharacter => vec![LOWER_C, LOWER_H, LOWER_A, LOWER_R, QUESTION],
        }
    }

    /// Read a primitive from its surface name, rejecting every other symbol.
    pub fn from_symbol(symbol: &[u8]) -> (r: Result<UnaryPrimitive, ParseUnaryPrimitiveError>)
        ensures
            match primitive_of(symbol@) {
                Some(p) => r matches Ok(q) && q == p,
                None => r is Err,
            },
    {
        if bytes_eq(symbol, UnaryPrimitive::FxAdd1.name_bytes().as_slice()) {
            Ok(UnaryPrimitive::FxAdd1)
        } else if bytes_eq(symbol, UnaryPrimitive::FxSub1.name_bytes().as_slice()) {
            Ok(UnaryPrimitive::FxSub1)
        } else if bytes_eq(symbol, UnaryPrimitive::FxLogNot.name_bytes().as_slice()) {
            Ok(UnaryPrimitive::FxLogNot)
        } else if bytes_eq(symbol, UnaryPrimitive::CharToFixnum.name_bytes().as_slice()) {
            Ok(UnaryPrimitive::CharToFixnum)
        } else if bytes_eq(symbol, UnaryPrimitive::FixnumToChar.name_bytes().as_slice()) {
            Ok(UnaryPrimitive::FixnumToChar)
        } else if bytes_eq(symbol, UnaryPrimitive::FixnumIsZero.name_bytes().as_slice()) {
            Ok(UnaryPrimitive::FixnumIsZero)
        } else if bytes_eq(symbol, UnaryPrimitive::IsNull.name_bytes().as_slice()) {
            Ok(UnaryPrimitive::IsNull)
        } else if bytes_eq(symbol, UnaryPrimitive::Not.name_bytes().as_slice()) {
            Ok(UnaryPrimitive::Not)
        } else if bytes_eq(symbol, UnaryPrimitive::IsFixnum.name_bytes().as_slice()) {
            Ok(UnaryPrimitive::IsFixnum)
        } else if bytes_eq(symbol, UnaryPrimitive::IsBoolean.name_bytes().as_slice()) {
            Ok(UnaryPrimitive::IsBoolean)
        } else if bytes_eq(symbol, UnaryPrimitive::IsCharacter.name_bytes().as_slice()) {
            Ok(UnaryPrimitive::IsCharacter)
        } else {
            Err(ParseUnaryPrimitiveError)
        }
    }
}

impl Call {
    /// Build a call node owning its operand.
    pub fn new(primitive: UnaryPrimitive, expression: Expression) -> (c: Call)
        ensures
            c.primitive == primitive,
            *c.expression == expression,
    {
        Call { primitive, expression: Box::new(expression) }
    }
}

/// The source text of an expression: a call prints as the operator's name
/// and its operand between parentheses, a leaf as the immediate's canonical
/// form.
pub open spec fn printed_expression(e: Expression) -> Seq<u8>
    decreases e,
{
    match e {
        Expression::Immediate(imm) => crate::immediate::printed(imm),
        Expression::Call(c) => seq![crate::ascii::LEFT_PAREN] + keyword(c.primitive) + seq![
            crate::ascii::SPACE,
        ] + printed_expression(*c.expression) + seq![crate::ascii::RIGHT_PAREN],
    }
}

impl Expression {
    /// Print this expression as source text.
    pub fn to_text(&self) -> (r: Vec<u8>)
        ensures
            r@ == printed_expression(*self),
        decreases *self,
    {
        match self {
            Expression::Immediate(imm) => imm.to_text(),
            Expression::Call(c) => {
                let mut r = vec![crate::ascii::LEFT_PAREN];
                let mut name = c.primitive.name_bytes();
                r.append(&mut name);
                r.push(crate::ascii::SPACE);
                let mut operand = (&*c.expression).to_text();
                r.append(&mut operand);
                r.push(crate::ascii::RIGHT_PAREN);
                proof {
                    assert(r@ =~= printed_expression(*self));
                }
                r
            },
        }
    }
}

/// Whether two expressions are the same tree.
pub fn expression_eq(a: &Expression, b: &Expression) -> (r: bool)
    ensures
        r == (a == b),
    decreases *a,
{
    match (a, b) {
        (Expression::Immediate(x), Expression::Immediate(y)) => x == y,
        (Expression::Call(x), Expression::Call(y)) => x.primitive == y.primitive && expression_eq(
            &x.expression,
            &y.expression,
        ),
        _ => false,
    }
}

impl PartialEq for Expression {
    fn eq(&self, other: &Self) -> bool {
        expression_eq(self, other)
    }
}

impl vstd::std_specs::cmp::PartialEqSpecImpl for Expression {
    open spec fn obeys_eq_spec() -> bool {
        true
    }

    open spec fn eq_spec(&self, other: &Expression) -> bool {
        *self == *other
    }
}

} // verus!
