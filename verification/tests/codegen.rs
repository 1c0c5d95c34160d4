use inc::compile::{compile, run};
use inc::expression::{Call, Expression, UnaryPrimitive};
use inc::immediate::{decode, Immediate};

#[test]
fn assembly_for_immediate() {
    let expression = Expression::Immediate(Immediate::Integer(0));
    let assembly = compile(expression).unwrap();
    let expected = ".globl _scheme_entry\n\
                    _scheme_entry:\n\
                    \tmovl $0, %eax\n\
                    \tret\n";
    assert_eq!(String::from_utf8(assembly).unwrap(), expected);
}

#[test]
fn assembly_for_boolean_literal() {
    let assembly = run(b"#t").unwrap();
    let expected = ".globl _scheme_entry\n\
                    _scheme_entry:\n\
                    \tmovl $111, %eax\n\
                    \tret\n";
    assert_eq!(String::from_utf8(assembly).unwrap(), expected);
}

#[test]
fn assembly_for_predicate() {
    let expression = Expression::Call(Call::new(
        UnaryPrimitive::FixnumIsZero,
        Expression::Immediate(Immediate::Integer(-1)),
    ));
    let assembly = compile(expression).unwrap();
    let expected = ".globl _scheme_entry\n\
                    _scheme_entry:\n\
                    \tmovl $-4, %eax\n\
                    \tcmp $0, %rax\n\
                    \tsete %al\n\
                    \tmovzbl %al, %eax\n\
                    \tsal $6, %al\n\
                    \tor $47, %al\n\
                    \tret\n";
    assert_eq!(String::from_utf8(assembly).unwrap(), expected);
}

#[test]
fn assembly_for_conversion() {
    let assembly = run(br"(fixnum->char 65)").unwrap();
    let expected = ".globl _scheme_entry\n\
                    _scheme_entry:\n\
                    \tmovl $260, %eax\n\
                    \tshll $6, %eax\n\
                    \torl $15, %eax\n\
                    \tret\n";
    assert_eq!(String::from_utf8(assembly).unwrap(), expected);
}

#[test]
fn run_rejects_invalid_source() {
    assert!(run(b"(fxadd1)").is_err());
    assert!(run(b"").is_err());
    assert!(run(b"(hello 5)").is_err());
}

#[test]
fn tagged_words() {
    // The bit-exact tag constants shared with the runtime.
    assert_eq!(Immediate::Integer(0).to_word(), 0x00);
    assert_eq!(Immediate::Integer(1).to_word(), 0x04);
    assert_eq!(Immediate::Integer(-1).to_word(), 0xffff_fffc);
    assert_eq!(Immediate::Boolean(true).to_word(), 0x6f);
    assert_eq!(Immediate::Boolean(false).to_word(), 0x2f);
    assert_eq!(Immediate::Character(b'A').to_word(), 0x410f);
    assert_eq!(Immediate::Null.to_word(), 0x3f);
}

#[test]
fn tag_classification_is_disjoint() {
    let words = [
        (Immediate::Integer(7).to_word(), "integer"),
        (Immediate::Boolean(true).to_word(), "boolean"),
        (Immediate::Boolean(false).to_word(), "boolean"),
        (Immediate::Character(b'q').to_word(), "character"),
        (Immediate::Null.to_word(), "null"),
    ];
    for (word, kind) in &words {
        assert_eq!((word & 0x03 == 0x00), *kind == "integer");
        assert_eq!((word & 0xbf == 0x2f), *kind == "boolean");
        assert_eq!((word & 0x3f == 0x0f), *kind == "character");
        assert_eq!((word & 0xff == 0x3f), *kind == "null");
    }
}

#[test]
fn decode_inverts_encoding() {
    let immediates = [
        Immediate::Null,
        Immediate::Boolean(true),
        Immediate::Boolean(false),
        Immediate::Character(b'*'),
        Immediate::Integer(0),
        Immediate::Integer(536_870_911),
        Immediate::Integer(-536_870_912),
    ];
    for imm in &immediates {
        assert_eq!(decode(imm.to_word()), Some(*imm));
    }
    assert_eq!(decode(0x73), None);
}
