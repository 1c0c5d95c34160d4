use inc::expression::{Call, Expression, UnaryPrimitive};
use inc::immediate::Immediate;
use inc::lex::lex;
use inc::parse::parse;

fn parse_source(source: &str) -> Result<Expression, inc::parse::ParseError> {
    parse(lex(source.as_bytes()).as_slice())
}

#[test]
fn success() {
    let cases = [
        ("()", Expression::Immediate(Immediate::Null)),
        ("#t", Expression::Immediate(Immediate::Boolean(true))),
        ("#f", Expression::Immediate(Immediate::Boolean(false))),
        (r"#\a", Expression::Immediate(Immediate::Character(b'a'))),
        (r"#\z", Expression::Immediate(Immediate::Character(b'z'))),
        ("5", Expression::Immediate(Immediate::Integer(5))),
        ("-600", Expression::Immediate(Immediate::Integer(-600))),
        (
            "(fxadd1 60)",
            Expression::Call(Call::new(
                UnaryPrimitive::FxAdd1,
                Expression::Immediate(Immediate::Integer(60)),
            )),
        ),
        (
            "(fxsub1 5)",
            Expression::Call(Call::new(
                UnaryPrimitive::FxSub1,
                Expression::Immediate(Immediate::Integer(5)),
            )),
        ),
        (
            "(fxlognot 1)",
            Expression::Call(Call::new(
                UnaryPrimitive::FxLogNot,
                Expression::Immediate(Immediate::Integer(1)),
            )),
        ),
        (
            r"(char->fixnum #\a)",
            Expression::Call(Call::new(
                UnaryPrimitive::CharToFixnum,
                Expression::Immediate(Immediate::Character(b'a')),
            )),
        ),
        (
            "(fixnum->char 55)",
            Expression::Call(Call::new(
                UnaryPrimitive::FixnumToChar,
                Expression::Immediate(Immediate::Integer(55)),
            )),
        ),
        (
            "(fxzero? 0)",
            Expression::Call(Call::new(
                UnaryPrimitive::FixnumIsZero,
                Expression::Immediate(Immediate::Integer(0)),
            )),
        ),
        (
            "(null? ())",
            Expression::Call(Call::new(
                UnaryPrimitive::IsNull,
                Expression::Immediate(Immediate::Null),
            )),
        ),
        (
            "(not #t)",
            Expression::Call(Call::new(
                UnaryPrimitive::Not,
                Expression::Immediate(Immediate::Boolean(true)),
            )),
        ),
        (
            "(fixnum? 6)",
            Expression::Call(Call::new(
                UnaryPrimitive::IsFixnum,
                Expression::Immediate(Immediate::Integer(6)),
            )),
        ),
        (
            "(boolean? #f)",
            Expression::Call(Call::new(
                UnaryPrimitive::IsBoolean,
                Expression::Immediate(Immediate::Boolean(false)),
            )),
        ),
        (
            r"(char? #\z)",
            Expression::Call(Call::new(
                UnaryPrimitive::IsCharacter,
                Expression::Immediate(Immediate::Character(b'z')),
            )),
        ),
        (
            "(char? (fixnum->char (fxadd1 55)))",
            Expression::Call(Call::new(
                UnaryPrimitive::IsCharacter,
                Expression::Call(Call::new(
                    UnaryPrimitive::FixnumToChar,
                    Expression::Call(Call::new(
                        UnaryPrimitive::FxAdd1,
                        Expression::Immediate(Immediate::Integer(55)),
                    )),
                )),
            )),
        ),
    ];

    for (source, expected) in &cases {
        assert_eq!(&parse_source(source).unwrap(), expected);
    }
}

#[test]
fn failure() {
    let cases = [
        "(",
        "(fxadd1)",
        "(5 #t)",
        "(fxadd1 2) 5",
        "#f 45",
        "",
        " ",
        r"(hello #\a)",
    ];

    for source in &cases {
        assert!(parse_source(source).is_err());
    }
}

#[test]
fn unknown_operator_symbol() {
    assert!(matches!(
        UnaryPrimitive::from_symbol(b"fxadd1"),
        Ok(UnaryPrimitive::FxAdd1)
    ));
    assert!(matches!(
        UnaryPrimitive::from_symbol(b"char->fixnum"),
        Ok(UnaryPrimitive::CharToFixnum)
    ));
    assert!(UnaryPrimitive::from_symbol(b"hello").is_err());
    assert!(UnaryPrimitive::from_symbol(b"fxadd").is_err());
    assert!(UnaryPrimitive::from_symbol(b"").is_err());
}

#[test]
fn printed_form_round_trips() {
    let immediates = [
        Immediate::Null,
        Immediate::Boolean(true),
        Immediate::Boolean(false),
        Immediate::Character(b'a'),
        Immediate::Character(b'\n'),
        Immediate::Character(b'\r'),
        Immediate::Character(b' '),
        Immediate::Character(b'\t'),
        Immediate::Character(b'~'),
        Immediate::Integer(0),
        Immediate::Integer(42),
        Immediate::Integer(-7),
        Immediate::Integer(2147483647),
        Immediate::Integer(-2147483648),
    ];

    for imm in &immediates {
        let text = imm.to_text();
        let reparsed = parse(lex(text.as_slice()).as_slice()).unwrap();
        assert_eq!(reparsed, Expression::Immediate(*imm));
        match &reparsed {
            Expression::Immediate(i) => assert_eq!(i.to_text(), text),
            _ => panic!("parsed form is not an immediate"),
        }
    }
}

#[test]
fn expression_text() {
    let source = "(char? (fixnum->char (fxadd1 55)))";
    let expression = parse_source(source).unwrap();
    assert_eq!(expression.to_text(), source.as_bytes().to_vec());
}
