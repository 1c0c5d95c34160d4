use inc::lex::{lex, Token};
use inc::lex::Token::{
    Boolean, Character, Integer, LeftParenthesis, Null, RightParenthesis, Symbol, Unrecognized,
};

#[test]
fn immediates() {
    let cases: Vec<(&str, Token)> = vec![
        ("()", Null),
        ("#t", Boolean(true)),
        ("#f", Boolean(false)),
        (r"#\a", Character(b'a')),
        (r"#\z", Character(b'z')),
        (r"#\A", Character(b'A')),
        (r"#\Z", Character(b'Z')),
        (r"#\newline", Character(b'\n')),
        (r"#\return", Character(b'\r')),
        (r"#\space", Character(b' ')),
        (r"#\tab", Character(b'\t')),
        (r"#\[", Character(b'[')),
        (r"#\}", Character(b'}')),
        ("5", Integer(5)),
        ("+128", Integer(128)),
        ("-128", Integer(-128)),
        ("2147483647", Integer(2147483647)),
        ("-2147483648", Integer(-2147483648)),
    ];

    for (source, expected) in &cases {
        let tokens = lex(source.as_bytes());
        let (actual, _, _) = &tokens[0];

        assert_eq!(
            actual, expected,
            "source = {:?}, expected = {:?}, actual = {:?}",
            source, expected, actual
        );
    }
}

#[test]
fn full() {
    let source = r#"(let (a #f
                          b #t
                          c #\t
                          d #\tab
                          e 443
                          f foo
                          g ())
                      (+ +227 b c)
                      (- -119 e f)
                      (fixnum? #t))"#;
    let expected = vec![
        LeftParenthesis,
        Symbol(b"let".to_vec()),
        LeftParenthesis,
        Symbol(b"a".to_vec()),
        Boolean(false),
        Symbol(b"b".to_vec()),
        Boolean(true),
        Symbol(b"c".to_vec()),
        Character(b't'),
        Symbol(b"d".to_vec()),
        Character(b'\t'),
        Symbol(b"e".to_vec()),
        Integer(443),
        Symbol(b"f".to_vec()),
        Symbol(b"foo".to_vec()),
        Symbol(b"g".to_vec()),
        Null,
        RightParenthesis,
        LeftParenthesis,
        Symbol(b"+".to_vec()),
        Integer(227),
        Symbol(b"b".to_vec()),
        Symbol(b"c".to_vec()),
        RightParenthesis,
        LeftParenthesis,
        Symbol(b"-".to_vec()),
        Integer(-119),
        Symbol(b"e".to_vec()),
        Symbol(b"f".to_vec()),
        RightParenthesis,
        LeftParenthesis,
        Symbol(b"fixnum?".to_vec()),
        Boolean(true),
        RightParenthesis,
        RightParenthesis,
    ];
    let actual: Vec<Token> = lex(source.as_bytes()).into_iter().map(|(token, _, _)| token).collect();

    assert_eq!(actual, expected);
}

#[test]
fn tricky() {
    let cases: Vec<(&str, Vec<(Token, usize, usize)>)> = vec![
        (
            "(hello 5)  ",
            vec![
                (LeftParenthesis, 0, 1),
                (Symbol(b"hello".to_vec()), 1, 6),
                (Integer(5), 7, 8),
                (RightParenthesis, 8, 9),
            ],
        ),
        ("", vec![]),
        (" \n\t", vec![]),
        ("[[", vec![(Unrecognized, 0, 1), (Unrecognized, 1, 2)]),
        (
            "(not #c)",
            vec![
                (LeftParenthesis, 0, 1),
                (Symbol(b"not".to_vec()), 1, 4),
                (Unrecognized, 5, 7),
                (RightParenthesis, 7, 8),
            ],
        ),
        (
            "(foo bar",
            vec![
                (LeftParenthesis, 0, 1),
                (Symbol(b"foo".to_vec()), 1, 4),
                (Symbol(b"bar".to_vec()), 5, 8),
            ],
        ),
    ];

    for (source, expected) in &cases {
        let actual: Vec<(Token, usize, usize)> = lex(source.as_bytes());

        assert_eq!(&actual, expected);
    }
}

#[test]
fn integer_overflow_is_unrecognized() {
    let tokens = lex(b"2147483648");
    assert_eq!(tokens.len(), 1);
    assert_eq!(tokens[0].0, Unrecognized);

    let tokens = lex(b"-2147483649");
    assert_eq!(tokens.len(), 1);
    assert_eq!(tokens[0].0, Unrecognized);

    let tokens = lex(b"99999999999999999999");
    assert_eq!(tokens.len(), 1);
    assert_eq!(tokens[0].0, Unrecognized);
}
