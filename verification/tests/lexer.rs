use lumen_core::lexer::keyword_or_identifier;
use lumen_core::{lex, Arith, LexError, NumberRequest, Token, TokenKind};

fn compute(q: NumberRequest) -> u64 {
    match q {
        NumberRequest::Literal(text) => text.parse::<f64>().expect("a number literal").to_bits(),
        NumberRequest::Apply(op, a, b) => {
            let (a, b) = (f64::from_bits(a), f64::from_bits(b));
            let r = match op {
                Arith::Add => a + b,
                Arith::Sub => a - b,
                Arith::Mul => a * b,
                Arith::Div => a / b,
                Arith::Rem => a % b,
            };
            r.to_bits()
        }
    }
}

fn number(x: f64) -> TokenKind {
    TokenKind::Number(x.to_bits())
}


fn kinds(src: &str) -> Vec<TokenKind> {
    lex(src, &compute).unwrap().into_iter().map(|t| t.kind).collect()
}


#[test]
fn distinguishes_keywords_from_identifiers() {
    assert_eq!(
        kinds("var foo"),
        vec![
            TokenKind::Var,
            TokenKind::Identifier("foo".into()),
            TokenKind::Eof
        ]
    );
}

#[test]
fn lexes_numbers_including_decimals() {
    assert_eq!(kinds("42"), vec![number(42.0), TokenKind::Eof]);
    assert_eq!(kinds("2.5"), vec![number(2.5), TokenKind::Eof]);
}

#[test]
fn lexes_strings() {
    assert_eq!(
        kinds("\"hi\""),
        vec![TokenKind::Str("hi".into()), TokenKind::Eof]
    );
}

#[test]
fn skips_line_comments() {
    assert_eq!(
        kinds("1 // ignored\n2"),
        vec![number(1.0), number(2.0), TokenKind::Eof]
    );
}

#[test]
fn lexes_two_char_operators() {
    assert_eq!(
        kinds("== != <= >="),
        vec![
            TokenKind::EqEq,
            TokenKind::NotEq,
            TokenKind::LessEq,
            TokenKind::GreaterEq,
            TokenKind::Eof
        ]
    );
}

#[test]
fn lexes_arithmetic_operators() {
    assert_eq!(
        kinds("+ - * / %"),
        vec![
            TokenKind::Plus,
            TokenKind::Minus,
            TokenKind::Star,
            TokenKind::Slash,
            TokenKind::Percent,
            TokenKind::Eof
        ]
    );
}

#[test]
fn unterminated_string_is_error() {
    assert!(lex("\"abc", &compute).is_err());
}

#[test]
fn number_tokens_hold_their_value() {
    assert_eq!(kinds("3.14 7 007"), vec![number(3.14), number(7.0), number(7.0), TokenKind::Eof]);
    assert_eq!(kinds("1.0"), kinds("1.00"));
    assert_eq!(kinds("0.0"), kinds("0"));
    assert_eq!(
        lex("7.", &compute),
        Err(LexError { message: "unexpected character '.'".into(), line: 1, col: 2 })
    );
}

#[test]
fn tokens_carry_positions() {
    let tokens: Vec<Token> = lex("var x\n  = 10;", &compute).unwrap();
    let pos: Vec<(usize, usize)> = tokens.iter().map(|t| (t.line, t.col)).collect();
    assert_eq!(pos, vec![(1, 1), (1, 5), (2, 3), (2, 5), (2, 7), (2, 8)]);
}

#[test]
fn empty_source_is_just_eof() {
    let tokens = lex("", &compute).unwrap();
    assert_eq!(tokens.len(), 1);
    assert_eq!(tokens[0].kind, TokenKind::Eof);
    assert_eq!((tokens[0].line, tokens[0].col), (1, 1));
    assert_eq!(kinds("  // only a comment"), vec![TokenKind::Eof]);
}

#[test]
fn lex_errors_carry_position() {
    assert_eq!(
        lex("x = 1;\n  #", &compute),
        Err(LexError { message: "unexpected character '#'".into(), line: 2, col: 3 })
    );
    assert_eq!(
        lex("print \"abc", &compute),
        Err(LexError { message: "unterminated string".into(), line: 1, col: 7 })
    );
}

#[test]
fn unicode_identifiers_and_keywords() {
    assert_eq!(
        kinds("fn _x1 é and or nil true false if else while return print"),
        vec![
            TokenKind::Fn,
            TokenKind::Identifier("_x1".into()),
            TokenKind::Identifier("é".into()),
            TokenKind::And,
            TokenKind::Or,
            TokenKind::Nil,
            TokenKind::True,
            TokenKind::False,
            TokenKind::If,
            TokenKind::Else,
            TokenKind::While,
            TokenKind::Return,
            TokenKind::Print,
            TokenKind::Eof
        ]
    );
}

#[test]
fn single_and_paired_punctuation() {
    assert_eq!(
        kinds("(){},;=!<>"),
        vec![
            TokenKind::LParen,
            TokenKind::RParen,
            TokenKind::LBrace,
            TokenKind::RBrace,
            TokenKind::Comma,
            TokenKind::Semicolon,
            TokenKind::Eq,
            TokenKind::Bang,
            TokenKind::Less,
            TokenKind::Greater,
            TokenKind::Eof
        ]
    );
}

#[test]
fn strings_end_before_a_newline() {
    assert_eq!(
        lex("x \"a\nb\"", &compute),
        Err(LexError { message: "unterminated string".into(), line: 1, col: 3 })
    );
    let tokens = lex("\"a b\" x", &compute).unwrap();
    assert_eq!(tokens[0].kind, TokenKind::Str("a b".into()));
    assert_eq!((tokens[1].line, tokens[1].col), (1, 7));
}

#[test]
fn identifiers_continue_with_numeric_characters() {
    assert_eq!(kinds("x² a1_"), vec![
        TokenKind::Identifier("x²".into()),
        TokenKind::Identifier("a1_".into()),
        TokenKind::Eof
    ]);
    assert_eq!(
        lex("²", &compute),
        Err(LexError { message: "unexpected character '²'".into(), line: 1, col: 1 })
    );
}

#[test]
fn keywords_are_recognised_by_their_whole_text() {
    assert_eq!(keyword_or_identifier(&"while".to_string()), TokenKind::While);
    assert_eq!(keyword_or_identifier(&"whilst".to_string()), TokenKind::Identifier("whilst".into()));
    assert_eq!(keyword_or_identifier(&"Var".to_string()), TokenKind::Identifier("Var".into()));
}

#[test]
fn number_kinds_compare_as_doubles() {
    assert_eq!(number(0.0), number(-0.0));
    assert_ne!(number(f64::NAN), number(f64::NAN));
    assert_ne!(number(1.0), number(2.0));
    assert_ne!(number(1.0), TokenKind::Str("1".into()));
    assert_ne!(TokenKind::Identifier("a".into()), TokenKind::Identifier("b".into()));
    assert_eq!(TokenKind::Plus, TokenKind::Plus);
    assert_ne!(TokenKind::Plus, TokenKind::Minus);
}
