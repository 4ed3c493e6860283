use raytrace::chars::{Acceptor, LL1};
use raytrace::error::SyntaxErrorType;
use raytrace::lexer::tokenize;
use raytrace::location::Location;
use raytrace::number::is_float_literal;
use raytrace::token::{Token, TokenKind};

fn chars(s: &str) -> Vec<char> {
    s.chars().collect()
}

fn kinds(s: &str) -> Vec<TokenKind> {
    tokenize(chars(s)).tokens.iter().map(|t| t.kind()).collect()
}

#[test]
fn location_moves_by_column_and_row() {
    let mut l = Location::start();
    assert_eq!(l, Location { row: 1, col: 0 });
    l.next();
    l.next();
    assert_eq!(l, Location { row: 1, col: 2 });
    l.newline();
    assert_eq!(l, Location { row: 2, col: 0 });
    let mut m = Location { row: 7, col: 9 };
    m.set(&l);
    assert_eq!(m, l);
}

#[test]
fn ll1_peek_does_not_consume() {
    let mut s = LL1::new(chars("ab\nc"));
    assert_eq!(s.peek(), Some('a'));
    assert_eq!(s.peek(), Some('a'));
    assert_eq!(s.location(), Location { row: 1, col: 1 });
    assert_eq!(s.next(), Some('a'));
    assert_eq!(s.next(), Some('b'));
    assert_eq!(s.next(), Some('\n'));
    assert_eq!(s.location(), Location { row: 2, col: 0 });
    assert_eq!(s.next(), Some('c'));
    assert_eq!(s.next(), None);
    assert_eq!(s.peek(), None);
}

#[test]
fn acceptor_reads_by_predicate() {
    let mut a = Acceptor { iter: LL1::new(chars("   abc12 x")) };
    assert!(a.skip_while(|c| c == ' '));
    assert!(!a.skip_while(|c| c == ' '));
    assert_eq!(a.accept(|c| c == 'z'), None);
    assert_eq!(a.accept(|c| c == 'a'), Some('a'));
    let w = a.take_while(|c| c.is_ascii_alphanumeric());
    assert_eq!(w, chars("bc12"));
    assert_eq!(a.peek(), Some(' '));
    assert!(a.skip());
    assert_eq!(a.take(), Some('x'));
    assert!(!a.skip());
    assert_eq!(a.take(), None);
}

#[test]
fn float_literals() {
    for s in ["1", "1.", ".5", "-2.25", "+3e10", "1E-3", "6.02e+23", "inf", "-Infinity", "+NaN", "0.0"] {
        assert!(is_float_literal(&chars(s)), "{}", s);
        assert!(s.parse::<f64>().is_ok());
    }
    for s in ["", "-", ".", "1.2.3", "1e", "e5", "1e+", "--1", "1_000", "0x10", "1a", "infinit", "+-1"] {
        assert!(!is_float_literal(&chars(s)), "{}", s);
        assert!(s.parse::<f64>().is_err());
    }
}

#[test]
fn punctuation_identifiers_numbers() {
    assert_eq!(
        kinds("{ } [ ] ( ) : ,"),
        vec![
            TokenKind::LBrace,
            TokenKind::RBrace,
            TokenKind::LBracket,
            TokenKind::RBracket,
            TokenKind::LParen,
            TokenKind::RParen,
            TokenKind::Colon,
            TokenKind::Comma
        ]
    );
    let lexed = tokenize(chars("center: (1, -2.5, 3e2)"));
    assert!(lexed.error.is_none());
    let texts: Vec<String> = lexed
        .tokens
        .iter()
        .map(|t| match t {
            Token::Identifier(v) => format!("id:{}", v.iter().collect::<String>()),
            Token::Number(v) => format!("num:{}", v.iter().collect::<String>()),
            other => format!("{:?}", other.kind()),
        })
        .collect();
    assert_eq!(
        texts,
        vec!["id:center", "Colon", "LParen", "num:1", "Comma", "num:-2.5", "Comma", "num:3e2", "RParen"]
    );
}

#[test]
fn whitespace_of_all_kinds_separates_tokens() {
    assert_eq!(kinds(" \t\r\n{\u{a0}\u{2003}}\n"), vec![TokenKind::LBrace, TokenKind::RBrace]);
    let lexed = tokenize(chars(" \t\n  "));
    assert!(lexed.tokens.is_empty());
    assert!(lexed.error.is_none());
}

#[test]
fn comments_are_skipped() {
    assert_eq!(kinds("{ # a comment }\n}"), vec![TokenKind::LBrace, TokenKind::RBrace]);
    assert_eq!(kinds("( // line ) \n )"), vec![TokenKind::LParen, TokenKind::RParen]);
    assert_eq!(kinds("[ /* block ] */ ]"), vec![TokenKind::LBracket, TokenKind::RBracket]);
}

#[test]
fn locations_of_tokens() {
    let lexed = tokenize(chars("{\n  abc }"));
    assert_eq!(lexed.locations[0], Location { row: 1, col: 1 });
    // an identifier is ended by looking at the character after it
    assert_eq!(lexed.locations[1], Location { row: 2, col: 6 });
    assert_eq!(lexed.locations[2], Location { row: 2, col: 7 });
    assert_eq!(lexed.end, Location { row: 2, col: 7 });
}

#[test]
fn invalid_character_stops_tokens() {
    let lexed = tokenize(chars("{ @ }"));
    assert_eq!(lexed.tokens.len(), 1);
    let e = lexed.error.expect("error");
    assert!(matches!(e.etype, SyntaxErrorType::InvalidToken));
    assert_eq!(e.location, Location { row: 1, col: 3 });
    assert_eq!(lexed.end, e.location);
}

#[test]
fn lone_slash_and_open_comment_are_invalid() {
    let lexed = tokenize(chars("{ / }"));
    assert!(matches!(lexed.error.unwrap().etype, SyntaxErrorType::InvalidToken));
    let lexed = tokenize(chars("{ /* never closed"));
    assert_eq!(lexed.tokens.len(), 1);
    assert!(matches!(lexed.error.unwrap().etype, SyntaxErrorType::InvalidToken));
}

#[test]
fn invalid_number_is_reported_with_its_text() {
    let lexed = tokenize(chars("( 1.2.3 )"));
    assert_eq!(lexed.tokens.len(), 1);
    match lexed.error.unwrap().etype {
        SyntaxErrorType::InvalidNumber { num } => assert_eq!(num, chars("1.2.3")),
        other => panic!("unexpected {:?}", other),
    }
}
