use bimberz::parser::lexer::Lexer;
use bimberz::parser::token::{Token, TokenType};

#[test]
fn test1() {
    let code = "let x = 5;".chars().collect::<Vec<char>>();
    let mut lexer = Lexer::new(code.as_slice());

    assert_eq!(
        lexer.next_token().unwrap().unwrap(),
        Token::new(TokenType::Let, "let".to_string())
    );
    assert_eq!(
        lexer.next_token().unwrap().unwrap(),
        Token::new(TokenType::Identifier, "x".to_string())
    );
    assert_eq!(
        lexer.next_token().unwrap().unwrap(),
        Token::new(TokenType::Equals, "=".to_string())
    );
    assert_eq!(
        lexer.next_token().unwrap().unwrap(),
        Token::new(TokenType::Integer, "5".to_string())
    );
}

#[test]
fn lexes_every_keyword() {
    let code = "let true false print or and if else for in"
        .chars()
        .collect::<Vec<char>>();
    let mut lexer = Lexer::new(code.as_slice());
    let expected = [
        TokenType::Let,
        TokenType::True,
        TokenType::False,
        TokenType::Print,
        TokenType::Or,
        TokenType::And,
        TokenType::If,
        TokenType::Else,
        TokenType::For,
        TokenType::In,
    ];
    for e in expected {
        assert_eq!(lexer.next_token().unwrap().unwrap().token_type, e);
    }
    assert!(lexer.next_token().is_none());
}

#[test]
fn lexes_double_operators_eagerly() {
    let code = "== != <= >= .. = ! < > .".chars().collect::<Vec<char>>();
    let mut lexer = Lexer::new(code.as_slice());
    let expected = [
        (TokenType::EqualsEquals, "=="),
        (TokenType::BangEquals, "!="),
        (TokenType::LessEquals, "<="),
        (TokenType::GreaterEquals, ">="),
        (TokenType::DotDot, ".."),
        (TokenType::Equals, "="),
        (TokenType::Bang, "!"),
        (TokenType::Less, "<"),
        (TokenType::Greater, ">"),
        (TokenType::Dot, "."),
    ];
    for (ty, lexeme) in expected {
        let t = lexer.next_token().unwrap().unwrap();
        assert_eq!(t.token_type, ty);
        assert_eq!(t.lexeme, lexeme);
    }
    assert!(lexer.next_token().is_none());
}

#[test]
fn lexes_punctuation_and_arithmetic() {
    let code = "( ) [ ] { } , + - * /".chars().collect::<Vec<char>>();
    let mut lexer = Lexer::new(code.as_slice());
    let expected = [
        TokenType::LeftParen,
        TokenType::RightParen,
        TokenType::LeftSquareBracket,
        TokenType::RightSquareBracket,
        TokenType::LeftCurlyBracket,
        TokenType::RightCurlyBracket,
        TokenType::Comma,
        TokenType::Plus,
        TokenType::Minus,
        TokenType::Star,
        TokenType::Slash,
    ];
    for e in expected {
        assert_eq!(lexer.next_token().unwrap().unwrap().token_type, e);
    }
}

#[test]
fn newline_is_a_token_and_counts_lines() {
    let code = "a\nb\n".chars().collect::<Vec<char>>();
    let mut lexer = Lexer::new(code.as_slice());
    assert_eq!(
        lexer.next_token().unwrap().unwrap().token_type,
        TokenType::Identifier
    );
    assert_eq!(
        lexer.next_token().unwrap().unwrap().token_type,
        TokenType::Newline
    );
    assert_eq!(lexer.current_line, 1);
    assert_eq!(
        lexer.next_token().unwrap().unwrap().token_type,
        TokenType::Identifier
    );
    assert_eq!(
        lexer.next_token().unwrap().unwrap().token_type,
        TokenType::Newline
    );
    assert_eq!(lexer.current_line, 2);
    assert!(lexer.next_token().is_none());
}

#[test]
fn unknown_token_reports_the_character() {
    let code = "x ; y".chars().collect::<Vec<char>>();
    let mut lexer = Lexer::new(code.as_slice());
    assert_eq!(
        lexer.next_token().unwrap().unwrap().token_type,
        TokenType::Identifier
    );
    let err = lexer.next_token().unwrap().unwrap_err();
    assert_eq!(err.message, "Unknown token ';'");
    assert_eq!(
        lexer.next_token().unwrap().unwrap().token_type,
        TokenType::Identifier
    );
}

#[test]
fn number_then_identifier_splits_at_the_letter() {
    let code = "42x".chars().collect::<Vec<char>>();
    let mut lexer = Lexer::new(code.as_slice());
    let t = lexer.next_token().unwrap().unwrap();
    assert_eq!(t.token_type, TokenType::Integer);
    assert_eq!(t.lexeme, "42");
    let t = lexer.next_token().unwrap().unwrap();
    assert_eq!(t.token_type, TokenType::Identifier);
    assert_eq!(t.lexeme, "x");
    assert!(lexer.next_token().is_none());
}

#[test]
fn empty_and_blank_inputs_give_no_token() {
    let empty: Vec<char> = Vec::new();
    let mut lexer = Lexer::new(empty.as_slice());
    assert!(lexer.next_token().is_none());

    let blank = "   \t  ".chars().collect::<Vec<char>>();
    let mut lexer = Lexer::new(blank.as_slice());
    assert!(lexer.next_token().is_none());
}

#[test]
fn token_type_names_are_printable() {
    assert_eq!(TokenType::Integer.name(), "Integer");
    assert_eq!(TokenType::EqualsEquals.name(), "EqualsEquals");
    assert_eq!(TokenType::Let.name(), "Let");
    assert_eq!(TokenType::Newline.name(), "Newline");
}
