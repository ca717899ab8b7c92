use tvk::lexer::{Lexer, Token, TokenType};

#[test]
fn simple_input() {
    let input = ":| A | '|' | 'P' | Back |-";

    let mut lexer = Lexer::new(input);
    let tokens: Vec<Token> = lexer.tokenization();

    let right_result = vec![
        Token {
            token_type: TokenType::LineHead,
            value: String::from(":"),
        },
        Token {
            token_type: TokenType::Split,
            value: String::from("|"),
        },
        Token {
            token_type: TokenType::Name,
            value: String::from("A"),
        },
        Token {
            token_type: TokenType::Split,
            value: String::from("|"),
        },
        Token {
            token_type: TokenType::Name,
            value: String::from("|"),
        },
        Token {
            token_type: TokenType::Split,
            value: String::from("|"),
        },
        Token {
            token_type: TokenType::Name,
            value: String::from("P"),
        },
        Token {
            token_type: TokenType::Split,
            value: String::from("|"),
        },
        Token {
            token_type: TokenType::Name,
            value: String::from("Back"),
        },
        Token {
            token_type: TokenType::Split,
            value: String::from("|"),
        },
        Token {
            token_type: TokenType::LineTail,
            value: String::from("-"),
        },
    ];

    assert_eq!(tokens, right_result);
}

#[test]
fn specify_length() {
    let input = ":| A | Back [$10] |-";

    let mut lexer = Lexer::new(input);
    let tokens: Vec<Token> = lexer.tokenization();

    let right_result = vec![
        Token {
            token_type: TokenType::LineHead,
            value: String::from(":"),
        },
        Token {
            token_type: TokenType::Split,
            value: String::from("|"),
        },
        Token {
            token_type: TokenType::Name,
            value: String::from("A"),
        },
        Token {
            token_type: TokenType::Split,
            value: String::from("|"),
        },
        Token {
            token_type: TokenType::Name,
            value: String::from("Back"),
        },
        Token {
            token_type: TokenType::LBracket,
            value: String::from("["),
        },
        Token {
            token_type: TokenType::Number,
            value: String::from("10"),
        },
        Token {
            token_type: TokenType::RBracket,
            value: String::from("]"),
        },
        Token {
            token_type: TokenType::Split,
            value: String::from("|"),
        },
        Token {
            token_type: TokenType::LineTail,
            value: String::from("-"),
        },
    ];

    assert_eq!(tokens, right_result);
}

#[test]
fn multi_binds() {
    let input = ":| A | B, C, D |-";

    let mut lexer = Lexer::new(input);
    let tokens: Vec<Token> = lexer.tokenization();

    let right_result = vec![
        Token {
            token_type: TokenType::LineHead,
            value: String::from(":"),
        },
        Token {
            token_type: TokenType::Split,
            value: String::from("|"),
        },
        Token {
            token_type: TokenType::Name,
            value: String::from("A"),
        },
        Token {
            token_type: TokenType::Split,
            value: String::from("|"),
        },
        Token {
            token_type: TokenType::Name,
            value: String::from("B"),
        },
        Token {
            token_type: TokenType::Comma,
            value: String::from(","),
        },
        Token {
            token_type: TokenType::Name,
            value: String::from("C"),
        },
        Token {
            token_type: TokenType::Comma,
            value: String::from(","),
        },
        Token {
            token_type: TokenType::Name,
            value: String::from("D"),
        },
        Token {
            token_type: TokenType::Split,
            value: String::from("|"),
        },
        Token {
            token_type: TokenType::LineTail,
            value: String::from("-"),
        },
    ];

    assert_eq!(tokens, right_result);
}

#[test]
fn assign() {
    let input = "#id = $10 \n#color = @($0, $0, $0)";

    let mut lexer = Lexer::new(input);
    let tokens: Vec<Token> = lexer.tokenization();

    let right_result = vec![
        Token {
            token_type: TokenType::Ident,
            value: String::from("id"),
        },
        Token {
            token_type: TokenType::Equal,
            value: String::from("="),
        },
        Token {
            token_type: TokenType::Number,
            value: String::from("10"),
        },
        Token {
            token_type: TokenType::Ident,
            value: String::from("color"),
        },
        Token {
            token_type: TokenType::Equal,
            value: String::from("="),
        },
        Token {
            token_type: TokenType::At,
            value: String::from("@"),
        },
        Token {
            token_type: TokenType::LParen,
            value: String::from("("),
        },
        Token {
            token_type: TokenType::Number,
            value: String::from("0"),
        },
        Token {
            token_type: TokenType::Comma,
            value: String::from(","),
        },
        Token {
            token_type: TokenType::Number,
            value: String::from("0"),
        },
        Token {
            token_type: TokenType::Comma,
            value: String::from(","),
        },
        Token {
            token_type: TokenType::Number,
            value: String::from("0"),
        },
        Token {
            token_type: TokenType::RParen,
            value: String::from(")"),
        },
    ];

    assert_eq!(tokens, right_result);
}
