use tvk::env::Env;
use tvk::lexer::{Token, TokenType};
use tvk::parser::Parser;
use tvk::virtual_key::VirtualKey;

// Helper to create a Name token
fn t_name(val: &str) -> Token {
    Token {
        token_type: TokenType::Name,
        value: val.to_string(),
    }
}

#[test]
fn test_parser_success() {
    let tokens = vec![
        Token {
            token_type: TokenType::LineHead,
            value: ":".into(),
        },
        Token {
            token_type: TokenType::Split,
            value: "|".into(),
        },
        t_name("Tab"),
        Token {
            token_type: TokenType::Split,
            value: "|".into(),
        },
        t_name("P"),
        Token {
            token_type: TokenType::Split,
            value: "|".into(),
        },
        Token {
            token_type: TokenType::LineTail,
            value: "-".into(),
        },
    ];

    let mut parser = Parser::new(tokens);
    let result = parser.parse(&mut Env::new()).unwrap();

    assert_eq!(result.layer.len(), 1);
    assert_eq!(result.layer[0][0].binds[0].0.as_str(), "Tab");
    assert_eq!(result.layer[0][0].binds[0].1, Some(VirtualKey::Tab));
    assert_eq!(result.layer[0][1].binds[0].0.as_str(), "P");
    assert_eq!(result.layer[0][1].binds[0].1, Some(VirtualKey::KeyP));
}

#[test]
fn test_parser_missing_split() {
    let tokens = vec![
        Token {
            token_type: TokenType::LineHead,
            value: ":".into(),
        },
        Token {
            token_type: TokenType::Split,
            value: "|".into(),
        },
        t_name("A"),
        t_name("B"),
        Token {
            token_type: TokenType::Split,
            value: "|".into(),
        },
        Token {
            token_type: TokenType::LineTail,
            value: "-".into(),
        },
    ];

    let mut parser = Parser::new(tokens);
    let result = parser.parse(&mut Env::new());
    assert!(result.is_err());
}

#[test]
fn test_parser_with_attr() {
    let tokens = vec![
        Token {
            token_type: TokenType::LineHead,
            value: ":".into(),
        },
        Token {
            token_type: TokenType::Split,
            value: "|".into(),
        },
        t_name("Tab"),
        Token {
            token_type: TokenType::LBracket,
            value: "[".into(),
        },
        Token {
            token_type: TokenType::Number,
            value: "10".into(),
        },
        Token {
            token_type: TokenType::RBracket,
            value: "]".into(),
        },
        Token {
            token_type: TokenType::Split,
            value: "|".into(),
        },
        t_name("P"),
        Token {
            token_type: TokenType::Split,
            value: "|".into(),
        },
        Token {
            token_type: TokenType::LineTail,
            value: "-".into(),
        },
    ];

    let mut parser = Parser::new(tokens);

    let result = parser.parse(&mut Env::new()).unwrap();
    assert_eq!(result.layer.len(), 1);
    assert_eq!(result.layer[0][0].binds[0].0.as_str(), "Tab");
    assert_eq!(result.layer[0][0].binds[0].1, Some(VirtualKey::Tab));
    assert_eq!(result.layer[0][0].attr.width, 10);
    assert_eq!(result.layer[0][1].binds[0].0.as_str(), "P");
    assert_eq!(result.layer[0][1].binds[0].1, Some(VirtualKey::KeyP));
    assert_eq!(result.layer[0][1].attr.width, 4);
}

#[test]
fn test_multi_binds() {
    let tokens = vec![
        Token {
            token_type: TokenType::LineHead,
            value: ":".into(),
        },
        Token {
            token_type: TokenType::Split,
            value: "|".into(),
        },
        t_name("A"),
        Token {
            token_type: TokenType::Comma,
            value: ",".into(),
        },
        t_name("C"),
        Token {
            token_type: TokenType::Comma,
            value: ",".into(),
        },
        t_name("D"),
        Token {
            token_type: TokenType::Split,
            value: "|".into(),
        },
        t_name("B"),
        Token {
            token_type: TokenType::Split,
            value: "|".into(),
        },
        Token {
            token_type: TokenType::LineTail,
            value: "-".into(),
        },
    ];

    let mut parser = Parser::new(tokens);

    let result = parser.parse(&mut Env::new()).unwrap();
    assert_eq!(result.layer.len(), 1);
    assert_eq!(
        result.layer[0][0].binds,
        [
            (String::from("A"), Some(VirtualKey::KeyA)),
            (String::from("C"), Some(VirtualKey::KeyC)),
            (String::from("D"), Some(VirtualKey::KeyD)),
        ]
    );
    assert_eq!(result.layer[0][1].binds[0].0.as_str(), "B");
    assert_eq!(result.layer[0][1].binds[0].1, Some(VirtualKey::KeyB));
    assert_eq!(result.layer[0][1].attr.width, 4);
}
