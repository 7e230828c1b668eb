use fbx_lexer::lexer::Lexer;
use fbx_lexer::token::Token;
use fbx_lexer::token::TokenType;

#[test]
fn test_read_char() {
    let content = String::from("Lorem Ipsum");
    let lexer = Lexer::new(&content);
    assert_eq!(
        lexer,
        Lexer { input: &content, position: 0, read_position: 1, ch: Some('L') }
    );

    let lexer = lexer.read_char();
    assert_eq!(
        lexer,
        Lexer { input: &content, position: 1, read_position: 2, ch: Some('o') }
    );
}

#[test]
fn test_eat_whitespace() {
    let content = String::from(" \n \t \r Lorem Ipsum");
    let lexer = Lexer::new(&content);

    let lexer = lexer.eat_whitespace();
    assert_eq!(
        lexer,
        Lexer { input: &content, position: 7, read_position: 8, ch: Some('L') }
    );
}

#[test]
fn test_literal() {
    let content = r#"
            ;test comment 1
            ;test comment 2
            TestType: {
                TestSubType: "Test Property"
            }"#
        .to_string();
    let mut lexer = Lexer::new(&content);

    let desired_results = [
        Token { token_type: TokenType::Ident, literal: "TestType".to_string() },
        Token { token_type: TokenType::Colon, literal: ":".to_string() },
        Token { token_type: TokenType::LeftBrace, literal: "{".to_string() },
        Token { token_type: TokenType::Ident, literal: "TestSubType".to_string() },
        Token { token_type: TokenType::Colon, literal: ":".to_string() },
        Token { token_type: TokenType::String, literal: "\"Test Property\"".to_string() },
        Token { token_type: TokenType::RightBrace, literal: "}".to_string() },
        Token { token_type: TokenType::EndOfInput, literal: "".to_string() },
    ];

    for desired_result in desired_results {
        let (new_l, token) = lexer.next_token();
        lexer = new_l;
        assert_eq!(desired_result, token);
    }
}

#[test]
fn test_malformed_string() {
    let content = r#"TestType: {
                TestSubType: "Malformed String
            }"#;

    let mut lexer = Lexer::new(&content);

    let reached_invalid = loop {
        let (new_l, token) = lexer.next_token();
        match token.token_type {
            TokenType::Invalid => break true,
            TokenType::EndOfInput => break false,
            _ => lexer = new_l,
        }
    };

    assert!(reached_invalid);
}

#[test]
fn test_numeric() {
    let content = r#"
        TestType: {
            TestSubTypeOne: 100, 0, 0
            TestSubTypeTwo: 100.0
        }
        "#;

    let mut lexer = Lexer::new(&content);

    let desired_results = [
        Token { token_type: TokenType::Ident, literal: "TestType".to_string() },
        Token { token_type: TokenType::Colon, literal: ":".to_string() },
        Token { token_type: TokenType::LeftBrace, literal: "{".to_string() },
        Token { token_type: TokenType::Ident, literal: "TestSubTypeOne".to_string() },
        Token { token_type: TokenType::Colon, literal: ":".to_string() },
        Token { token_type: TokenType::Numeric, literal: "100".to_string() },
        Token { token_type: TokenType::Comma, literal: ",".to_string() },
        Token { token_type: TokenType::Numeric, literal: "0".to_string() },
        Token { token_type: TokenType::Comma, literal: ",".to_string() },
        Token { token_type: TokenType::Numeric, literal: "0".to_string() },
        Token { token_type: TokenType::Ident, literal: "TestSubTypeTwo".to_string() },
        Token { token_type: TokenType::Colon, literal: ":".to_string() },
        Token { token_type: TokenType::Numeric, literal: "100.0".to_string() },
        Token { token_type: TokenType::RightBrace, literal: "}".to_string() },
        Token { token_type: TokenType::EndOfInput, literal: "".to_string() },
    ];

    for desired_result in desired_results {
        let (new_l, token) = lexer.next_token();
        lexer = new_l;
        println!("{:?}", token);
        assert_eq!(desired_result, token);
    }
}

#[test]
fn test_malformed_number() {
    let content = r#"1.000_"#;

    let lexer = Lexer::new(&content);

    let (_, token) = lexer.next_token();
    assert_eq!(
        token,
        Token { token_type: TokenType::Invalid, literal: "malformed number".to_string() }
    )
}

#[test]
fn test_comment_only_input() {
    let content = " \t ;first comment\n;second comment";
    let lexer = Lexer::new(&content);

    let (lexer, token) = lexer.next_token();
    assert_eq!(
        token,
        Token { token_type: TokenType::EndOfInput, literal: "".to_string() }
    );

    let (_, token) = lexer.next_token();
    assert_eq!(token.token_type, TokenType::EndOfInput);
}

#[test]
fn test_whitespace_only_input() {
    let content = " \n \t \r ";
    let lexer = Lexer::new(&content);

    let (_, token) = lexer.next_token();
    assert_eq!(
        token,
        Token { token_type: TokenType::EndOfInput, literal: "".to_string() }
    );
}

#[test]
fn test_empty_input() {
    let lexer = Lexer::new("");

    let (_, token) = lexer.next_token();
    assert_eq!(
        token,
        Token { token_type: TokenType::EndOfInput, literal: "".to_string() }
    );
}

#[test]
fn test_punctuation_round_trip() {
    let cases = [
        (":", TokenType::Colon),
        ("{", TokenType::LeftBrace),
        ("}", TokenType::RightBrace),
        (",", TokenType::Comma),
    ];

    for (text, expected_type) in cases {
        let lexer = Lexer::new(text);
        let (_, token) = lexer.next_token();
        assert_eq!(
            token,
            Token { token_type: expected_type, literal: text.to_string() }
        );
    }
}

#[test]
fn test_end_of_input_idempotent() {
    let content = "}";
    let lexer = Lexer::new(&content);

    let (lexer, token) = lexer.next_token();
    assert_eq!(token.token_type, TokenType::RightBrace);

    let (lexer, token) = lexer.next_token();
    assert_eq!(
        token,
        Token { token_type: TokenType::EndOfInput, literal: "".to_string() }
    );

    let (_, token) = lexer.next_token();
    assert_eq!(
        token,
        Token { token_type: TokenType::EndOfInput, literal: "".to_string() }
    );
}

#[test]
fn test_invalid_character() {
    let content = "_ }";
    let lexer = Lexer::new(&content);

    let (lexer, token) = lexer.next_token();
    assert_eq!(
        token,
        Token { token_type: TokenType::Invalid, literal: "'_' is invalid".to_string() }
    );

    let (_, token) = lexer.next_token();
    assert_eq!(token.token_type, TokenType::RightBrace);
}

#[test]
fn test_number_at_end_of_input() {
    let content = "TestSubType: 42";
    let mut lexer = Lexer::new(&content);

    let desired_results = [
        Token { token_type: TokenType::Ident, literal: "TestSubType".to_string() },
        Token { token_type: TokenType::Colon, literal: ":".to_string() },
        Token { token_type: TokenType::Numeric, literal: "42".to_string() },
        Token { token_type: TokenType::EndOfInput, literal: "".to_string() },
    ];

    for desired_result in desired_results {
        let (new_l, token) = lexer.next_token();
        lexer = new_l;
        assert_eq!(desired_result, token);
    }
}

#[test]
fn test_permissive_numeric_bodies() {
    let content = "-12.5, 1.2.3 - ";
    let mut lexer = Lexer::new(&content);

    let desired_results = [
        Token { token_type: TokenType::Numeric, literal: "-12.5".to_string() },
        Token { token_type: TokenType::Comma, literal: ",".to_string() },
        Token { token_type: TokenType::Numeric, literal: "1.2.3".to_string() },
        Token { token_type: TokenType::Numeric, literal: "-".to_string() },
        Token { token_type: TokenType::EndOfInput, literal: "".to_string() },
    ];

    for desired_result in desired_results {
        let (new_l, token) = lexer.next_token();
        lexer = new_l;
        assert_eq!(desired_result, token);
    }
}

#[test]
fn test_empty_quoted_string() {
    let content = "\"\"";
    let lexer = Lexer::new(&content);

    let (_, token) = lexer.next_token();
    assert_eq!(
        token,
        Token { token_type: TokenType::String, literal: "\"\"".to_string() }
    );
}

#[test]
fn test_malformed_string_terminates_stream() {
    let content = "\"never closed";
    let lexer = Lexer::new(&content);

    let (lexer, token) = lexer.next_token();
    assert_eq!(
        token,
        Token { token_type: TokenType::Invalid, literal: "malformed string".to_string() }
    );

    let (_, token) = lexer.next_token();
    assert_eq!(token.token_type, TokenType::EndOfInput);
}

#[test]
fn test_consume_line_returns_comment_text() {
    let content = ";a comment\nrest";
    let lexer = Lexer::new(&content);

    let (lexer, comment) = lexer.consume_line();
    assert_eq!(comment, "a comment".to_string());
    assert_eq!(lexer.ch, Some('\n'));

    let (_, token) = lexer.next_token();
    assert_eq!(
        token,
        Token { token_type: TokenType::Ident, literal: "rest".to_string() }
    );
}

#[test]
fn test_peek_char() {
    let content = "ab";
    let lexer = Lexer::new(&content);
    assert_eq!(lexer.peek_char(), Some('b'));

    let lexer = lexer.read_char();
    assert_eq!(lexer.peek_char(), None);
}
