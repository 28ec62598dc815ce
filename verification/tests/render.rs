use script_scanner::scanner::{scan_tokens, ParsingError};
use script_scanner::text::{chars_of, text_of};
use script_scanner::token_type::{Literal, Token, TokenType};

fn rendered(source: &str) -> Vec<String> {
    let tokens = scan_tokens(String::from(source)).unwrap();
    tokens.iter().map(|token| token.render().unwrap()).collect()
}

#[test]
fn punctuation_renders_with_null_literal() {
    assert_eq!(
        rendered("(){}"),
        vec!["LEFT_PAREN ( null", "RIGHT_PAREN ) null", "LEFT_BRACE { null", "RIGHT_BRACE } null", "EOF  null"]
    );
}

#[test]
fn operators_render_under_their_names() {
    assert_eq!(
        rendered("<= < >= > == = != ! , . - + ; * /"),
        vec![
            "LESS_EQUAL <= null",
            "LESS < null",
            "GREATER_EQUAL >= null",
            "GREATER > null",
            "EQUAL_EQUAL == null",
            "EQUAL = null",
            "BANG_EQUAL != null",
            "BANG ! null",
            "COMMA , null",
            "DOT . null",
            "MINUS - null",
            "PLUS + null",
            "SEMICOLON ; null",
            "STAR * null",
            "SLASH / null",
            "EOF  null",
        ]
    );
}

#[test]
fn string_renders_with_its_value() {
    assert_eq!(rendered("\"hi\""), vec!["STRING \"hi\" hi", "EOF  null"]);
}

#[test]
fn identifier_renders_with_its_name() {
    let token = Token {
        token_type: TokenType::Identifier,
        lexeme: String::from("x"),
        line: 1,
        literal: Some(Literal::Identifier(String::from("x"))),
    };
    assert_eq!(token.render(), Some(String::from("IDENTIFIER x x")));
}

#[test]
fn number_is_not_rendered() {
    let token = Token {
        token_type: TokenType::Number,
        lexeme: String::from("1"),
        line: 1,
        literal: Some(Literal::Number(1.0f64.to_bits())),
    };
    assert_eq!(token.render(), None);
}

#[test]
fn every_kind_has_its_name() {
    let kinds = [
        (TokenType::LeftParen, "LEFT_PAREN"),
        (TokenType::RightParen, "RIGHT_PAREN"),
        (TokenType::LeftBrace, "LEFT_BRACE"),
        (TokenType::RightBrace, "RIGHT_BRACE"),
        (TokenType::Comma, "COMMA"),
        (TokenType::Dot, "DOT"),
        (TokenType::Minus, "MINUS"),
        (TokenType::Plus, "PLUS"),
        (TokenType::Semicolon, "SEMICOLON"),
        (TokenType::Slash, "SLASH"),
        (TokenType::Star, "STAR"),
        (TokenType::Bang, "BANG"),
        (TokenType::BangEqual, "BANG_EQUAL"),
        (TokenType::Equal, "EQUAL"),
        (TokenType::EqualEqual, "EQUAL_EQUAL"),
        (TokenType::Greater, "GREATER"),
        (TokenType::GreaterEqual, "GREATER_EQUAL"),
        (TokenType::Less, "LESS"),
        (TokenType::LessEqual, "LESS_EQUAL"),
        (TokenType::Identifier, "IDENTIFIER"),
        (TokenType::String, "STRING"),
        (TokenType::Number, "NUMBER"),
        (TokenType::And, "AND"),
        (TokenType::Class, "CLASS"),
        (TokenType::Else, "ELSE"),
        (TokenType::False, "FALSE"),
        (TokenType::Fun, "FUN"),
        (TokenType::For, "FOR"),
        (TokenType::If, "IF"),
        (TokenType::Nil, "NIL"),
        (TokenType::Or, "OR"),
        (TokenType::Print, "PRINT"),
        (TokenType::Return, "RETURN"),
        (TokenType::Super, "SUPER"),
        (TokenType::This, "THIS"),
        (TokenType::True, "TRUE"),
        (TokenType::Var, "VAR"),
        (TokenType::While, "WHILE"),
        (TokenType::Comments, "COMMENTS"),
        (TokenType::Eof, "EOF"),
    ];
    for (kind, name) in kinds {
        assert_eq!(kind.name(), name);
    }
    for (i, (_, a)) in kinds.iter().enumerate() {
        for (_, b) in kinds.iter().skip(i + 1) {
            assert_ne!(a, b);
        }
        assert!(a.chars().all(|c| c.is_ascii_uppercase() || c == '_'));
    }
}

#[test]
fn error_messages_and_lines() {
    let eof = ParsingError::UnexpectedEOF(3);
    assert_eq!(eof.message(), "Unterminated string.");
    assert_eq!(eof.line(), 3);
    let bad = ParsingError::UnexpectedChar('@', 7);
    assert_eq!(bad.message(), "Unexpected character: @");
    assert_eq!(bad.line(), 7);
}

#[test]
fn scanned_errors_render() {
    let errors = scan_tokens(String::from("\n$\n\"abc")).unwrap_err();
    let lines: Vec<String> =
        errors.iter().map(|e| format!("[line {}] Error: {}", e.line(), e.message())).collect();
    assert_eq!(
        lines,
        vec!["[line 2] Error: Unexpected character: $", "[line 3] Error: Unterminated string."]
    );
}

#[test]
fn characters_of_a_string() {
    assert_eq!(chars_of(""), Vec::<char>::new());
    assert_eq!(chars_of("a€b"), vec!['a', '€', 'b']);
}

#[test]
fn text_between_two_positions() {
    let chars = vec!['a', 'é', '€', 'd'];
    assert_eq!(text_of(&chars, 0, 4), "aé€d");
    assert_eq!(text_of(&chars, 1, 3), "é€");
    assert_eq!(text_of(&chars, 2, 2), "");
}
