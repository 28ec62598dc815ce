use script_scanner::scanner::{scan_tokens, ParsingError};
use script_scanner::token_type::{Literal, Token, TokenType};

fn plain(token_type: TokenType, lexeme: &str, line: usize) -> Token {
    Token { token_type, lexeme: String::from(lexeme), line, literal: None }
}

fn eof(line: usize) -> Token {
    plain(TokenType::Eof, "", line)
}

fn text(lexeme: &str, value: &str, line: usize) -> Token {
    Token {
        token_type: TokenType::String,
        lexeme: String::from(lexeme),
        line,
        literal: Some(Literal::Str(String::from(value))),
    }
}

fn tokens_of(source: &str) -> Vec<Token> {
    match scan_tokens(String::from(source)) {
        Ok(tokens) => tokens,
        Err(errors) => panic!("unexpected errors: {:?}", errors),
    }
}

fn errors_of(source: &str) -> Vec<ParsingError> {
    match scan_tokens(String::from(source)) {
        Ok(tokens) => panic!("unexpected tokens: {:?}", tokens),
        Err(errors) => errors,
    }
}

#[test]
fn empty_text_is_one_eof() {
    assert_eq!(tokens_of(""), vec![eof(1)]);
}

#[test]
fn parens_and_braces() {
    assert_eq!(
        tokens_of("(){}"),
        vec![
            plain(TokenType::LeftParen, "(", 1),
            plain(TokenType::RightParen, ")", 1),
            plain(TokenType::LeftBrace, "{", 1),
            plain(TokenType::RightBrace, "}", 1),
            eof(1),
        ]
    );
}

#[test]
fn every_single_character_token() {
    assert_eq!(
        tokens_of("(){},.-+;*/!=<>"),
        vec![
            plain(TokenType::LeftParen, "(", 1),
            plain(TokenType::RightParen, ")", 1),
            plain(TokenType::LeftBrace, "{", 1),
            plain(TokenType::RightBrace, "}", 1),
            plain(TokenType::Comma, ",", 1),
            plain(TokenType::Dot, ".", 1),
            plain(TokenType::Minus, "-", 1),
            plain(TokenType::Plus, "+", 1),
            plain(TokenType::Semicolon, ";", 1),
            plain(TokenType::Star, "*", 1),
            plain(TokenType::Slash, "/", 1),
            plain(TokenType::BangEqual, "!=", 1),
            plain(TokenType::Less, "<", 1),
            plain(TokenType::Greater, ">", 1),
            eof(1),
        ]
    );
}

#[test]
fn comment_yields_no_token() {
    assert_eq!(tokens_of("// comment\n+"), vec![plain(TokenType::Plus, "+", 2), eof(2)]);
}

#[test]
fn comment_runs_to_end_of_input() {
    assert_eq!(tokens_of("+// no newline"), vec![plain(TokenType::Plus, "+", 1), eof(1)]);
}

#[test]
fn comment_stops_before_newline() {
    assert_eq!(
        tokens_of("// a // b\n// c\n*"),
        vec![plain(TokenType::Star, "*", 3), eof(3)]
    );
}

#[test]
fn slash_alone_is_a_token() {
    assert_eq!(
        tokens_of("/ /"),
        vec![plain(TokenType::Slash, "/", 1), plain(TokenType::Slash, "/", 1), eof(1)]
    );
}

#[test]
fn bang_equal_then_bang() {
    assert_eq!(
        tokens_of("!=!"),
        vec![plain(TokenType::BangEqual, "!=", 1), plain(TokenType::Bang, "!", 1), eof(1)]
    );
}

#[test]
fn less_equal_is_one_token() {
    assert_eq!(tokens_of("<="), vec![plain(TokenType::LessEqual, "<=", 1), eof(1)]);
}

#[test]
fn two_character_operators_are_maximal() {
    assert_eq!(
        tokens_of("== >= <= != ="),
        vec![
            plain(TokenType::EqualEqual, "==", 1),
            plain(TokenType::GreaterEqual, ">=", 1),
            plain(TokenType::LessEqual, "<=", 1),
            plain(TokenType::BangEqual, "!=", 1),
            plain(TokenType::Equal, "=", 1),
            eof(1),
        ]
    );
}

#[test]
fn three_equals_are_pair_then_single() {
    assert_eq!(
        tokens_of("==="),
        vec![plain(TokenType::EqualEqual, "==", 1), plain(TokenType::Equal, "=", 1), eof(1)]
    );
}

#[test]
fn operator_before_end_of_input() {
    assert_eq!(tokens_of("<"), vec![plain(TokenType::Less, "<", 1), eof(1)]);
    assert_eq!(tokens_of(">"), vec![plain(TokenType::Greater, ">", 1), eof(1)]);
    assert_eq!(tokens_of("!"), vec![plain(TokenType::Bang, "!", 1), eof(1)]);
    assert_eq!(tokens_of("="), vec![plain(TokenType::Equal, "=", 1), eof(1)]);
}

#[test]
fn string_literal() {
    assert_eq!(tokens_of("\"hi\""), vec![text("\"hi\"", "hi", 1), eof(1)]);
}

#[test]
fn empty_string_literal() {
    assert_eq!(tokens_of("\"\""), vec![text("\"\"", "", 1), eof(1)]);
}

#[test]
fn string_literal_holds_comment_and_operators() {
    assert_eq!(
        tokens_of("\"// <= @\"+"),
        vec![text("\"// <= @\"", "// <= @", 1), plain(TokenType::Plus, "+", 1), eof(1)]
    );
}

#[test]
fn multi_line_string_is_on_the_line_it_begins() {
    assert_eq!(
        tokens_of("+\n\"a\nb\n\"\n-"),
        vec![
            plain(TokenType::Plus, "+", 1),
            text("\"a\nb\n\"", "a\nb\n", 2),
            plain(TokenType::Minus, "-", 5),
            eof(5),
        ]
    );
}

#[test]
fn backslash_does_not_escape_a_quote() {
    assert_eq!(
        errors_of("\"a\\\"b\""),
        vec![ParsingError::UnexpectedChar('b', 1), ParsingError::UnexpectedEOF(1)]
    );
}

#[test]
fn unterminated_string() {
    assert_eq!(errors_of("\"unterminated"), vec![ParsingError::UnexpectedEOF(1)]);
}

#[test]
fn unterminated_string_reports_the_last_line() {
    assert_eq!(errors_of("(\n\"abc\n\ndef"), vec![ParsingError::UnexpectedEOF(4)]);
}

#[test]
fn lone_quote_is_unterminated() {
    assert_eq!(errors_of("\""), vec![ParsingError::UnexpectedEOF(1)]);
}

#[test]
fn unexpected_character() {
    assert_eq!(errors_of("@"), vec![ParsingError::UnexpectedChar('@', 1)]);
}

#[test]
fn each_unexpected_character_is_reported() {
    assert_eq!(
        errors_of("@#$"),
        vec![
            ParsingError::UnexpectedChar('@', 1),
            ParsingError::UnexpectedChar('#', 1),
            ParsingError::UnexpectedChar('$', 1),
        ]
    );
}

#[test]
fn errors_carry_their_lines() {
    assert_eq!(
        errors_of("(\n@\n\n#)"),
        vec![ParsingError::UnexpectedChar('@', 2), ParsingError::UnexpectedChar('#', 4)]
    );
}

#[test]
fn one_error_hides_every_token() {
    assert_eq!(errors_of("(){}+-*/ @ ;"), vec![ParsingError::UnexpectedChar('@', 1)]);
}

#[test]
fn letters_and_digits_are_unexpected() {
    assert_eq!(
        errors_of("a1"),
        vec![ParsingError::UnexpectedChar('a', 1), ParsingError::UnexpectedChar('1', 1)]
    );
}

#[test]
fn nul_character_is_unexpected() {
    assert_eq!(errors_of("\0"), vec![ParsingError::UnexpectedChar('\0', 1)]);
    assert_eq!(
        errors_of("<\0"),
        vec![ParsingError::UnexpectedChar('\0', 1)]
    );
}

#[test]
fn multi_byte_characters_are_single_steps() {
    assert_eq!(
        errors_of("é(€"),
        vec![ParsingError::UnexpectedChar('é', 1), ParsingError::UnexpectedChar('€', 1)]
    );
    assert_eq!(
        tokens_of("\"héllo €\"+"),
        vec![text("\"héllo €\"", "héllo €", 1), plain(TokenType::Plus, "+", 1), eof(1)]
    );
}

#[test]
fn whitespace_only_is_one_eof() {
    assert_eq!(tokens_of(" \t\r "), vec![eof(1)]);
}

#[test]
fn whitespace_and_comments_only_is_one_eof() {
    assert_eq!(tokens_of("  // one\n\t// two // three\n\r\n//"), vec![eof(4)]);
}

#[test]
fn eof_line_counts_every_newline() {
    assert_eq!(tokens_of("\n\n\n"), vec![eof(4)]);
    assert_eq!(tokens_of("+\n"), vec![plain(TokenType::Plus, "+", 1), eof(2)]);
}

#[test]
fn lines_never_decrease() {
    let tokens = tokens_of("(\n)\n\n\"a\nb\" // c\n{ }\n");
    let lines: Vec<usize> = tokens.iter().map(|t| t.line).collect();
    assert_eq!(lines, vec![1, 2, 4, 6, 6, 7]);
    for pair in lines.windows(2) {
        assert!(pair[0] <= pair[1]);
    }
}

#[test]
fn lexemes_spell_the_text_without_blanks_and_comments() {
    let source = "( ) // gone\n{\t}\r\n!= \"s t\" <";
    let spelled: String = tokens_of(source).iter().map(|t| t.lexeme.as_str()).collect();
    assert_eq!(spelled, "(){}!=\"s t\"<");
}

#[test]
fn carriage_return_is_no_newline() {
    assert_eq!(tokens_of("\r+\r"), vec![plain(TokenType::Plus, "+", 1), eof(1)]);
}
