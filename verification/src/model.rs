//! The mathematical model of a scan: where each lexeme ends, what it yields,
//! and the token and error sequences of a whole source text.

use vstd::prelude::*;
use crate::scanner::ErrorView;
use crate::token_type::{LiteralView, TokenType, TokenView};

verus! {

/// The first index at or after `from` at which `src` holds `c`, or the
/// length of `src` if there is none.
pub open spec fn find_char(src: Seq<char>, from: int, c: char) -> int
    decreases src.len() - from,
{
    if from < 0 || from >= src.len() {
        src.len() as int
    } else if src[from] == c {
        from
    } else {
        find_char(src, from + 1, c)
    }
}

/// The number of newline characters among the first `pos` characters.
pub open spec fn newlines_before(src: Seq<char>, pos: int) -> nat
    decreases pos,
{
    if pos <= 0 || pos > src.len() {
        0
    } else if src[pos - 1] == '\n' {
        newlines_before(src, pos - 1) + 1
    } else {
        newlines_before(src, pos - 1)
    }
}

/// The 1-based line on which position `pos` lies.
pub open spec fn line_at(src: Seq<char>, pos: int) -> nat {
    1 + newlines_before(src, pos)
}

/// Passing one character moves to the next line exactly when the character
/// is a newline.
pub proof fn lemma_line_step(src: Seq<char>, pos: int)
    requires
        0 <= pos < src.len(),
    ensures
        line_at(src, pos + 1) == line_at(src, pos) + if src[pos] == '\n' {
            1nat
        } else {
            0nat
        },
{
}

/// There are no more newlines before a position than characters.
pub proof fn lemma_newlines_bounded(src: Seq<char>, pos: int)
    requires
        0 <= pos <= src.len(),
    ensures
        newlines_before(src, pos) <= pos,
    decreases pos,
{
    if pos > 0 {
        lemma_newlines_bounded(src, pos - 1);
    }
}

/// The kind of the token that `c` spells by itself, if it spells one.
pub open spec fn single_kind(c: char) -> Option<TokenType> {
    if c == '(' {
        Some(TokenType::LeftParen)
    } else if c == ')' {
        Some(TokenType::RightParen)
    } else if c == '{' {
        Some(TokenType::LeftBrace)
    } else if c == '}' {
        Some(TokenType::RightBrace)
    } else if c == ',' {
        Some(TokenType::Comma)
    } else if c == '.' {
        Some(TokenType::Dot)
    } else if c == '-' {
        Some(TokenType::Minus)
    } else if c == '+' {
        Some(TokenType::Plus)
    } else if c == ';' {
        Some(TokenType::Semicolon)
    } else if c == '*' {
        Some(TokenType::Star)
    } else if c == '/' {
        Some(TokenType::Slash)
    } else if c == '!' {
        Some(TokenType::Bang)
    } else if c == '=' {
        Some(TokenType::Equal)
    } else if c == '<' {
        Some(TokenType::Less)
    } else if c == '>' {
        Some(TokenType::Greater)
    } else {
        None
    }
}

/// The kind of the operator that `c` spells together with a following `=`,
/// if there is such an operator.
pub open spec fn paired_kind(c: char) -> Option<TokenType> {
    if c == '!' {
        Some(TokenType::BangEqual)
    } else if c == '=' {
        Some(TokenType::EqualEqual)
    } else if c == '<' {
        Some(TokenType::LessEqual)
    } else if c == '>' {
        Some(TokenType::GreaterEqual)
    } else {
        None
    }
}

/// Whether `c` is a character that is consumed without a token: a space, a
/// carriage return, a tab or a newline.
pub open spec fn is_blank(c: char) -> bool {
    c == ' ' || c == '\r' || c == '\t' || c == '\n'
}

/// Whether the character after position `pos` exists and is `c`.
pub open spec fn followed_by(src: Seq<char>, pos: int, c: char) -> bool {
    pos + 1 < src.len() && src[pos + 1] == c
}

/// Whether a two-character operator begins at `pos`.
pub open spec fn operator_pair_at(src: Seq<char>, pos: int) -> bool {
    paired_kind(src[pos]) is Some && followed_by(src, pos, '=')
}

/// Whether a line comment begins at `pos`.
pub open spec fn comment_at(src: Seq<char>, pos: int) -> bool {
    src[pos] == '/' && followed_by(src, pos, '/')
}

/// What one lexeme yields.
pub enum Lexeme {
    /// A token.
    Token(TokenView),
    /// An error, and no token.
    Error(ErrorView),
    /// Nothing: whitespace, a newline or a comment.
    Skipped,
}

/// The position just after the lexeme that begins at `pos`.
pub open spec fn lexeme_end(src: Seq<char>, pos: int) -> int
    recommends
        0 <= pos < src.len(),
{
    if operator_pair_at(src, pos) {
        pos + 2
    } else if comment_at(src, pos) {
        find_char(src, pos + 2, '\n')
    } else if src[pos] == '"' {
        let quote = find_char(src, pos + 1, '"');
        if quote < src.len() {
            quote + 1
        } else {
            src.len() as int
        }
    } else {
        pos + 1
    }
}

/// A token without a literal value, spelled by `src` from `start` to `end`.
pub open spec fn plain_token(kind: TokenType, src: Seq<char>, start: int, end: int) -> TokenView {
    TokenView {
        token_type: kind,
        lexeme: src.subrange(start, end),
        line: line_at(src, start),
        literal: None,
    }
}

/// The token of a string literal whose quotes stand at `start` and `quote`.
pub open spec fn string_token(src: Seq<char>, start: int, quote: int) -> TokenView {
    TokenView {
        token_type: TokenType::String,
        lexeme: src.subrange(start, quote + 1),
        line: line_at(src, start),
        literal: Some(LiteralView::Str(src.subrange(start + 1, quote))),
    }
}

/// What the lexeme that begins at `pos` yields.
pub open spec fn lexeme_at(src: Seq<char>, pos: int) -> Lexeme
    recommends
        0 <= pos < src.len(),
{
    let c = src[pos];
    if operator_pair_at(src, pos) {
        Lexeme::Token(plain_token(paired_kind(c)->0, src, pos, pos + 2))
    } else if comment_at(src, pos) {
        Lexeme::Skipped
    } else if single_kind(c) is Some {
        Lexeme::Token(plain_token(single_kind(c)->0, src, pos, pos + 1))
    } else if is_blank(c) {
        Lexeme::Skipped
    } else if c == '"' {
        let quote = find_char(src, pos + 1, '"');
        if quote < src.len() {
            Lexeme::Token(string_token(src, pos, quote))
        } else {
            Lexeme::Error(ErrorView::UnexpectedEOF(line_at(src, src.len() as int)))
        }
    } else {
        Lexeme::Error(ErrorView::UnexpectedChar(c, line_at(src, pos)))
    }
}

/// The end-of-input token of `src`: an empty lexeme on the last line.
pub open spec fn eof_token(src: Seq<char>) -> TokenView {
    TokenView {
        token_type: TokenType::Eof,
        lexeme: Seq::empty(),
        line: line_at(src, src.len() as int),
        literal: None,
    }
}

/// `find_char` stays within the text: its result lies between `from` and the
/// length, no character before it is `c`, and the character at it is.
pub proof fn lemma_find_char(src: Seq<char>, from: int, c: char)
    requires
        0 <= from <= src.len(),
    ensures
        from <= find_char(src, from, c) <= src.len(),
        find_char(src, from, c) < src.len() ==> src[find_char(src, from, c)] == c,
        forall|k: int| from <= k < find_char(src, from, c) ==> src[k] != c,
    decreases src.len() - from,
{
    if from < src.len() && src[from] != c {
        lemma_find_char(src, from + 1, c);
    }
}

/// Every lexeme is non-empty and ends within the text.
pub proof fn lemma_lexeme_end_bounds(src: Seq<char>, pos: int)
    requires
        0 <= pos < src.len(),
    ensures
        pos < lexeme_end(src, pos) <= src.len(),
{
    if operator_pair_at(src, pos) {
    } else if comment_at(src, pos) {
        lemma_find_char(src, pos + 2, '\n');
    } else if src[pos] == '"' {
        lemma_find_char(src, pos + 1, '"');
    }
}

/// The tokens that the text yields from position `pos` on, the end-of-input
/// token last. `pos` is the beginning of a lexeme.
pub open spec fn tokens_from(src: Seq<char>, pos: int) -> Seq<TokenView>
    decreases src.len() - pos,
    via tokens_from_decreases
{
    if pos < 0 || pos >= src.len() {
        seq![eof_token(src)]
    } else {
        let rest = tokens_from(src, lexeme_end(src, pos));
        match lexeme_at(src, pos) {
            Lexeme::Token(token) => seq![token] + rest,
            _ => rest,
        }
    }
}

#[via_fn]
proof fn tokens_from_decreases(src: Seq<char>, pos: int) {
    if 0 <= pos < src.len() {
        lemma_lexeme_end_bounds(src, pos);
    }
}

/// The errors that the text yields from position `pos` on. `pos` is the
/// beginning of a lexeme.
pub open spec fn errors_from(src: Seq<char>, pos: int) -> Seq<ErrorView>
    decreases src.len() - pos,
    via errors_from_decreases
{
    if pos < 0 || pos >= src.len() {
        Seq::empty()
    } else {
        let rest = errors_from(src, lexeme_end(src, pos));
        match lexeme_at(src, pos) {
            Lexeme::Error(error) => seq![error] + rest,
            _ => rest,
        }
    }
}

#[via_fn]
proof fn errors_from_decreases(src: Seq<char>, pos: int) {
    if 0 <= pos < src.len() {
        lemma_lexeme_end_bounds(src, pos);
    }
}

/// The positions at which the lexemes from `pos` on begin, in order. `pos`
/// is the beginning of a lexeme.
pub open spec fn lexeme_starts_from(src: Seq<char>, pos: int) -> Seq<int>
    decreases src.len() - pos,
    via lexeme_starts_from_decreases
{
    if pos < 0 || pos >= src.len() {
        Seq::empty()
    } else {
        seq![pos] + lexeme_starts_from(src, lexeme_end(src, pos))
    }
}

#[via_fn]
proof fn lexeme_starts_from_decreases(src: Seq<char>, pos: int) {
    if 0 <= pos < src.len() {
        lemma_lexeme_end_bounds(src, pos);
    }
}

/// The positions at which the lexemes of `src` begin, in order.
pub open spec fn lexeme_starts(src: Seq<char>) -> Seq<int> {
    lexeme_starts_from(src, 0)
}

/// What the lexemes from `pos` on yield, in order.
pub open spec fn lexemes_from(src: Seq<char>, pos: int) -> Seq<Lexeme> {
    lexeme_starts_from(src, pos).map_values(|start: int| lexeme_at(src, start))
}

/// What the lexemes of `src` yield, in order.
pub open spec fn lexemes(src: Seq<char>) -> Seq<Lexeme> {
    lexemes_from(src, 0)
}

/// The tokens among `lexemes`, in order.
pub open spec fn tokens_among(lexemes: Seq<Lexeme>) -> Seq<TokenView> {
    lexemes.filter(|l: Lexeme| l is Token).map_values(|l: Lexeme| l->Token_0)
}

/// The errors among `lexemes`, in order.
pub open spec fn errors_among(lexemes: Seq<Lexeme>) -> Seq<ErrorView> {
    lexemes.filter(|l: Lexeme| l is Error).map_values(|l: Lexeme| l->Error_0)
}

/// Every token of `src` in source order, then the end-of-input token.
pub open spec fn scanned_tokens(src: Seq<char>) -> Seq<TokenView> {
    tokens_from(src, 0)
}

/// Every lexical error of `src` in source order.
pub open spec fn scanned_errors(src: Seq<char>) -> Seq<ErrorView> {
    errors_from(src, 0)
}

/// What a scan of `src` returns: every token if there is no error, and
/// otherwise every error and no token.
pub open spec fn scan_result(src: Seq<char>) -> Result<Seq<TokenView>, Seq<ErrorView>> {
    if scanned_errors(src).len() == 0 {
        Ok(scanned_tokens(src))
    } else {
        Err(scanned_errors(src))
    }
}

} // verus!
