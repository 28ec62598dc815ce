//! The scanner: a character-driven state machine with one character of
//! lookahead.

use vstd::prelude::*;
use vstd::string::StringExecFns;
use crate::model::{
    errors_from, find_char, lemma_lexeme_end_bounds, lemma_line_step, lemma_newlines_bounded,
    lexeme_at, lexeme_end, line_at, scan_result, scanned_tokens, string_token, tokens_from, Lexeme,
};
use crate::text::{chars_of, text_of};
use crate::token_type::{literal_view, token_views, Literal, Token, TokenType, TokenView};

verus! {

/// A lexical error, with the line on which it was found.
#[derive(Debug, Clone, Copy, PartialEq, Eq, Structural)]
pub enum ParsingError {
    /// The input ended inside a string literal.
    UnexpectedEOF(usize),
    /// A character that no lexical rule accepts.
    UnexpectedChar(char, usize),
}

/// The mathematical value of a [`ParsingError`].
pub enum ErrorView {
    UnexpectedEOF(nat),
    UnexpectedChar(char, nat),
}

impl View for ParsingError {
    type V = ErrorView;

    open spec fn view(&self) -> ErrorView {
        match *self {
            ParsingError::UnexpectedEOF(line) => ErrorView::UnexpectedEOF(line as nat),
            ParsingError::UnexpectedChar(c, line) => ErrorView::UnexpectedChar(c, line as nat),
        }
    }
}

/// The line on which an error was found.
pub open spec fn error_line(error: ErrorView) -> nat {
    match error {
        ErrorView::UnexpectedEOF(line) => line,
        ErrorView::UnexpectedChar(_, line) => line,
    }
}

/// What an error says, without its line.
pub open spec fn error_message(error: ErrorView) -> Seq<char> {
    match error {
        ErrorView::UnexpectedEOF(_) => "Unterminated string."@,
        ErrorView::UnexpectedChar(c, _) => "Unexpected character: "@.push(c),
    }
}

impl ParsingError {
    /// The line on which the error was found.
    pub fn line(&self) -> (line: usize)
        ensures
            line == error_line(self@),
    {
        match *self {
            ParsingError::UnexpectedEOF(line) => line,
            ParsingError::UnexpectedChar(_, line) => line,
        }
    }

    /// What the error says, without its line.
    pub fn message(&self) -> (message: String)
        ensures
            message@ == error_message(self@),
    {
        match *self {
            ParsingError::UnexpectedEOF(_) => String::from_str("Unterminated string."),
            ParsingError::UnexpectedChar(c, _) => {
                let mut message = String::from_str("Unexpected character: ");
                message.push(c);
                message
            },
        }
    }
}

/// The views of a sequence of errors, in order.
pub open spec fn error_views(errors: Seq<ParsingError>) -> Seq<ErrorView> {
    Seq::new(errors.len(), |i: int| errors[i]@)
}

/// The state of one scan: the text, the cursor and the tokens found so far.
struct Scanner {
    source: Vec<char>,
    tokens: Vec<Token>,
    start: usize,
    current: usize,
    line: usize,
}

impl Scanner {
    /// The cursor lies within the text, and the text is short enough for
    /// every line number to fit.
    spec fn in_bounds(&self) -> bool {
        &&& self.start <= self.current <= self.source@.len()
        &&& self.source@.len() < usize::MAX
    }

    /// The scanner stands between two lexemes, and its line counter is one
    /// more than the number of newlines consumed.
    spec fn at_boundary(&self) -> bool {
        &&& self.in_bounds()
        &&& self.start == self.current
        &&& self.line == line_at(self.source@, self.current as int)
    }

    /// The views of the tokens found so far.
    spec fn found(&self) -> Seq<TokenView> {
        token_views(self.tokens@)
    }

    /// Whether `other` differs from `self` in the read position at most.
    spec fn same_but_current(&self, other: &Scanner) -> bool {
        &&& other.source == self.source
        &&& other.tokens == self.tokens
        &&& other.start == self.start
        &&& other.line == self.line
    }

    fn new(source: String) -> (scanner: Scanner)
        requires
            source@.len() < usize::MAX,
        ensures
            scanner.source@ == source@,
            scanner.tokens@.len() == 0,
            scanner.current == 0,
            scanner.line == 1,
            scanner.at_boundary(),
    {
        Scanner { source: chars_of(source.as_str()), tokens: Vec::new(), start: 0, current: 0, line: 1 }
    }

    /// Consumes the next character and returns it.
    fn next(&mut self) -> (c: char)
        requires
            old(self).in_bounds(),
            old(self).current < old(self).source@.len(),
        ensures
            c == old(self).source@[old(self).current as int],
            final(self).current == old(self).current + 1,
            old(self).same_but_current(final(self)),
    {
        let a = self.source[self.current];
        self.current += 1;
        a
    }

    fn is_at_end(&self) -> (at_end: bool)
        ensures
            at_end == (self.current >= self.source@.len()),
    {
        self.current >= self.source.len()
    }

    /// The next character, not consumed; the NUL character at the end of
    /// the text.
    fn peek(&self) -> (c: char)
        ensures
            c == if self.current < self.source@.len() {
                self.source@[self.current as int]
            } else {
                '\0'
            },
    {
        if self.is_at_end() {
            '\0'
        } else {
            self.source[self.current]
        }
    }

    /// Consumes the next character if there is one and it is `c`, and says
    /// whether it did.
    fn next_match(&mut self, c: char) -> (matched: bool)
        requires
            old(self).in_bounds(),
        ensures
            matched == (old(self).current < old(self).source@.len()
                && old(self).source@[old(self).current as int] == c),
            final(self).current == if matched {
                old(self).current + 1
            } else {
                old(self).current as int
            },
            old(self).same_but_current(final(self)),
    {
        if !self.is_at_end() && self.peek() == c {
            self.current += 1;
            true
        } else {
            false
        }
    }

    /// Appends a token without a literal value for the current lexeme.
    fn token(&mut self, token: TokenType)
        requires
            old(self).in_bounds(),
        ensures
            final(self).found() == old(self).found().push(
                TokenView {
                    token_type: token,
                    lexeme: old(self).source@.subrange(
                        old(self).start as int,
                        old(self).current as int,
                    ),
                    line: old(self).line as nat,
                    literal: None,
                },
            ),
            final(self).source == old(self).source,
            final(self).start == old(self).start,
            final(self).current == old(self).current,
            final(self).line == old(self).line,
    {
        let line = self.line;
        self.token_with_literal(token, None, line)
    }

    /// Appends a token for the current lexeme, with the line on which the
    /// lexeme began.
    fn token_with_literal(&mut self, token: TokenType, literal: Option<Literal>, line: usize)
        requires
            old(self).in_bounds(),
        ensures
            final(self).found() == old(self).found().push(
                TokenView {
                    token_type: token,
                    lexeme: old(self).source@.subrange(
                        old(self).start as int,
                        old(self).current as int,
                    ),
                    line: line as nat,
                    literal: literal_view(literal),
                },
            ),
            final(self).source == old(self).source,
            final(self).start == old(self).start,
            final(self).current == old(self).current,
            final(self).line == old(self).line,
    {
        let to_lex = text_of(&self.source, self.start, self.current);
        let t = Token { token_type: token, literal, line, lexeme: to_lex };
        self.tokens.push(t);
        assert(self.found() =~= old(self).found().push(t@));
    }

    /// Scans the rest of a string literal, the opening quote of which was
    /// just consumed. Escape sequences are not interpreted: the next quote
    /// ends the literal.
    fn string(&mut self) -> (result: Result<(), ParsingError>)
        requires
            old(self).in_bounds(),
            old(self).current == old(self).start + 1,
            old(self).source@[old(self).start as int] == '"',
            old(self).line == line_at(old(self).source@, old(self).current as int),
        ensures
            final(self).in_bounds(),
            final(self).source == old(self).source,
            final(self).start == old(self).start,
            final(self).line == line_at(final(self).source@, final(self).current as int),
            ({
                let src = old(self).source@;
                let quote = find_char(src, old(self).current as int, '"');
                if quote < src.len() {
                    &&& result is Ok
                    &&& final(self).current == quote + 1
                    &&& final(self).found() == old(self).found().push(
                        string_token(src, old(self).start as int, quote),
                    )
                } else {
                    &&& result == Err::<(), ParsingError>(
                        ParsingError::UnexpectedEOF(final(self).line),
                    )
                    &&& final(self).current == src.len()
                    &&& final(self).found() == old(self).found()
                }
            }),
    {
        let ghost src = self.source@;
        let ghost from = self.current as int;
        let line = self.line;
        while self.peek() != '"' && !self.is_at_end()
            invariant
                self.in_bounds(),
                self.source@ == src,
                self.source == old(self).source,
                self.tokens == old(self).tokens,
                self.start == old(self).start,
                from <= self.current,
                self.line == line_at(src, self.current as int),
                find_char(src, self.current as int, '"') == find_char(src, from, '"'),
            decreases self.source@.len() - self.current,
        {
            if self.peek() == '\n' {
                proof {
                    lemma_newlines_bounded(src, self.current as int);
                }
                self.line += 1;
            }
            self.next();
        }

        if self.is_at_end() {
            return Err(ParsingError::UnexpectedEOF(self.line));
        }
        self.next();  // consume the ending quote

        let value = text_of(&self.source, self.start + 1, self.current - 1);
        self.token_with_literal(TokenType::String, Some(Literal::Str(value)), line);
        Ok(())
    }

    /// Scans one lexeme: appends its token, returns its error, or skips it.
    fn next_token(&mut self) -> (result: Result<(), ParsingError>)
        requires
            old(self).at_boundary(),
            old(self).current < old(self).source@.len(),
        ensures
            final(self).at_boundary(),
            final(self).source == old(self).source,
            final(self).current == lexeme_end(old(self).source@, old(self).current as int),
            match lexeme_at(old(self).source@, old(self).current as int) {
                Lexeme::Token(token) => {
                    &&& result is Ok
                    &&& final(self).found() == old(self).found().push(token)
                },
                Lexeme::Error(error) => {
                    &&& result is Err
                    &&& result->Err_0@ == error
                    &&& final(self).found() == old(self).found()
                },
                Lexeme::Skipped => {
                    &&& result is Ok
                    &&& final(self).found() == old(self).found()
                },
            },
    {
        let ghost src = self.source@;
        let ghost pos = self.current as int;
        let c = self.next();
        proof {
            lemma_line_step(src, pos);
            if pos + 1 < src.len() {
                lemma_line_step(src, pos + 1);
            }
        }
        let mut err: Option<ParsingError> = None;
        match c {
            '(' => self.token(TokenType::LeftParen),
            ')' => self.token(TokenType::RightParen),
            '{' => self.token(TokenType::LeftBrace),
            '}' => self.token(TokenType::RightBrace),
            ',' => self.token(TokenType::Comma),
            '.' => self.token(TokenType::Dot),
            '-' => self.token(TokenType::Minus),
            '+' => self.token(TokenType::Plus),
            ';' => self.token(TokenType::Semicolon),
            '*' => self.token(TokenType::Star),
            '<' => {
                if self.next_match('=') {
                    self.token(TokenType::LessEqual)
                } else {
                    self.token(TokenType::Less)
                }
            },
            '>' => {
                if self.next_match('=') {
                    self.token(TokenType::GreaterEqual)
                } else {
                    self.token(TokenType::Greater)
                }
            },
            '!' => {
                if self.next_match('=') {
                    self.token(TokenType::BangEqual)
                } else {
                    self.token(TokenType::Bang)
                }
            },
            '=' => {
                if self.next_match('=') {
                    self.token(TokenType::EqualEqual)
                } else {
                    self.token(TokenType::Equal)
                }
            },
            '/' => {
                if self.next_match('/') {
                    while self.peek() != '\n' && !self.is_at_end()
                        invariant
                            self.in_bounds(),
                            self.source@ == src,
                            self.source == old(self).source,
                            self.tokens == old(self).tokens,
                            self.start == old(self).start,
                            pos + 2 <= self.current,
                            self.line == line_at(src, self.current as int),
                            find_char(src, self.current as int, '\n') == find_char(
                                src,
                                pos + 2,
                                '\n',
                            ),
                        decreases self.source@.len() - self.current,
                    {
                        self.next();
                    }
                } else {
                    self.token(TokenType::Slash)
                }
            },
            ' ' | '\r' | '\t' => {},
            '\n' => {
                proof {
                    lemma_newlines_bounded(src, pos);
                }
                self.line += 1;
            },
            '"' => {
                if let Err(e) = self.string() {
                    err = Some(e);
                }
            },
            _ => {
                err = Some(ParsingError::UnexpectedChar(c, self.line));
            },
        };
        self.start = self.current;
        if let Some(e) = err {
            Err(e)
        } else {
            Ok(())
        }
    }

    /// Scans every lexeme from the read position to the end of the text,
    /// then appends the end-of-input token.
    fn scan_tokens(&mut self) -> (result: Result<(), Vec<ParsingError>>)
        requires
            old(self).at_boundary(),
        ensures
            final(self).source == old(self).source,
            final(self).found() == old(self).found() + tokens_from(
                old(self).source@,
                old(self).current as int,
            ),
            match result {
                Ok(_) => errors_from(old(self).source@, old(self).current as int).len() == 0,
                Err(errors) => {
                    &&& errors@.len() > 0
                    &&& error_views(errors@) == errors_from(
                        old(self).source@,
                        old(self).current as int,
                    )
                },
            },
    {
        let ghost src = self.source@;
        let ghost from = self.current as int;
        let mut errors: Vec<ParsingError> = Vec::new();
        assert(error_views(errors@) + errors_from(src, from) =~= errors_from(src, from));
        while !self.is_at_end()
            invariant
                self.at_boundary(),
                self.source == old(self).source,
                self.source@ == src,
                self.found() + tokens_from(src, self.current as int) == old(self).found()
                    + tokens_from(src, from),
                error_views(errors@) + errors_from(src, self.current as int) == errors_from(
                    src,
                    from,
                ),
            decreases self.source@.len() - self.current,
        {
            let ghost pos = self.current as int;
            let ghost found = self.found();
            let ghost seen = error_views(errors@);
            proof {
                lemma_lexeme_end_bounds(src, pos);
            }
            if let Err(e) = self.next_token() {
                errors.push(e);
                assert(error_views(errors@) =~= seen.push(e@));
                assert(seen.push(e@) + errors_from(src, self.current as int) =~= seen + (seq![e@]
                    + errors_from(src, self.current as int)));
            }
            assert(self.found() + tokens_from(src, self.current as int) =~= found + tokens_from(
                src,
                pos,
            ));
        }
        let ghost found = self.found();
        self.tokens.push(
            Token {
                token_type: TokenType::Eof,
                lexeme: String::new(),
                line: self.line,
                literal: None,
            },
        );
        assert(self.found() =~= found + tokens_from(src, src.len() as int));
        if errors.len() > 0 {
            Err(errors)
        } else {
            Ok(())
        }
    }
}

/// Scans `source` in one pass.
///
/// Returns every token in source order, the end-of-input token last, if the
/// text holds no lexical error; otherwise every error in source order, and
/// no token.
///
/// The text has fewer than `usize::MAX` characters, so that every line
/// number fits in a `usize`; every string that memory can hold has.
pub fn scan_tokens(source: String) -> (result: Result<Vec<Token>, Vec<ParsingError>>)
    requires
        source@.len() < usize::MAX,
    ensures
        match result {
            Ok(tokens) => scan_result(source@) == Ok::<Seq<TokenView>, Seq<ErrorView>>(
                token_views(tokens@),
            ),
            Err(errors) => scan_result(source@) == Err::<Seq<TokenView>, Seq<ErrorView>>(
                error_views(errors@),
            ),
        },
{
    let mut scanner = Scanner::new(source);
    match scanner.scan_tokens() {
        Ok(_) => {
            assert(scanner.found() =~= scanned_tokens(source@));
            Ok(scanner.tokens)
        },
        Err(errors) => Err(errors),
    }
}

} // verus!
