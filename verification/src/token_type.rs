//! Tokens, their kinds and the values carried by literal tokens.

use vstd::prelude::*;
use vstd::string::StringExecFns;

verus! {

/// The closed set of token kinds.
#[derive(Debug, Clone, Copy, PartialEq, Eq, Structural)]
pub enum TokenType {
    // Single-character tokens.
    LeftParen,
    RightParen,
    LeftBrace,
    RightBrace,
    Comma,
    Dot,
    Minus,
    Plus,
    Semicolon,
    Slash,
    Star,
    // One or two character tokens.
    Bang,
    BangEqual,
    Equal,
    EqualEqual,
    Greater,
    GreaterEqual,
    Less,
    LessEqual,
    // Literals.
    Identifier,
    String,
    Number,
    // Keywords.
    And,
    Class,
    Else,
    False,
    Fun,
    For,
    If,
    Nil,
    Or,
    Print,
    Return,
    Super,
    This,
    True,
    Var,
    While,
    Comments,
    Eof,
}

/// The decoded value of a literal token.
///
/// A number is held as the bit pattern of its IEEE 754 binary64 value.
#[derive(Debug, Clone, PartialEq, Eq)]
pub enum Literal {
    Identifier(String),
    Str(String),
    Number(u64),
}

/// One recognized lexeme.
#[derive(Debug, Clone, PartialEq, Eq)]
pub struct Token {
    pub token_type: TokenType,
    pub lexeme: String,
    pub line: usize,
    pub literal: Option<Literal>,
}

/// The mathematical value of a [`Literal`].
pub enum LiteralView {
    Identifier(Seq<char>),
    Str(Seq<char>),
    Number(u64),
}

/// The mathematical value of a [`Token`].
pub struct TokenView {
    pub token_type: TokenType,
    pub lexeme: Seq<char>,
    pub line: nat,
    pub literal: Option<LiteralView>,
}

impl View for Literal {
    type V = LiteralView;

    open spec fn view(&self) -> LiteralView {
        match *self {
            Literal::Identifier(s) => LiteralView::Identifier(s@),
            Literal::Str(s) => LiteralView::Str(s@),
            Literal::Number(bits) => LiteralView::Number(bits),
        }
    }
}

/// The view of an optional literal.
pub open spec fn literal_view(literal: Option<Literal>) -> Option<LiteralView> {
    match literal {
        Some(l) => Some(l@),
        None => None,
    }
}

impl View for Token {
    type V = TokenView;

    open spec fn view(&self) -> TokenView {
        TokenView {
            token_type: self.token_type,
            lexeme: self.lexeme@,
            line: self.line as nat,
            literal: literal_view(self.literal),
        }
    }
}

/// The views of a sequence of tokens, in order.
pub open spec fn token_views(tokens: Seq<Token>) -> Seq<TokenView> {
    Seq::new(tokens.len(), |i: int| tokens[i]@)
}

/// The symbolic name under which a token kind is rendered.
pub open spec fn symbolic_name(kind: TokenType) -> Seq<char> {
    match kind {
        TokenType::LeftParen => "LEFT_PAREN"@,
        TokenType::RightParen => "RIGHT_PAREN"@,
        TokenType::LeftBrace => "LEFT_BRACE"@,
        TokenType::RightBrace => "RIGHT_BRACE"@,
        TokenType::Comma => "COMMA"@,
        TokenType::Dot => "DOT"@,
        TokenType::Minus => "MINUS"@,
        TokenType::Plus => "PLUS"@,
        TokenType::Semicolon => "SEMICOLON"@,
        TokenType::Slash => "SLASH"@,
        TokenType::Star => "STAR"@,
        TokenType::Bang => "BANG"@,
        TokenType::BangEqual => "BANG_EQUAL"@,
        TokenType::Equal => "EQUAL"@,
        TokenType::EqualEqual => "EQUAL_EQUAL"@,
        TokenType::Greater => "GREATER"@,
        TokenType::GreaterEqual => "GREATER_EQUAL"@,
        TokenType::Less => "LESS"@,
        TokenType::LessEqual => "LESS_EQUAL"@,
        TokenType::Identifier => "IDENTIFIER"@,
        TokenType::String => "STRING"@,
        TokenType::Number => "NUMBER"@,
        TokenType::And => "AND"@,
        TokenType::Class => "CLASS"@,
        TokenType::Else => "ELSE"@,
        TokenType::False => "FALSE"@,
        TokenType::Fun => "FUN"@,
        TokenType::For => "FOR"@,
        TokenType::If => "IF"@,
        TokenType::Nil => "NIL"@,
        TokenType::Or => "OR"@,
        TokenType::Print => "PRINT"@,
        TokenType::Return => "RETURN"@,
        TokenType::Super => "SUPER"@,
        TokenType::This => "THIS"@,
        TokenType::True => "TRUE"@,
        TokenType::Var => "VAR"@,
        TokenType::While => "WHILE"@,
        TokenType::Comments => "COMMENTS"@,
        TokenType::Eof => "EOF"@,
    }
}

/// Whether `c` may stand in a symbolic name: a capital letter or `_`.
pub open spec fn is_name_char(c: char) -> bool {
    ('A' <= c && c <= 'Z') || c == '_'
}

/// Every symbolic name is a non-empty word of capital letters and `_`.
pub proof fn lemma_names_are_upper_case(kind: TokenType)
    ensures
        symbolic_name(kind).len() > 0,
        forall|i: int|
            0 <= i < symbolic_name(kind).len() ==> is_name_char(#[trigger] symbolic_name(kind)[i]),
{
    match kind {
        TokenType::LeftParen => {
            reveal_strlit("LEFT_PAREN");
        },
        TokenType::RightParen => {
            reveal_strlit("RIGHT_PAREN");
        },
        TokenType::LeftBrace => {
            reveal_strlit("LEFT_BRACE");
        },
        TokenType::RightBrace => {
            reveal_strlit("RIGHT_BRACE");
        },
        TokenType::Comma => {
            reveal_strlit("COMMA");
        },
        TokenType::Dot => {
            reveal_strlit("DOT");
        },
        TokenType::Minus => {
            reveal_strlit("MINUS");
        },
        TokenType::Plus => {
            reveal_strlit("PLUS");
        },
        TokenType::Semicolon => {
            reveal_strlit("SEMICOLON");
        },
        TokenType::Slash => {
            reveal_strlit("SLASH");
        },
        TokenType::Star => {
            reveal_strlit("STAR");
        },
        TokenType::Bang => {
            reveal_strlit("BANG");
        },
        TokenType::BangEqual => {
            reveal_strlit("BANG_EQUAL");
        },
        TokenType::Equal => {
            reveal_strlit("EQUAL");
        },
        TokenType::EqualEqual => {
            reveal_strlit("EQUAL_EQUAL");
        },
        TokenType::Greater => {
            reveal_strlit("GREATER");
        },
        TokenType::GreaterEqual => {
            reveal_strlit("GREATER_EQUAL");
        },
        TokenType::Less => {
            reveal_strlit("LESS");
        },
        TokenType::LessEqual => {
            reveal_strlit("LESS_EQUAL");
        },
        TokenType::Identifier => {
            reveal_strlit("IDENTIFIER");
        },
        TokenType::String => {
            reveal_strlit("STRING");
        },
        TokenType::Number => {
            reveal_strlit("NUMBER");
        },
        TokenType::And => {
            reveal_strlit("AND");
        },
        TokenType::Class => {
            reveal_strlit("CLASS");
        },
        TokenType::Else => {
            reveal_strlit("ELSE");
        },
        TokenType::False => {
            reveal_strlit("FALSE");
        },
        TokenType::Fun => {
            reveal_strlit("FUN");
        },
        TokenType::For => {
            reveal_strlit("FOR");
        },
        TokenType::If => {
            reveal_strlit("IF");
        },
        TokenType::Nil => {
            reveal_strlit("NIL");
        },
        TokenType::Or => {
            reveal_strlit("OR");
        },
        TokenType::Print => {
            reveal_strlit("PRINT");
        },
        TokenType::Return => {
            reveal_strlit("RETURN");
        },
        TokenType::Super => {
            reveal_strlit("SUPER");
        },
        TokenType::This => {
            reveal_strlit("THIS");
        },
        TokenType::True => {
            reveal_strlit("TRUE");
        },
        TokenType::Var => {
            reveal_strlit("VAR");
        },
        TokenType::While => {
            reveal_strlit("WHILE");
        },
        TokenType::Comments => {
            reveal_strlit("COMMENTS");
        },
        TokenType::Eof => {
            reveal_strlit("EOF");
        },
    }
}

/// Different kinds have different symbolic names: they differ in length, in
/// the first character or in the last.
pub proof fn lemma_names_are_distinct(a: TokenType, b: TokenType)
    requires
        a != b,
    ensures
        symbolic_name(a) != symbolic_name(b),
{
    reveal_strlit("LEFT_PAREN");
    reveal_strlit("RIGHT_PAREN");
    reveal_strlit("LEFT_BRACE");
    reveal_strlit("RIGHT_BRACE");
    reveal_strlit("COMMA");
    reveal_strlit("DOT");
    reveal_strlit("MINUS");
    reveal_strlit("PLUS");
    reveal_strlit("SEMICOLON");
    reveal_strlit("SLASH");
    reveal_strlit("STAR");
    reveal_strlit("BANG");
    reveal_strlit("BANG_EQUAL");
    reveal_strlit("EQUAL");
    reveal_strlit("EQUAL_EQUAL");
    reveal_strlit("GREATER");
    reveal_strlit("GREATER_EQUAL");
    reveal_strlit("LESS");
    reveal_strlit("LESS_EQUAL");
    reveal_strlit("IDENTIFIER");
    reveal_strlit("STRING");
    reveal_strlit("NUMBER");
    reveal_strlit("AND");
    reveal_strlit("CLASS");
    reveal_strlit("ELSE");
    reveal_strlit("FALSE");
    reveal_strlit("FUN");
    reveal_strlit("FOR");
    reveal_strlit("IF");
    reveal_strlit("NIL");
    reveal_strlit("OR");
    reveal_strlit("PRINT");
    reveal_strlit("RETURN");
    reveal_strlit("SUPER");
    reveal_strlit("THIS");
    reveal_strlit("TRUE");
    reveal_strlit("VAR");
    reveal_strlit("WHILE");
    reveal_strlit("COMMENTS");
    reveal_strlit("EOF");
    let x = symbolic_name(a);
    let y = symbolic_name(b);
    assert(x.len() != y.len() || x[0] != y[0] || x.last() != y.last());
}

impl TokenType {
    /// The symbolic name of the kind.
    pub fn name(&self) -> (name: &'static str)
        ensures
            name@ == symbolic_name(*self),
    {
        match *self {
            TokenType::LeftParen => "LEFT_PAREN",
            TokenType::RightParen => "RIGHT_PAREN",
            TokenType::LeftBrace => "LEFT_BRACE",
            TokenType::RightBrace => "RIGHT_BRACE",
            TokenType::Comma => "COMMA",
            TokenType::Dot => "DOT",
            TokenType::Minus => "MINUS",
            TokenType::Plus => "PLUS",
            TokenType::Semicolon => "SEMICOLON",
            TokenType::Slash => "SLASH",
            TokenType::Star => "STAR",
            TokenType::Bang => "BANG",
            TokenType::BangEqual => "BANG_EQUAL",
            TokenType::Equal => "EQUAL",
            TokenType::EqualEqual => "EQUAL_EQUAL",
            TokenType::Greater => "GREATER",
            TokenType::GreaterEqual => "GREATER_EQUAL",
            TokenType::Less => "LESS",
            TokenType::LessEqual => "LESS_EQUAL",
            TokenType::Identifier => "IDENTIFIER",
            TokenType::String => "STRING",
            TokenType::Number => "NUMBER",
            TokenType::And => "AND",
            TokenType::Class => "CLASS",
            TokenType::Else => "ELSE",
            TokenType::False => "FALSE",
            TokenType::Fun => "FUN",
            TokenType::For => "FOR",
            TokenType::If => "IF",
            TokenType::Nil => "NIL",
            TokenType::Or => "OR",
            TokenType::Print => "PRINT",
            TokenType::Return => "RETURN",
            TokenType::Super => "SUPER",
            TokenType::This => "THIS",
            TokenType::True => "TRUE",
            TokenType::Var => "VAR",
            TokenType::While => "WHILE",
            TokenType::Comments => "COMMENTS",
            TokenType::Eof => "EOF",
        }
    }
}

/// The text that stands for a literal value in a rendered token: `null`
/// where there is none, and the value of a string or of an identifier. The
/// text of a number is a floating-point rendering, which is not given here.
pub open spec fn literal_text(literal: Option<LiteralView>) -> Option<Seq<char>> {
    match literal {
        None => Some("null"@),
        Some(LiteralView::Identifier(name)) => Some(name),
        Some(LiteralView::Str(value)) => Some(value),
        Some(LiteralView::Number(_)) => None,
    }
}

/// A token rendered on one line: its symbolic name, its lexeme and the text
/// of its literal value, with one space between them.
pub open spec fn rendered(token: TokenView) -> Option<Seq<char>> {
    match literal_text(token.literal) {
        Some(text) => Some(
            symbolic_name(token.token_type) + seq![' '] + token.lexeme + seq![' '] + text,
        ),
        None => None,
    }
}

impl Token {
    /// Renders the token on one line, as in `LEFT_PAREN ( null`; `None` for
    /// a token that carries a number.
    pub fn render(&self) -> (line: Option<String>)
        ensures
            match line {
                Some(text) => rendered(self@) == Some(text@),
                None => rendered(self@) is None,
            },
    {
        let mut line = String::from_str(self.token_type.name());
        line.push(' ');
        line.append(self.lexeme.as_str());
        line.push(' ');
        match &self.literal {
            None => {
                line.append("null");
            },
            Some(Literal::Identifier(name)) => {
                line.append(name.as_str());
            },
            Some(Literal::Str(value)) => {
                line.append(value.as_str());
            },
            Some(Literal::Number(_)) => {
                return None;
            },
        }
        assert(line@ =~= rendered(self@)->0);
        Some(line)
    }
}

} // verus!
