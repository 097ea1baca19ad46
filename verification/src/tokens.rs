//! The alphabet of the parser: tokens and their measures.

use vstd::prelude::*;
use crate::text::utf8_len;
use crate::types::number::{number_len, NumberView};
use crate::types::Number;

verus! {

/// One lexical unit of the source text.
#[derive(Debug, PartialEq)]
pub enum Token {
    Ident(String),
    StringLiteral(String),
    Unknown(String),
    Number(Number),
    Pipe,
    TypeAnnotator,
    Comma,
    Period,
    FuncOpen,
    FuncClose,
    Assignment,
    Return,
    Addition,
    Subtraction,
    Multiplication,
    Division,
    Mod,
    Power,
    ParenthOpen,
    ParenthClose,
    Not,
    Equality,
    GreaterThan,
    LessThan,
    GreaterEqual,
    LessEqual,
    Whitespace,
    Newline,
    Indent(usize),
}

/// Mathematical value of a [`Token`].
pub enum TokenView {
    Ident(Seq<char>),
    StringLiteral(Seq<char>),
    Unknown(Seq<char>),
    Number(NumberView),
    Pipe,
    TypeAnnotator,
    Comma,
    Period,
    FuncOpen,
    FuncClose,
    Assignment,
    Return,
    Addition,
    Subtraction,
    Multiplication,
    Division,
    Mod,
    Power,
    ParenthOpen,
    ParenthClose,
    Not,
    Equality,
    GreaterThan,
    LessThan,
    GreaterEqual,
    LessEqual,
    Whitespace,
    Newline,
    Indent(usize),
}

impl View for Token {
    type V = TokenView;

    open spec fn view(&self) -> TokenView {
        match self {
            Token::Ident(s) => TokenView::Ident(s@),
            Token::StringLiteral(s) => TokenView::StringLiteral(s@),
            Token::Unknown(s) => TokenView::Unknown(s@),
            Token::Number(n) => TokenView::Number(n@),
            Token::Pipe => TokenView::Pipe,
            Token::TypeAnnotator => TokenView::TypeAnnotator,
            Token::Comma => TokenView::Comma,
            Token::Period => TokenView::Period,
            Token::FuncOpen => TokenView::FuncOpen,
            Token::FuncClose => TokenView::FuncClose,
            Token::Assignment => TokenView::Assignment,
            Token::Return => TokenView::Return,
            Token::Addition => TokenView::Addition,
            Token::Subtraction => TokenView::Subtraction,
            Token::Multiplication => TokenView::Multiplication,
            Token::Division => TokenView::Division,
            Token::Mod => TokenView::Mod,
            Token::Power => TokenView::Power,
            Token::ParenthOpen => TokenView::ParenthOpen,
            Token::ParenthClose => TokenView::ParenthClose,
            Token::Not => TokenView::Not,
            Token::Equality => TokenView::Equality,
            Token::GreaterThan => TokenView::GreaterThan,
            Token::LessThan => TokenView::LessThan,
            Token::GreaterEqual => TokenView::GreaterEqual,
            Token::LessEqual => TokenView::LessEqual,
            Token::Whitespace => TokenView::Whitespace,
            Token::Newline => TokenView::Newline,
            Token::Indent(level) => TokenView::Indent(*level),
        }
    }
}

impl Clone for Token {
    fn clone(&self) -> (copy: Token)
        ensures
            copy@ == self@,
    {
        match self {
            Token::Ident(s) => Token::Ident(s.clone()),
            Token::StringLiteral(s) => Token::StringLiteral(s.clone()),
            Token::Unknown(s) => Token::Unknown(s.clone()),
            Token::Number(n) => Token::Number(n.clone()),
            Token::Pipe => Token::Pipe,
            Token::TypeAnnotator => Token::TypeAnnotator,
            Token::Comma => Token::Comma,
            Token::Period => Token::Period,
            Token::FuncOpen => Token::FuncOpen,
            Token::FuncClose => Token::FuncClose,
            Token::Assignment => Token::Assignment,
            Token::Return => Token::Return,
            Token::Addition => Token::Addition,
            Token::Subtraction => Token::Subtraction,
            Token::Multiplication => Token::Multiplication,
            Token::Division => Token::Division,
            Token::Mod => Token::Mod,
            Token::Power => Token::Power,
            Token::ParenthOpen => Token::ParenthOpen,
            Token::ParenthClose => Token::ParenthClose,
            Token::Not => Token::Not,
            Token::Equality => Token::Equality,
            Token::GreaterThan => Token::GreaterThan,
            Token::LessThan => Token::LessThan,
            Token::GreaterEqual => Token::GreaterEqual,
            Token::LessEqual => Token::LessEqual,
            Token::Whitespace => Token::Whitespace,
            Token::Newline => Token::Newline,
            Token::Indent(level) => Token::Indent(*level),
        }
    }
}

/// The views of a token stream, each with its column.
pub open spec fn token_views(tokens: Seq<(Token, usize)>) -> Seq<(TokenView, int)> {
    Seq::new(tokens.len(), |i: int| (tokens[i].0@, tokens[i].1 as int))
}

impl TokenView {
    /// Whitespace, newline and indentation separate syntactic elements and
    /// are otherwise skipped.
    pub open spec fn is_insignificant(self) -> bool {
        self is Whitespace || self is Newline || self is Indent
    }

    /// Width of the token in a caret diagnostic: the text length of
    /// identifiers, unknown text and numbers, 2 for a two-character operator,
    /// four columns per indentation level (as far as `usize` reaches), else 1.
    pub open spec fn len(self) -> nat {
        match self {
            TokenView::Ident(s) => utf8_len(s),
            TokenView::Unknown(s) => utf8_len(s),
            TokenView::Number(n) => number_len(n),
            TokenView::Equality => 2,
            TokenView::GreaterEqual => 2,
            TokenView::LessEqual => 2,
            TokenView::Indent(level) => if level * 4 <= usize::MAX {
                (level * 4) as nat
            } else {
                usize::MAX as nat
            },
            _ => 1,
        }
    }
}

impl Token {
    /// Whether the token only separates syntactic elements: whitespace,
    /// newline and indentation.
    pub fn is_insignificant(&self) -> (b: bool)
        ensures
            b == self@.is_insignificant(),
    {
        match self {
            Token::Whitespace => true,
            Token::Newline => true,
            Token::Indent(_) => true,
            _ => false,
        }
    }

    /// Whether the token is an identifier.
    pub fn is_ident(&self) -> (b: bool)
        ensures
            b == (self@ is Ident),
    {
        match self {
            Token::Ident(_) => true,
            _ => false,
        }
    }

    /// Width of the token in a caret diagnostic.
    pub fn len(&self) -> (l: usize)
        ensures
            l == self@.len(),
    {
        match self {
            Token::Ident(id) => id.as_str().as_bytes().len(),
            Token::Unknown(text) => text.as_str().as_bytes().len(),
            Token::Number(num) => num.len(),
            Token::Equality => 2,
            Token::GreaterEqual => 2,
            Token::LessEqual => 2,
            Token::Indent(level) => if *level <= usize::MAX / 4 {
                *level * 4
            } else {
                usize::MAX
            },
            _ => 1,
        }
    }
}

} // verus!
