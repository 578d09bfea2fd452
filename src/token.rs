//! Lexical tokens, each with the position where it starts.

use vstd::prelude::*;
use crate::text::{char_text, signed_decimal, signed_text};

verus! {

/// What a token is seen as: its kind, its text or value, and its position.
#[allow(inconsistent_fields)]
pub enum TokenView {
    Keyword { value: Seq<char>, pos: Option<usize> },
    Identifier { value: Seq<char>, pos: Option<usize> },
    Number { value: i64, pos: Option<usize> },
    String { value: Seq<char>, pos: Option<usize> },
    Symbol { value: char, pos: Option<usize> },
}

/// A lexical token of SQL text.
#[derive(Debug, PartialEq, Eq)]
#[allow(inconsistent_fields)]
pub enum Token {
    /// A keyword, in upper case: SELECT, INSERT, UPDATE, DELETE, CREATE, TABLE, VALUES.
    Keyword { value: String, pos: Option<usize> },
    /// A name of a table, a column or a type, as written.
    Identifier { value: String, pos: Option<usize> },
    /// An integer literal.
    Number { value: i64, pos: Option<usize> },
    /// A quoted text literal, without its quotes.
    String { value: String, pos: Option<usize> },
    /// One of `(`, `)`, `,`, `;`, `*`.
    Symbol { value: char, pos: Option<usize> },
}

impl View for Token {
    type V = TokenView;

    open spec fn view(&self) -> TokenView {
        match self {
            Token::Keyword { value, pos } => TokenView::Keyword { value: value@, pos: *pos },
            Token::Identifier { value, pos } => TokenView::Identifier { value: value@, pos: *pos },
            Token::Number { value, pos } => TokenView::Number { value: *value, pos: *pos },
            Token::String { value, pos } => TokenView::String { value: value@, pos: *pos },
            Token::Symbol { value, pos } => TokenView::Symbol { value: *value, pos: *pos },
        }
    }
}

/// The views of a sequence of tokens.
pub open spec fn tokens_view(ts: Seq<Token>) -> Seq<TokenView> {
    ts.map_values(|t: Token| t@)
}

impl TokenView {
    /// The token's text: a number in decimal, a symbol as its character.
    pub open spec fn text(self) -> Seq<char> {
        match self {
            TokenView::Keyword { value, .. } => value,
            TokenView::Identifier { value, .. } => value,
            TokenView::Number { value, .. } => signed_decimal(value as int),
            TokenView::String { value, .. } => value,
            TokenView::Symbol { value, .. } => seq![value],
        }
    }

    /// The token's position.
    pub open spec fn position(self) -> Option<usize> {
        match self {
            TokenView::Keyword { pos, .. } => pos,
            TokenView::Identifier { pos, .. } => pos,
            TokenView::Number { pos, .. } => pos,
            TokenView::String { pos, .. } => pos,
            TokenView::Symbol { pos, .. } => pos,
        }
    }
}

impl Token {
    /// The token's text: a number in decimal, a symbol as its character.
    pub fn value(&self) -> (r: String)
        ensures
            r@ == self@.text(),
    {
        match self {
            Token::Keyword { value, .. } => value.clone(),
            Token::Identifier { value, .. } => value.clone(),
            Token::Number { value, .. } => signed_text(*value),
            Token::String { value, .. } => value.clone(),
            Token::Symbol { value, .. } => char_text(*value),
        }
    }

    /// The token's position, if it has one.
    pub fn pos(&self) -> (r: Option<usize>)
        ensures
            r == self@.position(),
    {
        match self {
            Token::Keyword { pos, .. } => *pos,
            Token::Identifier { pos, .. } => *pos,
            Token::Number { pos, .. } => *pos,
            Token::String { pos, .. } => *pos,
            Token::Symbol { pos, .. } => *pos,
        }
    }
}

} // verus!
