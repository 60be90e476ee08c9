use vstd::prelude::*;

verus! {

/// A position in the host source: line and column.
#[derive(Clone, Copy, Debug, PartialEq, Eq, Structural)]
pub struct Pos {
    pub line: usize,
    pub column: usize,
}

/// The delimiter of a group of tokens.
#[derive(Clone, Copy, Debug, PartialEq, Eq, Structural)]
pub enum Delimiter {
    Parenthesis,
    Brace,
    Bracket,
    /// A grouping that has no delimiter text.
    Implicit,
}

/// Whether a punctuation character is immediately followed by another one.
#[derive(Clone, Copy, Debug, PartialEq, Eq, Structural)]
pub enum Spacing {
    Alone,
    Joint,
}

/// One lexical token with the positions that the lexer gave it.
#[derive(Debug)]
pub enum Token {
    Group { delimiter: Delimiter, open: Pos, close: Pos, stream: Vec<Token> },
    Punct { ch: char, spacing: Spacing, pos: Pos },
    Ident { text: String, start: Pos, end: Pos },
    Literal { text: String, start: Pos, end: Pos },
}

/// Where a token starts.
pub open spec fn start_of(t: Token) -> Pos {
    match t {
        Token::Group { open, .. } => open,
        Token::Punct { pos, .. } => pos,
        Token::Ident { start, .. } => start,
        Token::Literal { start, .. } => start,
    }
}

/// Where a token ends.
pub open spec fn end_of(t: Token) -> Pos {
    match t {
        Token::Group { close, .. } => close,
        Token::Punct { pos, .. } => pos,
        Token::Ident { end, .. } => end,
        Token::Literal { end, .. } => end,
    }
}

/// The text that opens a group.
pub open spec fn open_text(d: Delimiter) -> Seq<char> {
    match d {
        Delimiter::Parenthesis => seq!['('],
        Delimiter::Brace => seq!['{'],
        Delimiter::Bracket => seq!['['],
        Delimiter::Implicit => Seq::empty(),
    }
}

/// The text that closes a group.
pub open spec fn close_text(d: Delimiter) -> Seq<char> {
    match d {
        Delimiter::Parenthesis => seq![')'],
        Delimiter::Brace => seq!['}'],
        Delimiter::Bracket => seq![']'],
        Delimiter::Implicit => Seq::empty(),
    }
}

impl Token {
    pub fn start(&self) -> (r: Pos)
        ensures
            r == start_of(*self),
    {
        match self {
            Token::Group { open, .. } => *open,
            Token::Punct { pos, .. } => *pos,
            Token::Ident { start, .. } => *start,
            Token::Literal { start, .. } => *start,
        }
    }

    pub fn end(&self) -> (r: Pos)
        ensures
            r == end_of(*self),
    {
        match self {
            Token::Group { close, .. } => *close,
            Token::Punct { pos, .. } => *pos,
            Token::Ident { end, .. } => *end,
            Token::Literal { end, .. } => *end,
        }
    }
}

} // verus!
