//! The tokens that the descriptor grammar is read from.

use vstd::prelude::*;

verus! {

/// A line and a column in the text that was read.
#[derive(Clone, Copy, Debug, PartialEq, Eq, Structural)]
pub struct SourceLocation {
    /// Line number, starting at 0.
    pub line: u32,
    /// Column number within the line, starting at 1.
    pub column: u32,
}

impl SourceLocation {
    /// Whether this location comes earlier in the text than `other`: on an
    /// earlier line, or on the same line at an earlier column.
    pub open spec fn precedes(self, other: SourceLocation) -> bool {
        self.line < other.line || (self.line == other.line && self.column < other.column)
    }

    /// The sum of two numbers, or the largest number if the sum is beyond
    /// it.
    pub open spec fn clamped_sum(a: u32, b: u32) -> u32 {
        if a + b > u32::MAX {
            u32::MAX
        } else {
            (a + b) as u32
        }
    }

    /// This location, which is counted from the start of a piece of text,
    /// as it is counted in the whole text, where the piece starts at
    /// `origin`: lines are added up, and on the first line of the piece
    /// the columns before it are added too.
    pub open spec fn offset_by(self, origin: SourceLocation) -> SourceLocation {
        SourceLocation {
            line: SourceLocation::clamped_sum(origin.line, self.line),
            column: if self.line == 0 {
                SourceLocation::clamped_sum(
                    if origin.column >= 1 {
                        (origin.column - 1) as u32
                    } else {
                        0
                    },
                    self.column,
                )
            } else {
                self.column
            },
        }
    }

    /// This location of a piece of text as it is counted in the whole
    /// text, where the piece starts at `origin`.
    pub fn relocate(&self, origin: &SourceLocation) -> (r: SourceLocation)
        ensures
            r == self.offset_by(*origin),
    {
        let line: u32 = if origin.line > u32::MAX - self.line {
            u32::MAX
        } else {
            origin.line + self.line
        };
        let before: u32 = if origin.column >= 1 {
            origin.column - 1
        } else {
            0
        };
        let column: u32 = if self.line != 0 {
            self.column
        } else if before > u32::MAX - self.column {
            u32::MAX
        } else {
            before + self.column
        };
        SourceLocation { line, column }
    }

    /// Whether this location comes earlier in the text than `other`.
    pub fn is_before(&self, other: &SourceLocation) -> (r: bool)
        ensures
            r == self.precedes(*other),
    {
        self.line < other.line || (self.line == other.line && self.column < other.column)
    }
}

/// The three kinds of bracket that open a block.
#[derive(Clone, Copy, Debug, PartialEq, Eq, Structural)]
pub enum Bracket {
    Parenthesis,
    Square,
    Curly,
}

/// What a token is.
#[derive(Clone, Copy, Debug, PartialEq, Eq, Structural)]
pub enum TokenKind {
    /// An identifier; the token's value is its name.
    Ident,
    /// A name directly followed by `(`; the token's value is the name.
    Function,
    /// A quoted string; the token's value is its content.
    QuotedString,
    /// `url(` with an unquoted address and `)`; the token's value is the
    /// address.
    UnquotedUrl,
    /// A number without a unit.
    Number,
    /// A number followed by `%`.
    Percentage,
    /// A number followed by a unit; the token's value is the unit.
    Dimension,
    /// `,`
    Comma,
    /// A run of whitespace.
    WhiteSpace,
    /// A comment.
    Comment,
    /// `(`
    ParenthesisBlock,
    /// `[`
    SquareBracketBlock,
    /// `{`
    CurlyBracketBlock,
    /// `)`
    CloseParenthesis,
    /// `]`
    CloseSquareBracket,
    /// `}`
    CloseCurlyBracket,
    /// Any other token.
    Other,
}

impl TokenKind {
    /// The bracket that a token of this kind opens, if it opens a block.
    pub open spec fn opening(self) -> Option<Bracket> {
        match self {
            TokenKind::Function | TokenKind::ParenthesisBlock => Some(Bracket::Parenthesis),
            TokenKind::SquareBracketBlock => Some(Bracket::Square),
            TokenKind::CurlyBracketBlock => Some(Bracket::Curly),
            _ => None,
        }
    }

    /// The bracket that a token of this kind closes, if it closes a block.
    pub open spec fn closing(self) -> Option<Bracket> {
        match self {
            TokenKind::CloseParenthesis => Some(Bracket::Parenthesis),
            TokenKind::CloseSquareBracket => Some(Bracket::Square),
            TokenKind::CloseCurlyBracket => Some(Bracket::Curly),
            _ => None,
        }
    }

    /// Whether a token of this kind is skipped between the tokens of a
    /// value: whitespace and comments.
    pub open spec fn is_trivia(self) -> bool {
        self == TokenKind::WhiteSpace || self == TokenKind::Comment
    }

    /// The bracket that a token of this kind opens, if it opens a block.
    pub fn opens(self) -> (r: Option<Bracket>)
        ensures
            r == self.opening(),
    {
        match self {
            TokenKind::Function | TokenKind::ParenthesisBlock => Some(Bracket::Parenthesis),
            TokenKind::SquareBracketBlock => Some(Bracket::Square),
            TokenKind::CurlyBracketBlock => Some(Bracket::Curly),
            _ => None,
        }
    }

    /// The bracket that a token of this kind closes, if it closes a block.
    pub fn closes(self) -> (r: Option<Bracket>)
        ensures
            r == self.closing(),
    {
        match self {
            TokenKind::CloseParenthesis => Some(Bracket::Parenthesis),
            TokenKind::CloseSquareBracket => Some(Bracket::Square),
            TokenKind::CloseCurlyBracket => Some(Bracket::Curly),
            _ => None,
        }
    }

    /// Whether a token of this kind is whitespace or a comment.
    pub fn skipped(self) -> (r: bool)
        ensures
            r == self.is_trivia(),
    {
        match self {
            TokenKind::WhiteSpace | TokenKind::Comment => true,
            _ => false,
        }
    }
}

/// One token with the text it was read from and the place it starts at.
#[derive(Clone, Debug, PartialEq, Eq)]
pub struct CssToken {
    /// What the token is.
    pub kind: TokenKind,
    /// The name, content, address or unit that the token carries, without
    /// escapes; empty for the kinds that carry none.
    pub value: String,
    /// The token as it stands in the text.
    pub raw: String,
    /// Where the token starts.
    pub location: SourceLocation,
}

/// Why a value could not be parsed.
#[derive(Clone, Copy, Debug, PartialEq, Eq, Structural)]
pub enum ParseErrorKind {
    /// A token that the grammar does not allow at its place.
    UnexpectedToken,
    /// The tokens ended where the grammar asks for more.
    EndOfInput,
    /// The body of the rule breaks a structural constraint.
    MalformedAtRuleBody,
}

/// A failure to parse, with the place it was found at.
#[derive(Clone, Copy, Debug, PartialEq, Eq, Structural)]
pub struct ParseError {
    pub kind: ParseErrorKind,
    pub location: SourceLocation,
}

} // verus!
