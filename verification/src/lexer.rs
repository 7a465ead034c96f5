//! Reading text into tokens.

use crate::cursor::CursorView;
use crate::cursor::TokenCursor;
use crate::token::CssToken;
use crate::token::SourceLocation;
use crate::token::TokenKind;
use vstd::prelude::*;

verus! {

/// The state of the tokenizer over one text.
#[verifier::external_type_specification]
#[verifier::external_body]
pub struct ExParserInput<'i>(cssparser::ParserInput<'i>);

/// One token as the tokenizer gives it.
#[verifier::external_type_specification]
#[verifier::external_body]
pub struct ExToken<'i>(cssparser::Token<'i>);

/// The tokens that `cssparser` reads from a text, whitespace and comments
/// included and the contents of blocks token by token, each with the text
/// it was read from and the place it starts at.
pub uninterp spec fn css_tokens(text: Seq<char>) -> Seq<CssToken>;

/// The place at which `cssparser` finds the end of a text.
pub uninterp spec fn css_end(text: Seq<char>) -> SourceLocation;

/// The tokens that a tokenizer has still to give.
pub uninterp spec fn unread(input: cssparser::ParserInput) -> Seq<CssToken>;

/// The place at which the text of a tokenizer ends.
pub uninterp spec fn end_of(input: cssparser::ParserInput) -> SourceLocation;

/// Starts the tokenizer on `text`, with `cssparser::ParserInput::new`: it
/// has all the tokens of the text still to give.
#[verifier::external_body]
fn open_input<'i>(text: &'i str) -> (r: cssparser::ParserInput<'i>)
    ensures
        unread(r) == css_tokens(text@),
        end_of(r) == css_end(text@),
{
    cssparser::ParserInput::new(text)
}

/// The kind and the value of a token that carries a name, a content, an
/// address or a unit; `None` for any other token. Tells five variants of
/// `cssparser::Token` apart and copies their text.
#[verifier::external_body]
fn word_of<'i>(token: &cssparser::Token<'i>) -> Option<(TokenKind, String)> {
    match token {
        cssparser::Token::Ident(s) => Some((TokenKind::Ident, s.to_string())),
        cssparser::Token::Function(s) => Some((TokenKind::Function, s.to_string())),
        cssparser::Token::QuotedString(s) => Some((TokenKind::QuotedString, s.to_string())),
        cssparser::Token::UnquotedUrl(s) => Some((TokenKind::UnquotedUrl, s.to_string())),
        cssparser::Token::Dimension { unit, .. } => Some((TokenKind::Dimension, unit.to_string())),
        _ => None,
    }
}

/// The kind of a token that carries no text: tells the variants of
/// `cssparser::Token` apart that have a kind of their own here, and gives
/// `Other` for the rest.
#[verifier::external_body]
fn mark_of<'i>(token: &cssparser::Token<'i>) -> TokenKind {
    match token {
        cssparser::Token::Number { .. } => TokenKind::Number,
        cssparser::Token::Percentage { .. } => TokenKind::Percentage,
        cssparser::Token::Comma => TokenKind::Comma,
        cssparser::Token::WhiteSpace(_) => TokenKind::WhiteSpace,
        cssparser::Token::Comment(_) => TokenKind::Comment,
        cssparser::Token::ParenthesisBlock => TokenKind::ParenthesisBlock,
        cssparser::Token::SquareBracketBlock => TokenKind::SquareBracketBlock,
        cssparser::Token::CurlyBracketBlock => TokenKind::CurlyBracketBlock,
        cssparser::Token::CloseParenthesis => TokenKind::CloseParenthesis,
        cssparser::Token::CloseSquareBracket => TokenKind::CloseSquareBracket,
        cssparser::Token::CloseCurlyBracket => TokenKind::CloseCurlyBracket,
        _ => TokenKind::Other,
    }
}

/// Reads one token, whitespace and comments included, with
/// `cssparser::Parser::next_including_whitespace_and_comments` on a parser
/// that is made for this one call, so that the contents of a block come
/// token by token. Gives the first of the tokens that were still to come,
/// with its text from `slice_from`, and leaves the others; gives `None`
/// once there is none. In either case it also gives the place that the
/// tokenizer stood at, from `current_source_location`, which at the end is
/// the place at which the text ends.
#[verifier::external_body]
fn read_token<'i>(input: &mut cssparser::ParserInput<'i>) -> (r: (Option<CssToken>, SourceLocation))
    ensures
        end_of(*final(input)) == end_of(*old(input)),
        match r.0 {
            Some(token) => unread(*old(input)).len() > 0 && token == unread(*old(input))[0]
                && unread(*final(input)) == unread(*old(input)).skip(1) && r.1 == token.location,
            None => unread(*old(input)).len() == 0 && unread(*final(input)).len() == 0 && r.1
                == end_of(*old(input)),
        },
{
    let mut parser = cssparser::Parser::new(input);
    let at = parser.current_source_location();
    let location = SourceLocation { line: at.line, column: at.column };
    let start = parser.position();
    let token = match parser.next_including_whitespace_and_comments() {
        Ok(token) => token.clone(),
        Err(_) => return (None, location),
    };
    let raw = parser.slice_from(start).to_string();
    let (kind, value) = word_of(&token).unwrap_or_else(|| (mark_of(&token), String::new()));
    (Some(CssToken { kind, value, raw, location }), location)
}

/// Tokens with their places counted in a whole text in which they start
/// at `origin`.
pub open spec fn relocated(tokens: Seq<CssToken>, origin: SourceLocation) -> Seq<CssToken> {
    Seq::new(
        tokens.len(),
        |i: int| CssToken { location: tokens[i].location.offset_by(origin), ..tokens[i] },
    )
}

/// Reads `text`, a piece of a larger text that starts at `origin` in it,
/// into tokens, whitespace and comments included, and gives a cursor at
/// the first of them. Places are counted in the larger text.
pub fn tokenize_at(text: &str, origin: SourceLocation) -> (r: TokenCursor)
    ensures
        r.wf(),
        r@ == CursorView::start(
            relocated(css_tokens(text@), origin),
            css_end(text@).offset_by(origin),
        ),
{
    let mut input = open_input(text);
    let mut tokens: Vec<CssToken> = Vec::new();
    let ghost all = css_tokens(text@);
    assert(tokens@ =~= relocated(all.take(0), origin));
    loop
        invariant
            all == css_tokens(text@),
            tokens@.len() <= all.len(),
            tokens@ == relocated(all.take(tokens@.len() as int), origin),
            unread(input) == all.skip(tokens@.len() as int),
            end_of(input) == css_end(text@),
        decreases unread(input).len(),
    {
        let ghost before = tokens@;
        let (token, location) = read_token(&mut input);
        match token {
            Some(token) => {
                let moved: CssToken = CssToken {
                    kind: token.kind,
                    value: token.value,
                    raw: token.raw,
                    location: location.relocate(&origin),
                };
                tokens.push(moved);
                assert(all.skip(before.len() as int).skip(1) =~= all.skip(before.len() as int + 1));
                assert(tokens@ =~= relocated(all.take(before.len() as int + 1), origin));
            },
            None => {
                assert(all.take(tokens@.len() as int) =~= all);
                return TokenCursor::new(tokens, location.relocate(&origin));
            },
        }
    }
}

/// Reads `text` into tokens, whitespace and comments included, and gives a
/// cursor at the first of them.
pub fn tokenize(text: &str) -> (r: TokenCursor)
    ensures
        r.wf(),
        r@ == CursorView::start(css_tokens(text@), css_end(text@)),
{
    let origin: SourceLocation = SourceLocation { line: 0, column: 1 };
    let r: TokenCursor = tokenize_at(text, origin);
    assert(relocated(css_tokens(text@), origin) =~= css_tokens(text@));
    r
}

} // verus!
