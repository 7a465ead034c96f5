//! A cursor over a sequence of tokens that keeps track of nested blocks.

use crate::text::eq_ignore_ascii_case;
use crate::text::matches_ignore_case;
use crate::token::Bracket;
use crate::token::ParseError;
use crate::token::ParseErrorKind;
use crate::token::SourceLocation;
use crate::token::CssToken;
use crate::token::TokenKind;
use vstd::prelude::*;

verus! {

/// The index of the token that closes a block, or the number of tokens if
/// nothing closes it. `from` is the index of the first token to look at and
/// `stack` holds the brackets that are open there, innermost last. A closing
/// bracket that does not match the innermost open one is passed over.
pub open spec fn block_end(tokens: Seq<CssToken>, from: int, stack: Seq<Bracket>) -> int
    decreases tokens.len() - from,
{
    if from < 0 || from >= tokens.len() || stack.len() == 0 {
        tokens.len() as int
    } else {
        let kind = tokens[from].kind;
        let open = if kind.closing() == Some(stack.last()) {
            stack.drop_last()
        } else {
            stack
        };
        if open.len() == 0 {
            from
        } else {
            block_end(
                tokens,
                from + 1,
                match kind.opening() {
                    Some(b) => open.push(b),
                    None => open,
                },
            )
        }
    }
}

/// The end of the contents of the block that `bracket` opened just before
/// index `from`, within a stretch of tokens that ends at `limit`.
pub open spec fn contents_end(tokens: Seq<CssToken>, from: int, bracket: Bracket, limit: int) -> int {
    let close = block_end(tokens, from, seq![bracket]);
    if close < limit {
        close
    } else {
        limit
    }
}

/// The index at which reading goes on after the block that `bracket` opened
/// just before index `from`: behind its closing token, but not beyond
/// `limit`.
pub open spec fn block_resume(tokens: Seq<CssToken>, from: int, bracket: Bracket, limit: int) -> int {
    let close = block_end(tokens, from, seq![bracket]);
    if close < limit {
        close + 1
    } else {
        limit
    }
}

/// The index of the first token from `from` on, before `end`, that is
/// neither whitespace nor a comment; `end` if there is none.
pub open spec fn skip_trivia(tokens: Seq<CssToken>, from: int, end: int) -> int
    decreases end - from,
{
    if 0 <= from < end && from < tokens.len() && tokens[from].kind.is_trivia() {
        skip_trivia(tokens, from + 1, end)
    } else {
        from
    }
}

/// The index of the first comma from `from` on, before `end`, that stands
/// outside every block opened in between; `end` if there is none.
pub open spec fn next_comma(tokens: Seq<CssToken>, from: int, end: int) -> int
    decreases end - from,
{
    if from < 0 || from >= end || from >= tokens.len() {
        end
    } else if tokens[from].kind == TokenKind::Comma {
        from
    } else {
        match tokens[from].kind.opening() {
            Some(b) => {
                let resume = block_resume(tokens, from + 1, b, end);
                if resume > from {
                    next_comma(tokens, resume, end)
                } else {
                    end
                }
            },
            None => next_comma(tokens, from + 1, end),
        }
    }
}

/// What a `TokenCursor` stands for in contracts.
pub struct CursorView {
    /// All the tokens.
    pub tokens: Seq<CssToken>,
    /// Index of the token that is read next.
    pub pos: int,
    /// Index at which the stretch that is being read ends: the number of
    /// tokens, or the index of the token that delimits a block or an item.
    pub end: int,
    /// The bracket of the block that the token read last has opened, if
    /// its contents have been neither entered nor passed over yet.
    pub block: Option<Bracket>,
    /// The location behind the last token.
    pub end_location: SourceLocation,
}

/// The outcome of one parsing step on a cursor: the cursor afterwards and
/// the value or the error.
pub struct Step<T> {
    pub after: CursorView,
    pub result: Result<T, ParseError>,
}

impl CursorView {
    /// A cursor at the first of `tokens`, which all are to be read;
    /// `end_location` is the place behind the last of them.
    pub open spec fn start(tokens: Seq<CssToken>, end_location: SourceLocation) -> CursorView {
        CursorView { tokens, pos: 0, end: tokens.len() as int, block: None, end_location }
    }

    /// The invariant of a cursor.
    pub open spec fn wf(self) -> bool {
        0 <= self.pos <= self.end <= self.tokens.len()
    }

    /// The location at which token `i` starts, or the end of the text.
    pub open spec fn location_at(self, i: int) -> SourceLocation {
        if 0 <= i < self.tokens.len() {
            self.tokens[i].location
        } else {
            self.end_location
        }
    }

    /// The location that the cursor stands at.
    pub open spec fn location(self) -> SourceLocation {
        self.location_at(self.pos)
    }

    /// This cursor moved to index `pos`, with no block pending.
    pub open spec fn at(self, pos: int) -> CursorView {
        CursorView { pos, block: None, ..self }
    }

    /// This cursor behind the block whose contents are pending, if there is
    /// one.
    pub open spec fn settled(self) -> CursorView {
        match self.block {
            Some(b) => self.at(block_resume(self.tokens, self.pos, b, self.end)),
            None => self,
        }
    }

    /// Index of the token that `next` returns, or `end`.
    pub open spec fn upcoming(self) -> int {
        skip_trivia(self.tokens, self.settled().pos, self.end)
    }

    /// Whether nothing but whitespace and comments is left to read.
    pub open spec fn exhausted(self) -> bool {
        self.upcoming() >= self.end
    }

    /// Reads the next token that is neither whitespace nor a comment, after
    /// passing over a pending block; gives its index. Fails at the end of
    /// the stretch.
    pub open spec fn next(self) -> Step<usize> {
        let i = self.upcoming();
        if i >= self.end {
            Step {
                after: self.at(i),
                result: Err(
                    ParseError { kind: ParseErrorKind::EndOfInput, location: self.location_at(i) },
                ),
            }
        } else {
            Step {
                after: CursorView { pos: i + 1, block: self.tokens[i].kind.opening(), ..self },
                result: Ok(i as usize),
            }
        }
    }

    /// An unexpected-token error at the place the cursor stands at.
    pub open spec fn unexpected(self) -> ParseError {
        ParseError { kind: ParseErrorKind::UnexpectedToken, location: self.location() }
    }

    /// Reads the next token and accepts it if `accept` holds of it.
    pub open spec fn expect(self, accept: spec_fn(CssToken) -> bool) -> Step<usize> {
        let step = self.next();
        match step.result {
            Ok(i) => if accept(self.tokens[i as int]) {
                step
            } else {
                Step { after: step.after, result: Err(self.unexpected()) }
            },
            Err(_) => step,
        }
    }

    /// Reads an identifier.
    pub open spec fn expect_ident(self) -> Step<usize> {
        self.expect(|t: CssToken| t.kind == TokenKind::Ident)
    }

    /// Reads an identifier that is `name`, whatever the case of its ASCII
    /// letters.
    pub open spec fn expect_ident_matching(self, name: Seq<char>) -> Step<usize> {
        self.expect(|t: CssToken| t.kind == TokenKind::Ident && matches_ignore_case(t.value@, name))
    }

    /// Reads a quoted string.
    pub open spec fn expect_string(self) -> Step<usize> {
        self.expect(|t: CssToken| t.kind == TokenKind::QuotedString)
    }

    /// Reads an identifier or a quoted string.
    pub open spec fn expect_ident_or_string(self) -> Step<usize> {
        self.expect(|t: CssToken| t.kind == TokenKind::Ident || t.kind == TokenKind::QuotedString)
    }

    /// Reads the start of a function whose name is `name`, whatever the
    /// case of its ASCII letters.
    pub open spec fn expect_function_matching(self, name: Seq<char>) -> Step<usize> {
        self.expect(|t: CssToken| t.kind == TokenKind::Function && matches_ignore_case(t.value@, name))
    }

    /// A step from this cursor that leaves the cursor where it was if it
    /// fails.
    pub open spec fn attempt<T>(self, step: Step<T>) -> Step<T> {
        if step.result is Ok {
            step
        } else {
            Step { after: self, result: step.result }
        }
    }

    /// As `expect_function_matching`, but with the cursor left where it was
    /// if the function is not there.
    pub open spec fn try_function_matching(self, name: Seq<char>) -> Step<usize> {
        self.attempt(self.expect_function_matching(name))
    }

    /// As `expect_ident`, but with the cursor left where it was if no
    /// identifier is there.
    pub open spec fn try_ident(self) -> Step<usize> {
        self.attempt(self.expect_ident())
    }

    /// As `expect_string`, but with the cursor left where it was if no
    /// string is there.
    pub open spec fn try_string(self) -> Step<usize> {
        self.attempt(self.expect_string())
    }

    /// Whether this cursor can have come from `before` by reading on in the
    /// same stretch of the same tokens.
    pub open spec fn follows(self, before: CursorView) -> bool {
        &&& self.tokens == before.tokens
        &&& self.end == before.end
        &&& self.end_location == before.end_location
        &&& before.pos <= self.pos
    }

    /// This cursor limited to the contents of the pending block.
    pub open spec fn entered(self) -> CursorView {
        match self.block {
            Some(b) => CursorView {
                end: contents_end(self.tokens, self.pos, b, self.end),
                block: None,
                ..self
            },
            None => self,
        }
    }

    /// This cursor behind the token that delimits its stretch, in a
    /// stretch that ends at `outer_end`.
    pub open spec fn left(self, outer_end: int) -> CursorView {
        CursorView {
            pos: if self.end < outer_end {
                self.end + 1
            } else {
                outer_end
            },
            end: outer_end,
            block: None,
            ..self
        }
    }

    /// What reading the contents of the pending block comes to, where
    /// `inner` is the step that reads them from `self.entered()`: the
    /// cursor goes behind the block, and the contents must be used up.
    pub open spec fn block_step<T>(self, inner: Step<T>) -> Step<T> {
        Step { after: inner.after.left(self.end), result: CursorView::entirely(inner) }
    }

    /// This cursor limited to the tokens before the next comma outside
    /// every block.
    pub open spec fn item(self) -> CursorView {
        let start = self.settled();
        CursorView { end: next_comma(start.tokens, start.pos, start.end), ..start }
    }

    /// This cursor at the token that delimits its stretch, in a stretch
    /// that ends at `outer_end`.
    pub open spec fn item_left(self, outer_end: int) -> CursorView {
        CursorView { pos: self.end, end: outer_end, block: None, ..self }
    }

    /// This cursor at the end of its first item: at the comma behind it, or
    /// at the end.
    pub open spec fn after_item(self) -> CursorView {
        CursorView { pos: self.item().end, block: None, ..self }
    }

    /// Whether a comma follows the first item.
    pub open spec fn more_items(self) -> bool {
        self.pos <= self.item().end < self.end
    }

    /// This cursor behind the comma that follows its first item.
    pub open spec fn next_item(self) -> CursorView {
        CursorView { pos: self.item().end + 1, block: None, ..self }
    }

    /// What a step that was to read a whole stretch comes to: its value if
    /// nothing but whitespace and comments is left, else an error for the
    /// token that is left.
    pub open spec fn entirely<T>(step: Step<T>) -> Result<T, ParseError> {
        match step.result {
            Ok(v) => if step.after.exhausted() {
                Ok(v)
            } else {
                Err(step.after.unexpected())
            },
            Err(e) => Err(e),
        }
    }
}

/// What a step comes to when its value is passed through `f`.
pub open spec fn map_step<T, U>(step: Step<T>, f: spec_fn(T) -> U) -> Step<U> {
    Step {
        after: step.after,
        result: match step.result {
            Ok(v) => Ok(f(v)),
            Err(e) => Err(e),
        },
    }
}

/// A step that gives a list, with `head` put in front of the list.
pub open spec fn prepend<T>(head: Seq<T>, step: Step<Seq<T>>) -> Step<Seq<T>> {
    Step {
        after: step.after,
        result: match step.result {
            Ok(tail) => Ok(head + tail),
            Err(e) => Err(e),
        },
    }
}

/// Putting a list in front and then one more item behind it is putting the
/// longer list in front.
pub proof fn lemma_prepend_push<T>(head: Seq<T>, v: T, rest: Step<Seq<T>>)
    ensures
        prepend(head, prepend(seq![v], rest)) == prepend(head.push(v), rest),
        prepend(head, Step { after: rest.after, result: Ok(seq![v]) }) == (Step {
            after: rest.after,
            result: Ok::<Seq<T>, ParseError>(head.push(v)),
        }),
{
    match rest.result {
        Ok(tail) => {
            assert(head + (seq![v] + tail) =~= head.push(v) + tail);
        },
        Err(_) => {},
    }
    assert(head + seq![v] =~= head.push(v));
}

/// Whether a parser has done what `step` says: the cursor stands where the
/// step leaves it, and the value, seen through its view, or the error is
/// that of the step.
pub open spec fn agrees<T: View>(after: CursorView, result: Result<T, ParseError>, step: Step<T::V>) -> bool {
    after == step.after && match result {
        Ok(v) => step.result == Ok::<T::V, ParseError>(v@),
        Err(e) => step.result == Err::<T::V, ParseError>(e),
    }
}

/// A place in the tokens that a cursor can be taken back to.
#[derive(Clone, Copy, Debug, PartialEq, Eq)]
pub struct CursorState {
    pos: usize,
    block: Option<Bracket>,
}

/// A cursor over a sequence of tokens. Reading skips whitespace and
/// comments, and passes over the contents of a block unless they are
/// entered.
pub struct TokenCursor {
    tokens: Vec<CssToken>,
    pos: usize,
    end: usize,
    block: Option<Bracket>,
    end_location: SourceLocation,
}

impl View for TokenCursor {
    type V = CursorView;

    closed spec fn view(&self) -> CursorView {
        CursorView {
            tokens: self.tokens@,
            pos: self.pos as int,
            end: self.end as int,
            block: self.block,
            end_location: self.end_location,
        }
    }
}

impl CursorState {
    /// The index that the state stands at.
    pub closed spec fn pos(self) -> int {
        self.pos as int
    }

    /// The pending block of the state.
    pub closed spec fn block(self) -> Option<Bracket> {
        self.block
    }
}

impl TokenCursor {
    /// The invariant of a cursor.
    pub open spec fn wf(&self) -> bool {
        self@.wf()
    }

    /// A cursor at the start of `tokens`; `end_location` is the location
    /// behind the last of them.
    pub fn new(tokens: Vec<CssToken>, end_location: SourceLocation) -> (r: TokenCursor)
        ensures
            r.wf(),
            r@ == CursorView::start(tokens@, end_location),
    {
        let end: usize = tokens.len();
        TokenCursor { tokens, pos: 0, end, block: None, end_location }
    }

    /// The token at index `i`.
    pub fn token(&self, i: usize) -> (r: &CssToken)
        requires
            i < self@.tokens.len(),
        ensures
            *r == self@.tokens[i as int],
    {
        &self.tokens[i]
    }

    /// The number of tokens.
    pub fn token_count(&self) -> (r: usize)
        ensures
            r == self@.tokens.len(),
    {
        self.tokens.len()
    }

    /// The index of the token that is read next.
    pub fn position(&self) -> (r: usize)
        ensures
            r == self@.pos,
    {
        self.pos
    }

    /// The index at which the stretch that is being read ends.
    pub fn limit(&self) -> (r: usize)
        ensures
            r == self@.end,
    {
        self.end
    }

    /// The location that the cursor stands at.
    pub fn current_source_location(&self) -> (r: SourceLocation)
        requires
            self.wf(),
        ensures
            r == self@.location(),
    {
        self.location_at(self.pos)
    }

    fn location_at(&self, i: usize) -> (r: SourceLocation)
        ensures
            r == self@.location_at(i as int),
    {
        if i < self.tokens.len() {
            self.tokens[i].location
        } else {
            self.end_location
        }
    }

    /// The place the cursor stands at, to come back to with `reset`.
    pub fn state(&self) -> (r: CursorState)
        ensures
            r.pos() == self@.pos,
            r.block() == self@.block,
    {
        CursorState { pos: self.pos, block: self.block }
    }

    /// Takes the cursor back to a place that `state` gave earlier.
    pub fn reset(&mut self, state: CursorState)
        requires
            old(self).wf(),
            state.pos() <= old(self)@.end,
        ensures
            final(self).wf(),
            final(self)@ == (CursorView { pos: state.pos(), block: state.block(), ..old(self)@ }),
    {
        self.pos = state.pos;
        self.block = state.block;
    }

    fn find_block_end(&self, from: usize, bracket: Bracket) -> (r: usize)
        requires
            from <= self@.tokens.len(),
        ensures
            r == block_end(self@.tokens, from as int, seq![bracket]),
            from <= r <= self@.tokens.len(),
    {
        let mut stack: Vec<Bracket> = Vec::new();
        stack.push(bracket);
        let mut i: usize = from;
        while i < self.tokens.len()
            invariant
                from <= i <= self.tokens.len(),
                stack@.len() > 0,
                block_end(self.tokens@, from as int, seq![bracket]) == block_end(
                    self.tokens@,
                    i as int,
                    stack@,
                ),
            decreases self.tokens.len() - i,
        {
            let kind: TokenKind = self.tokens[i].kind;
            let ghost before = stack@;
            match kind.closes() {
                Some(b) => {
                    if stack[stack.len() - 1] == b {
                        stack.pop();
                        assert(stack@ =~= before.drop_last());
                        if stack.len() == 0 {
                            return i;
                        }
                    }
                },
                None => {},
            }
            match kind.opens() {
                Some(b) => {
                    stack.push(b);
                },
                None => {},
            }
            i += 1;
        }
        i
    }

    fn settle(&mut self)
        requires
            old(self).wf(),
        ensures
            final(self).wf(),
            final(self)@ == old(self)@.settled(),
            old(self)@.pos <= final(self)@.pos,
    {
        match self.block {
            Some(b) => {
                let close: usize = self.find_block_end(self.pos, b);
                if close < self.end {
                    self.pos = close + 1;
                } else {
                    self.pos = self.end;
                }
                self.block = None;
            },
            None => {},
        }
    }

    fn find_upcoming(&self) -> (r: usize)
        requires
            self.wf(),
        ensures
            r == self@.upcoming(),
            self@.settled().pos <= r <= self@.end,
            self@.pos <= r,
    {
        let mut i: usize = match self.block {
            Some(b) => {
                let close: usize = self.find_block_end(self.pos, b);
                if close < self.end {
                    close + 1
                } else {
                    self.end
                }
            },
            None => self.pos,
        };
        while i < self.end && self.tokens[i].kind.skipped()
            invariant
                self.wf(),
                self@.settled().pos <= i <= self.end,
                self.pos <= i,
                skip_trivia(self.tokens@, i as int, self.end as int) == self@.upcoming(),
            decreases self.end - i,
        {
            i += 1;
        }
        i
    }

    /// Whether nothing but whitespace and comments is left to read.
    pub fn is_exhausted(&self) -> (r: bool)
        requires
            self.wf(),
        ensures
            r == self@.exhausted(),
    {
        self.find_upcoming() >= self.end
    }

    /// Reads the next token that is neither whitespace nor a comment, after
    /// passing over a pending block, and gives its index.
    pub fn next(&mut self) -> (r: Result<usize, ParseError>)
        requires
            old(self).wf(),
        ensures
            final(self).wf(),
            (Step { after: final(self)@, result: r }) == old(self)@.next(),
            r matches Ok(i) ==> old(self)@.pos <= i < old(self)@.end && final(self)@.pos == i + 1,
            final(self)@.follows(old(self)@),
    {
        let i: usize = self.find_upcoming();
        if i >= self.end {
            self.pos = i;
            self.block = None;
            Err(ParseError { kind: ParseErrorKind::EndOfInput, location: self.location_at(i) })
        } else {
            self.pos = i + 1;
            self.block = self.tokens[i].kind.opens();
            Ok(i)
        }
    }

    /// Reads an identifier and gives its index.
    pub fn expect_ident(&mut self) -> (r: Result<usize, ParseError>)
        requires
            old(self).wf(),
        ensures
            final(self).wf(),
            (Step { after: final(self)@, result: r }) == old(self)@.expect_ident(),
            r matches Ok(i) ==> old(self)@.pos <= i < old(self)@.end && final(self)@.pos == i + 1,
            final(self)@.follows(old(self)@),
    {
        let location: SourceLocation = self.current_source_location();
        let i: usize = match self.next() {
            Ok(i) => i,
            Err(e) => {
                return Err(e);
            },
        };
        match self.tokens[i].kind {
            TokenKind::Ident => Ok(i),
            _ => Err(ParseError { kind: ParseErrorKind::UnexpectedToken, location }),
        }
    }

    /// Reads an identifier that is `name`, whatever the case of its ASCII
    /// letters, and gives its index.
    pub fn expect_ident_matching(&mut self, name: &str) -> (r: Result<usize, ParseError>)
        requires
            old(self).wf(),
        ensures
            final(self).wf(),
            (Step { after: final(self)@, result: r }) == old(self)@.expect_ident_matching(name@),
            r matches Ok(i) ==> old(self)@.pos <= i < old(self)@.end && final(self)@.pos == i + 1,
            final(self)@.follows(old(self)@),
            r is Ok ==> final(self)@.block is None,
    {
        let location: SourceLocation = self.current_source_location();
        let i: usize = match self.next() {
            Ok(i) => i,
            Err(e) => {
                return Err(e);
            },
        };
        match self.tokens[i].kind {
            TokenKind::Ident => {
                if eq_ignore_ascii_case(self.tokens[i].value.as_str(), name) {
                    Ok(i)
                } else {
                    Err(ParseError { kind: ParseErrorKind::UnexpectedToken, location })
                }
            },
            _ => Err(ParseError { kind: ParseErrorKind::UnexpectedToken, location }),
        }
    }

    /// Reads a quoted string and gives its index.
    pub fn expect_string(&mut self) -> (r: Result<usize, ParseError>)
        requires
            old(self).wf(),
        ensures
            final(self).wf(),
            (Step { after: final(self)@, result: r }) == old(self)@.expect_string(),
            r matches Ok(i) ==> old(self)@.pos <= i < old(self)@.end && final(self)@.pos == i + 1,
            final(self)@.follows(old(self)@),
    {
        let location: SourceLocation = self.current_source_location();
        let i: usize = match self.next() {
            Ok(i) => i,
            Err(e) => {
                return Err(e);
            },
        };
        match self.tokens[i].kind {
            TokenKind::QuotedString => Ok(i),
            _ => Err(ParseError { kind: ParseErrorKind::UnexpectedToken, location }),
        }
    }

    /// Reads an identifier or a quoted string and gives its index.
    pub fn expect_ident_or_string(&mut self) -> (r: Result<usize, ParseError>)
        requires
            old(self).wf(),
        ensures
            final(self).wf(),
            (Step { after: final(self)@, result: r }) == old(self)@.expect_ident_or_string(),
            r matches Ok(i) ==> old(self)@.pos <= i < old(self)@.end && final(self)@.pos == i + 1,
            final(self)@.follows(old(self)@),
    {
        let location: SourceLocation = self.current_source_location();
        let i: usize = match self.next() {
            Ok(i) => i,
            Err(e) => {
                return Err(e);
            },
        };
        match self.tokens[i].kind {
            TokenKind::Ident | TokenKind::QuotedString => Ok(i),
            _ => Err(ParseError { kind: ParseErrorKind::UnexpectedToken, location }),
        }
    }

    /// Reads the start of a function whose name is `name`, whatever the
    /// case of its ASCII letters, and gives its index.
    pub fn expect_function_matching(&mut self, name: &str) -> (r: Result<usize, ParseError>)
        requires
            old(self).wf(),
        ensures
            final(self).wf(),
            (Step { after: final(self)@, result: r }) == old(self)@.expect_function_matching(name@),
            r matches Ok(i) ==> old(self)@.pos <= i < old(self)@.end && final(self)@.pos == i + 1,
            final(self)@.follows(old(self)@),
    {
        let location: SourceLocation = self.current_source_location();
        let i: usize = match self.next() {
            Ok(i) => i,
            Err(e) => {
                return Err(e);
            },
        };
        match self.tokens[i].kind {
            TokenKind::Function => {
                if eq_ignore_ascii_case(self.tokens[i].value.as_str(), name) {
                    Ok(i)
                } else {
                    Err(ParseError { kind: ParseErrorKind::UnexpectedToken, location })
                }
            },
            _ => Err(ParseError { kind: ParseErrorKind::UnexpectedToken, location }),
        }
    }

    /// As `expect_function_matching`, but leaves the cursor where it was if
    /// the function is not there.
    pub fn try_function_matching(&mut self, name: &str) -> (r: Result<usize, ParseError>)
        requires
            old(self).wf(),
        ensures
            final(self).wf(),
            (Step { after: final(self)@, result: r }) == old(self)@.try_function_matching(name@),
            r matches Ok(i) ==> old(self)@.pos <= i < old(self)@.end && final(self)@.pos == i + 1,
            final(self)@.follows(old(self)@),
    {
        let start: CursorState = self.state();
        let r = self.expect_function_matching(name);
        if r.is_err() {
            self.reset(start);
        }
        r
    }

    /// As `expect_ident`, but leaves the cursor where it was if no
    /// identifier is there.
    pub fn try_ident(&mut self) -> (r: Result<usize, ParseError>)
        requires
            old(self).wf(),
        ensures
            final(self).wf(),
            (Step { after: final(self)@, result: r }) == old(self)@.try_ident(),
            r matches Ok(i) ==> old(self)@.pos <= i < old(self)@.end && final(self)@.pos == i + 1,
            final(self)@.follows(old(self)@),
            r is Ok ==> old(self)@.pos < final(self)@.pos,
    {
        let start: CursorState = self.state();
        let r = self.expect_ident();
        if r.is_err() {
            self.reset(start);
        }
        r
    }

    /// As `expect_string`, but leaves the cursor where it was if no string
    /// is there.
    pub fn try_string(&mut self) -> (r: Result<usize, ParseError>)
        requires
            old(self).wf(),
        ensures
            final(self).wf(),
            (Step { after: final(self)@, result: r }) == old(self)@.try_string(),
            r matches Ok(i) ==> old(self)@.pos <= i < old(self)@.end && final(self)@.pos == i + 1,
            final(self)@.follows(old(self)@),
    {
        let start: CursorState = self.state();
        let r = self.expect_string();
        if r.is_err() {
            self.reset(start);
        }
        r
    }

    /// Limits the cursor to the contents of the block that the token read
    /// last has opened, and gives the end of the stretch read so far, for
    /// `leave_block`.
    pub fn enter_block(&mut self) -> (outer_end: usize)
        requires
            old(self).wf(),
            old(self)@.block is Some,
        ensures
            final(self).wf(),
            final(self)@ == old(self)@.entered(),
            outer_end == old(self)@.end,
            final(self)@.end <= outer_end <= final(self)@.tokens.len(),
    {
        let outer_end: usize = self.end;
        match self.block {
            Some(b) => {
                let close: usize = self.find_block_end(self.pos, b);
                if close < self.end {
                    self.end = close;
                }
                self.block = None;
            },
            None => {},
        }
        outer_end
    }

    /// Ends the reading of a block's contents: the cursor goes behind the
    /// closing token, in the stretch that ends at `outer_end`.
    pub fn leave_block(&mut self, outer_end: usize)
        requires
            old(self).wf(),
            old(self)@.end <= outer_end <= old(self)@.tokens.len(),
        ensures
            final(self).wf(),
            final(self)@ == old(self)@.left(outer_end as int),
    {
        if self.end < outer_end {
            self.pos = self.end + 1;
        } else {
            self.pos = outer_end;
        }
        self.end = outer_end;
        self.block = None;
    }

    fn find_comma(&self, from: usize) -> (r: usize)
        requires
            self.wf(),
            from <= self@.end,
        ensures
            r == next_comma(self@.tokens, from as int, self@.end),
            from <= r <= self@.end,
    {
        let mut i: usize = from;
        while i < self.end
            invariant
                self.wf(),
                from <= i <= self.end,
                next_comma(self.tokens@, from as int, self.end as int) == next_comma(
                    self.tokens@,
                    i as int,
                    self.end as int,
                ),
            decreases self.end - i,
        {
            let kind: TokenKind = self.tokens[i].kind;
            match kind {
                TokenKind::Comma => {
                    return i;
                },
                _ => {},
            }
            match kind.opens() {
                Some(b) => {
                    let close: usize = self.find_block_end(i + 1, b);
                    if close < self.end {
                        i = close + 1;
                    } else {
                        i = self.end;
                    }
                },
                None => {
                    i += 1;
                },
            }
        }
        i
    }

    /// Limits the cursor to one item of a comma-separated list, and gives
    /// the end of the stretch read so far, for `leave_item`.
    pub fn enter_item(&mut self) -> (outer_end: usize)
        requires
            old(self).wf(),
        ensures
            final(self).wf(),
            final(self)@ == old(self)@.item(),
            outer_end == old(self)@.end,
            final(self)@.end <= outer_end <= final(self)@.tokens.len(),
            old(self)@.pos <= final(self)@.pos,
    {
        let outer_end: usize = self.end;
        self.settle();
        self.end = self.find_comma(self.pos);
        outer_end
    }

    /// Ends the reading of an item, in the stretch that ends at
    /// `outer_end`: the cursor goes to the comma that follows the item, or
    /// to the end if none does. Says whether there is a comma.
    pub fn leave_item(&mut self, outer_end: usize) -> (more: bool)
        requires
            old(self).wf(),
            old(self)@.end <= outer_end <= old(self)@.tokens.len(),
        ensures
            final(self).wf(),
            more == (old(self)@.end < outer_end),
            final(self)@ == old(self)@.item_left(outer_end as int),
    {
        let more: bool = self.end < outer_end;
        self.pos = self.end;
        self.end = outer_end;
        self.block = None;
        more
    }

    /// Passes over a pending block and over whitespace and comments, and
    /// gives the index that the cursor then stands at: that of the token
    /// that `next` would read, or the end of the stretch.
    pub fn skip_to_token(&mut self) -> (r: usize)
        requires
            old(self).wf(),
        ensures
            final(self).wf(),
            r == old(self)@.upcoming(),
            final(self)@ == old(self)@.at(r as int),
            final(self)@.follows(old(self)@),
    {
        let i: usize = self.find_upcoming();
        self.pos = i;
        self.block = None;
        i
    }

    /// Moves the cursor forward to index `pos`.
    pub fn move_to(&mut self, pos: usize)
        requires
            old(self).wf(),
            old(self)@.pos <= pos <= old(self)@.end,
        ensures
            final(self).wf(),
            final(self)@ == old(self)@.at(pos as int),
    {
        self.pos = pos;
        self.block = None;
    }

    /// Passes over the token that the cursor stands at.
    pub fn skip_delimiter(&mut self)
        requires
            old(self).wf(),
            old(self)@.pos < old(self)@.end,
        ensures
            final(self).wf(),
            final(self)@ == old(self)@.at(old(self)@.pos + 1),
    {
        self.pos = self.pos + 1;
        self.block = None;
    }

    /// Turns the result of reading a stretch into an error if tokens are
    /// left in it.
    pub fn entirely<T>(&self, result: Result<T, ParseError>) -> (r: Result<T, ParseError>)
        requires
            self.wf(),
        ensures
            r == CursorView::entirely(Step { after: self@, result }),
    {
        match result {
            Ok(v) => {
                if self.is_exhausted() {
                    Ok(v)
                } else {
                    Err(
                        ParseError {
                            kind: ParseErrorKind::UnexpectedToken,
                            location: self.current_source_location(),
                        },
                    )
                }
            },
            Err(e) => Err(e),
        }
    }
}

} // verus!
