//! The values that sources are made of: addresses and family names.

use crate::cursor::agrees;
use crate::cursor::CursorView;
use crate::cursor::Step;
use crate::cursor::TokenCursor;
use crate::printer::Printer;
use crate::text::eq_ignore_ascii_case;
use crate::text::matches_ignore_case;
use crate::text::push_char;
use crate::text::quote;
use crate::text::quoted_string;
use crate::text::url_token;
use crate::text::url_token_text;
use crate::token::ParseError;
use crate::token::ParseErrorKind;
use crate::token::SourceLocation;
use crate::token::TokenKind;
use vstd::prelude::*;
use vstd::string::*;

verus! {

/// The address of a resource, with the place it was read at.
#[derive(Debug, Clone, PartialEq, Eq)]
pub struct Url {
    /// The address, without escapes.
    pub url: String,
    /// Where the address stands in the text.
    pub loc: SourceLocation,
}

impl View for Url {
    type V = Url;

    open spec fn view(&self) -> Url {
        *self
    }
}

impl Url {
    /// The written form of the address.
    pub open spec fn css_text(self) -> Seq<char> {
        url_token_text(self.url@)
    }

    /// Reading an address: an unquoted `url(..)` token, or the function
    /// `url(` with one string as its whole contents.
    pub open spec fn parse_spec(c: CursorView) -> Step<Url> {
        let loc = c.location();
        let step = c.next();
        match step.result {
            Err(e) => Step { after: step.after, result: Err(e) },
            Ok(i) => {
                let token = c.tokens[i as int];
                if token.kind == TokenKind::UnquotedUrl {
                    Step { after: step.after, result: Ok(Url { url: token.value, loc }) }
                } else if token.kind == TokenKind::Function && matches_ignore_case(
                    token.value@,
                    "url"@,
                ) {
                    let inner = step.after.block_step(step.after.entered().expect_string());
                    Step {
                        after: inner.after,
                        result: match inner.result {
                            Ok(j) => Ok(Url { url: c.tokens[j as int].value, loc }),
                            Err(e) => Err(e),
                        },
                    }
                } else {
                    Step { after: step.after, result: Err(c.unexpected()) }
                }
            },
        }
    }

    /// Reads an address.
    pub fn parse(input: &mut TokenCursor) -> (r: Result<Url, ParseError>)
        requires
            old(input).wf(),
        ensures
            final(input).wf(),
            final(input)@.follows(old(input)@),
            agrees(final(input)@, r, Url::parse_spec(old(input)@)),
    {
        let loc: SourceLocation = input.current_source_location();
        let i: usize = match input.next() {
            Ok(i) => i,
            Err(e) => {
                return Err(e);
            },
        };
        match input.token(i).kind {
            TokenKind::UnquotedUrl => Ok(Url { url: input.token(i).value.clone(), loc }),
            TokenKind::Function => {
                if eq_ignore_ascii_case(input.token(i).value.as_str(), "url") {
                    let outer_end: usize = input.enter_block();
                    let inner = input.expect_string();
                    let inner = input.entirely(inner);
                    input.leave_block(outer_end);
                    match inner {
                        Ok(j) => Ok(Url { url: input.token(j).value.clone(), loc }),
                        Err(e) => Err(e),
                    }
                } else {
                    Err(ParseError { kind: ParseErrorKind::UnexpectedToken, location: loc })
                }
            },
            _ => Err(ParseError { kind: ParseErrorKind::UnexpectedToken, location: loc }),
        }
    }

    /// Writes the address as a `url(..)` token.
    pub fn to_css(&self, dest: &mut Printer)
        ensures
            final(dest)@ == old(dest)@.wrote(self.css_text()),
    {
        let text: String = url_token(self.url.as_str());
        dest.write_str(text.as_str());
    }
}

/// The name of a font family.
#[derive(Debug, Clone, PartialEq, Eq)]
pub struct FontFamily {
    /// The name, without quotes or escapes.
    pub name: String,
}

impl View for FontFamily {
    type V = Seq<char>;

    open spec fn view(&self) -> Seq<char> {
        self.name@
    }
}

impl FontFamily {
    /// The written form of a family name: a quoted string.
    pub open spec fn css_text(name: Seq<char>) -> Seq<char> {
        quoted_string(name)
    }

    /// The identifiers that follow a name given as identifiers, each added
    /// to the name after one space.
    pub open spec fn more_words(c: CursorView, name: Seq<char>) -> Step<Seq<char>>
        decreases c.end - c.pos,
    {
        let step = c.try_ident();
        match step.result {
            Ok(i) => if c.pos < step.after.pos && step.after.end == c.end {
                FontFamily::more_words(step.after, name + seq![' '] + c.tokens[i as int].value@)
            } else {
                Step { after: step.after, result: Ok(name) }
            },
            Err(_) => Step { after: c, result: Ok(name) },
        }
    }

    /// Reading a family name: one string, or else one or more identifiers,
    /// which make a name with one space between each two.
    pub open spec fn parse_spec(c: CursorView) -> Step<Seq<char>> {
        let quoted = c.try_string();
        match quoted.result {
            Ok(i) => Step { after: quoted.after, result: Ok(c.tokens[i as int].value@) },
            Err(_) => {
                let first = c.expect_ident();
                match first.result {
                    Ok(i) => FontFamily::more_words(first.after, c.tokens[i as int].value@),
                    Err(e) => Step { after: first.after, result: Err(e) },
                }
            },
        }
    }

    /// Reads a family name.
    pub fn parse(input: &mut TokenCursor) -> (r: Result<FontFamily, ParseError>)
        requires
            old(input).wf(),
        ensures
            final(input).wf(),
            final(input)@.follows(old(input)@),
            agrees(final(input)@, r, FontFamily::parse_spec(old(input)@)),
    {
        match input.try_string() {
            Ok(i) => {
                return Ok(FontFamily { name: input.token(i).value.clone() });
            },
            Err(_) => {},
        }
        let first: usize = match input.expect_ident() {
            Ok(i) => i,
            Err(e) => {
                return Err(e);
            },
        };
        let mut name: String = input.token(first).value.clone();
        loop
            invariant
                input.wf(),
                input@.follows(old(input)@),
                FontFamily::more_words(input@, name@) == FontFamily::parse_spec(old(input)@),
            decreases input@.end - input@.pos,
        {
            let ghost before = name@;
            match input.try_ident() {
                Ok(i) => {
                    push_char(&mut name, ' ');
                    name.append(input.token(i).value.as_str());
                    assert(name@ =~= before + seq![' '] + input@.tokens[i as int].value@);
                },
                Err(_) => {
                    return Ok(FontFamily { name });
                },
            }
        }
    }

    /// Writes the family name as a quoted string.
    pub fn to_css(&self, dest: &mut Printer)
        ensures
            final(dest)@ == old(dest)@.wrote(FontFamily::css_text(self@)),
    {
        let text: String = quote(self.name.as_str());
        dest.write_str(text.as_str());
    }
}

/// The `font-style` of a face.
#[derive(Debug, Clone, PartialEq, Eq)]
pub enum FontStyle {
    /// Upright.
    Normal,
    /// Italic.
    Italic,
    /// Slanted, by the angle as it was written, if one was given.
    Oblique(Option<String>),
}

impl View for FontStyle {
    type V = FontStyle;

    open spec fn view(&self) -> FontStyle {
        *self
    }
}

/// Whether a unit is a unit of angles, in any case.
pub open spec fn is_angle_unit(unit: Seq<char>) -> bool {
    matches_ignore_case(unit, "deg"@) || matches_ignore_case(unit, "grad"@) || matches_ignore_case(
        unit,
        "rad"@,
    ) || matches_ignore_case(unit, "turn"@)
}

/// Whether a unit is a unit of angles, in any case.
pub fn angle_unit(unit: &str) -> (r: bool)
    ensures
        r == is_angle_unit(unit@),
{
    eq_ignore_ascii_case(unit, "deg") || eq_ignore_ascii_case(unit, "grad") || eq_ignore_ascii_case(
        unit,
        "rad",
    ) || eq_ignore_ascii_case(unit, "turn")
}

impl FontStyle {
    /// The written form: the keyword and, after a space, the angle of a
    /// slanted style that has one.
    pub open spec fn css_text(self) -> Seq<char> {
        match self {
            FontStyle::Normal => "normal"@,
            FontStyle::Italic => "italic"@,
            FontStyle::Oblique(None) => "oblique"@,
            FontStyle::Oblique(Some(angle)) => "oblique"@ + seq![' '] + angle@,
        }
    }

    /// Reading the angle that may follow `oblique`: a number with a unit
    /// of angles, kept as it is written; nothing, with the cursor left in
    /// place, if none stands there.
    pub open spec fn angle_spec(c: CursorView) -> Step<Option<String>> {
        let step = c.next();
        match step.result {
            Ok(i) => if c.tokens[i as int].kind == TokenKind::Dimension && is_angle_unit(
                c.tokens[i as int].value@,
            ) {
                Step { after: step.after, result: Ok(Some(c.tokens[i as int].raw)) }
            } else {
                Step { after: c, result: Ok(None) }
            },
            Err(_) => Step { after: c, result: Ok(None) },
        }
    }

    /// Reading a style: one of the keywords `normal`, `italic` and
    /// `oblique`, in any case, the last with an optional angle.
    pub open spec fn parse_spec(c: CursorView) -> Step<FontStyle> {
        let step = c.expect_ident();
        match step.result {
            Ok(i) => {
                let name = c.tokens[i as int].value@;
                if matches_ignore_case(name, "normal"@) {
                    Step { after: step.after, result: Ok(FontStyle::Normal) }
                } else if matches_ignore_case(name, "italic"@) {
                    Step { after: step.after, result: Ok(FontStyle::Italic) }
                } else if matches_ignore_case(name, "oblique"@) {
                    let angle = FontStyle::angle_spec(step.after);
                    Step {
                        after: angle.after,
                        result: match angle.result {
                            Ok(a) => Ok(FontStyle::Oblique(a)),
                            Err(e) => Err(e),
                        },
                    }
                } else {
                    Step { after: step.after, result: Err(c.unexpected()) }
                }
            },
            Err(e) => Step { after: step.after, result: Err(e) },
        }
    }

    /// Reads a style.
    pub fn parse(input: &mut TokenCursor) -> (r: Result<FontStyle, ParseError>)
        requires
            old(input).wf(),
        ensures
            final(input).wf(),
            final(input)@.follows(old(input)@),
            agrees(final(input)@, r, FontStyle::parse_spec(old(input)@)),
    {
        let location: SourceLocation = input.current_source_location();
        let i: usize = match input.expect_ident() {
            Ok(i) => i,
            Err(e) => {
                return Err(e);
            },
        };
        if eq_ignore_ascii_case(input.token(i).value.as_str(), "normal") {
            Ok(FontStyle::Normal)
        } else if eq_ignore_ascii_case(input.token(i).value.as_str(), "italic") {
            Ok(FontStyle::Italic)
        } else if eq_ignore_ascii_case(input.token(i).value.as_str(), "oblique") {
            let start = input.state();
            match input.next() {
                Ok(j) => {
                    match input.token(j).kind {
                        TokenKind::Dimension => {
                            if angle_unit(input.token(j).value.as_str()) {
                                return Ok(FontStyle::Oblique(Some(input.token(j).raw.clone())));
                            }
                        },
                        _ => {},
                    }
                },
                Err(_) => {},
            }
            input.reset(start);
            Ok(FontStyle::Oblique(None))
        } else {
            Err(ParseError { kind: ParseErrorKind::UnexpectedToken, location })
        }
    }

    /// Writes the style.
    pub fn to_css(&self, dest: &mut Printer)
        ensures
            final(dest)@ == old(dest)@.wrote(self.css_text()),
    {
        match self {
            FontStyle::Normal => dest.write_str("normal"),
            FontStyle::Italic => dest.write_str("italic"),
            FontStyle::Oblique(None) => dest.write_str("oblique"),
            FontStyle::Oblique(Some(angle)) => {
                dest.write_str("oblique");
                dest.write_char(' ');
                dest.write_str(angle.as_str());
                assert(dest@.output =~= old(dest)@.output + self.css_text());
            },
        }
    }
}

/// Two values of one kind: the bounds of a range, equal where one value
/// was given.
#[derive(Debug, Clone, PartialEq, Eq)]
pub struct Size2D<T>(pub T, pub T);

impl<T> View for Size2D<T> {
    type V = Size2D<T>;

    open spec fn view(&self) -> Size2D<T> {
        *self
    }
}

/// What reading one value and then, if it is there, a second one comes to,
/// where `second` is the step that reads the second value behind the
/// first: without a second value the first stands for both.
pub open spec fn pair_step<T>(first: Step<T>, second: Step<T>) -> Step<Size2D<T>> {
    match first.result {
        Err(e) => Step { after: first.after, result: Err(e) },
        Ok(a) => match second.result {
            Ok(b) => Step { after: second.after, result: Ok(Size2D(a, b)) },
            Err(_) => Step { after: first.after, result: Ok(Size2D(a, a)) },
        },
    }
}

/// The `font-weight` of a face.
#[derive(Debug, Clone, PartialEq, Eq)]
pub enum FontWeight {
    /// The same as 400.
    Normal,
    /// The same as 700.
    Bold,
    /// Bolder than the inherited weight.
    Bolder,
    /// Lighter than the inherited weight.
    Lighter,
    /// A number, as it was written.
    Number(String),
}

impl View for FontWeight {
    type V = FontWeight;

    open spec fn view(&self) -> FontWeight {
        *self
    }
}

impl FontWeight {
    /// The written form: the keyword, or the number as it was written.
    pub open spec fn css_text(self) -> Seq<char> {
        match self {
            FontWeight::Normal => "normal"@,
            FontWeight::Bold => "bold"@,
            FontWeight::Bolder => "bolder"@,
            FontWeight::Lighter => "lighter"@,
            FontWeight::Number(n) => n@,
        }
    }

    /// Whether two weights are the same keyword or the same text.
    pub open spec fn same_as(self, other: FontWeight) -> bool {
        match (self, other) {
            (FontWeight::Normal, FontWeight::Normal) => true,
            (FontWeight::Bold, FontWeight::Bold) => true,
            (FontWeight::Bolder, FontWeight::Bolder) => true,
            (FontWeight::Lighter, FontWeight::Lighter) => true,
            (FontWeight::Number(a), FontWeight::Number(b)) => a@ == b@,
            _ => false,
        }
    }

    /// The written form of one or two weights: the second follows the first
    /// after a space unless it is the same.
    pub open spec fn pair_text(pair: Size2D<FontWeight>) -> Seq<char> {
        if pair.1.same_as(pair.0) {
            pair.0.css_text()
        } else {
            pair.0.css_text() + seq![' '] + pair.1.css_text()
        }
    }

    /// Reading a weight: a number, or one of the keywords `normal`,
    /// `bold`, `bolder` and `lighter`, in any case.
    pub open spec fn parse_spec(c: CursorView) -> Step<FontWeight> {
        let step = c.next();
        match step.result {
            Ok(i) => {
                let token = c.tokens[i as int];
                Step {
                    after: step.after,
                    result: if token.kind == TokenKind::Number {
                        Ok(FontWeight::Number(token.raw))
                    } else if token.kind != TokenKind::Ident {
                        Err(c.unexpected())
                    } else if matches_ignore_case(token.value@, "normal"@) {
                        Ok(FontWeight::Normal)
                    } else if matches_ignore_case(token.value@, "bold"@) {
                        Ok(FontWeight::Bold)
                    } else if matches_ignore_case(token.value@, "bolder"@) {
                        Ok(FontWeight::Bolder)
                    } else if matches_ignore_case(token.value@, "lighter"@) {
                        Ok(FontWeight::Lighter)
                    } else {
                        Err(c.unexpected())
                    },
                }
            },
            Err(e) => Step { after: step.after, result: Err(e) },
        }
    }

    /// Reading one or two weights.
    pub open spec fn parse_pair_spec(c: CursorView) -> Step<Size2D<FontWeight>> {
        let first = FontWeight::parse_spec(c);
        pair_step(first, first.after.attempt(FontWeight::parse_spec(first.after)))
    }

    /// A copy of the weight.
    pub fn duplicate(&self) -> (r: FontWeight)
        ensures
            r == *self,
    {
        match self {
            FontWeight::Normal => FontWeight::Normal,
            FontWeight::Bold => FontWeight::Bold,
            FontWeight::Bolder => FontWeight::Bolder,
            FontWeight::Lighter => FontWeight::Lighter,
            FontWeight::Number(n) => FontWeight::Number(n.clone()),
        }
    }

    /// Whether two weights are the same keyword or the same text.
    pub fn same(&self, other: &FontWeight) -> (r: bool)
        ensures
            r == self.same_as(*other),
    {
        match (self, other) {
            (FontWeight::Normal, FontWeight::Normal) => true,
            (FontWeight::Bold, FontWeight::Bold) => true,
            (FontWeight::Bolder, FontWeight::Bolder) => true,
            (FontWeight::Lighter, FontWeight::Lighter) => true,
            (FontWeight::Number(a), FontWeight::Number(b)) => *a == *b,
            _ => false,
        }
    }

    /// Reads a weight.
    pub fn parse(input: &mut TokenCursor) -> (r: Result<FontWeight, ParseError>)
        requires
            old(input).wf(),
        ensures
            final(input).wf(),
            final(input)@.follows(old(input)@),
            agrees(final(input)@, r, FontWeight::parse_spec(old(input)@)),
    {
        let location: SourceLocation = input.current_source_location();
        let failed: ParseError = ParseError { kind: ParseErrorKind::UnexpectedToken, location };
        let i: usize = match input.next() {
            Ok(i) => i,
            Err(e) => {
                return Err(e);
            },
        };
        match input.token(i).kind {
            TokenKind::Number => Ok(FontWeight::Number(input.token(i).raw.clone())),
            TokenKind::Ident => {
                let name: &str = input.token(i).value.as_str();
                if eq_ignore_ascii_case(name, "normal") {
                    Ok(FontWeight::Normal)
                } else if eq_ignore_ascii_case(name, "bold") {
                    Ok(FontWeight::Bold)
                } else if eq_ignore_ascii_case(name, "bolder") {
                    Ok(FontWeight::Bolder)
                } else if eq_ignore_ascii_case(name, "lighter") {
                    Ok(FontWeight::Lighter)
                } else {
                    Err(failed)
                }
            },
            _ => Err(failed),
        }
    }

    /// Reads one or two weights; one weight stands for both bounds.
    pub fn parse_pair(input: &mut TokenCursor) -> (r: Result<Size2D<FontWeight>, ParseError>)
        requires
            old(input).wf(),
        ensures
            final(input).wf(),
            final(input)@.follows(old(input)@),
            agrees(final(input)@, r, FontWeight::parse_pair_spec(old(input)@)),
    {
        let first: FontWeight = match FontWeight::parse(input) {
            Ok(first) => first,
            Err(e) => {
                return Err(e);
            },
        };
        let start = input.state();
        match FontWeight::parse(input) {
            Ok(second) => Ok(Size2D(first, second)),
            Err(_) => {
                input.reset(start);
                let second: FontWeight = first.duplicate();
                Ok(Size2D(first, second))
            },
        }
    }

    /// Writes the weight.
    pub fn to_css(&self, dest: &mut Printer)
        ensures
            final(dest)@ == old(dest)@.wrote(self.css_text()),
    {
        match self {
            FontWeight::Normal => dest.write_str("normal"),
            FontWeight::Bold => dest.write_str("bold"),
            FontWeight::Bolder => dest.write_str("bolder"),
            FontWeight::Lighter => dest.write_str("lighter"),
            FontWeight::Number(n) => dest.write_str(n.as_str()),
        }
    }

    /// Writes one or two weights.
    pub fn pair_to_css(pair: &Size2D<FontWeight>, dest: &mut Printer)
        ensures
            final(dest)@ == old(dest)@.wrote(FontWeight::pair_text(*pair)),
    {
        pair.0.to_css(dest);
        if !pair.1.same(&pair.0) {
            dest.write_char(' ');
            pair.1.to_css(dest);
            assert(dest@.output =~= old(dest)@.output + FontWeight::pair_text(*pair));
        }
    }
}

/// The `font-stretch` of a face.
#[derive(Debug, Clone, PartialEq, Eq)]
pub enum FontStretch {
    Normal,
    UltraCondensed,
    ExtraCondensed,
    Condensed,
    SemiCondensed,
    SemiExpanded,
    Expanded,
    ExtraExpanded,
    UltraExpanded,
    /// A percentage, as it was written.
    Percentage(String),
}

impl View for FontStretch {
    type V = FontStretch;

    open spec fn view(&self) -> FontStretch {
        *self
    }
}

impl FontStretch {
    /// The stretch that a keyword stands for, whatever the case of its
    /// ASCII letters; `None` for any other name.
    pub open spec fn named(name: Seq<char>) -> Option<FontStretch> {
        if matches_ignore_case(name, "normal"@) {
            Some(FontStretch::Normal)
        } else if matches_ignore_case(name, "ultra-condensed"@) {
            Some(FontStretch::UltraCondensed)
        } else if matches_ignore_case(name, "extra-condensed"@) {
            Some(FontStretch::ExtraCondensed)
        } else if matches_ignore_case(name, "condensed"@) {
            Some(FontStretch::Condensed)
        } else if matches_ignore_case(name, "semi-condensed"@) {
            Some(FontStretch::SemiCondensed)
        } else if matches_ignore_case(name, "semi-expanded"@) {
            Some(FontStretch::SemiExpanded)
        } else if matches_ignore_case(name, "expanded"@) {
            Some(FontStretch::Expanded)
        } else if matches_ignore_case(name, "extra-expanded"@) {
            Some(FontStretch::ExtraExpanded)
        } else if matches_ignore_case(name, "ultra-expanded"@) {
            Some(FontStretch::UltraExpanded)
        } else {
            None
        }
    }

    /// The written form: the keyword, or the percentage as it was written.
    pub open spec fn css_text(self) -> Seq<char> {
        match self {
            FontStretch::Normal => "normal"@,
            FontStretch::UltraCondensed => "ultra-condensed"@,
            FontStretch::ExtraCondensed => "extra-condensed"@,
            FontStretch::Condensed => "condensed"@,
            FontStretch::SemiCondensed => "semi-condensed"@,
            FontStretch::SemiExpanded => "semi-expanded"@,
            FontStretch::Expanded => "expanded"@,
            FontStretch::ExtraExpanded => "extra-expanded"@,
            FontStretch::UltraExpanded => "ultra-expanded"@,
            FontStretch::Percentage(p) => p@,
        }
    }

    /// Whether two values are the same keyword or the same text.
    pub open spec fn same_as(self, other: FontStretch) -> bool {
        match (self, other) {
            (FontStretch::Percentage(a), FontStretch::Percentage(b)) => a@ == b@,
            (FontStretch::Percentage(_), _) => false,
            (_, FontStretch::Percentage(_)) => false,
            _ => self == other,
        }
    }

    /// The written form of one or two values: the second follows the first
    /// after a space unless it is the same.
    pub open spec fn pair_text(pair: Size2D<FontStretch>) -> Seq<char> {
        if pair.1.same_as(pair.0) {
            pair.0.css_text()
        } else {
            pair.0.css_text() + seq![' '] + pair.1.css_text()
        }
    }

    /// Reading a stretch: a percentage, or one of the nine keywords, in
    /// any case.
    pub open spec fn parse_spec(c: CursorView) -> Step<FontStretch> {
        let step = c.next();
        match step.result {
            Ok(i) => {
                let token = c.tokens[i as int];
                Step {
                    after: step.after,
                    result: if token.kind == TokenKind::Percentage {
                        Ok(FontStretch::Percentage(token.raw))
                    } else if token.kind != TokenKind::Ident {
                        Err(c.unexpected())
                    } else {
                        match FontStretch::named(token.value@) {
                            Some(stretch) => Ok(stretch),
                            None => Err(c.unexpected()),
                        }
                    },
                }
            },
            Err(e) => Step { after: step.after, result: Err(e) },
        }
    }

    /// Reading one or two values.
    pub open spec fn parse_pair_spec(c: CursorView) -> Step<Size2D<FontStretch>> {
        let first = FontStretch::parse_spec(c);
        pair_step(first, first.after.attempt(FontStretch::parse_spec(first.after)))
    }

    /// The stretch that a keyword stands for.
    pub fn from_keyword(name: &str) -> (r: Option<FontStretch>)
        ensures
            r == FontStretch::named(name@),
    {
        if eq_ignore_ascii_case(name, "normal") {
            Some(FontStretch::Normal)
        } else if eq_ignore_ascii_case(name, "ultra-condensed") {
            Some(FontStretch::UltraCondensed)
        } else if eq_ignore_ascii_case(name, "extra-condensed") {
            Some(FontStretch::ExtraCondensed)
        } else if eq_ignore_ascii_case(name, "condensed") {
            Some(FontStretch::Condensed)
        } else if eq_ignore_ascii_case(name, "semi-condensed") {
            Some(FontStretch::SemiCondensed)
        } else if eq_ignore_ascii_case(name, "semi-expanded") {
            Some(FontStretch::SemiExpanded)
        } else if eq_ignore_ascii_case(name, "expanded") {
            Some(FontStretch::Expanded)
        } else if eq_ignore_ascii_case(name, "extra-expanded") {
            Some(FontStretch::ExtraExpanded)
        } else if eq_ignore_ascii_case(name, "ultra-expanded") {
            Some(FontStretch::UltraExpanded)
        } else {
            None
        }
    }

    /// A copy of the value.
    pub fn duplicate(&self) -> (r: FontStretch)
        ensures
            r == *self,
    {
        match self {
            FontStretch::Normal => FontStretch::Normal,
            FontStretch::UltraCondensed => FontStretch::UltraCondensed,
            FontStretch::ExtraCondensed => FontStretch::ExtraCondensed,
            FontStretch::Condensed => FontStretch::Condensed,
            FontStretch::SemiCondensed => FontStretch::SemiCondensed,
            FontStretch::SemiExpanded => FontStretch::SemiExpanded,
            FontStretch::Expanded => FontStretch::Expanded,
            FontStretch::ExtraExpanded => FontStretch::ExtraExpanded,
            FontStretch::UltraExpanded => FontStretch::UltraExpanded,
            FontStretch::Percentage(p) => FontStretch::Percentage(p.clone()),
        }
    }

    /// Whether two values are the same keyword or the same text.
    pub fn same(&self, other: &FontStretch) -> (r: bool)
        ensures
            r == self.same_as(*other),
    {
        match (self, other) {
            (FontStretch::Percentage(a), FontStretch::Percentage(b)) => *a == *b,
            (FontStretch::Percentage(_), _) => false,
            (_, FontStretch::Percentage(_)) => false,
            (FontStretch::Normal, FontStretch::Normal) => true,
            (FontStretch::UltraCondensed, FontStretch::UltraCondensed) => true,
            (FontStretch::ExtraCondensed, FontStretch::ExtraCondensed) => true,
            (FontStretch::Condensed, FontStretch::Condensed) => true,
            (FontStretch::SemiCondensed, FontStretch::SemiCondensed) => true,
            (FontStretch::SemiExpanded, FontStretch::SemiExpanded) => true,
            (FontStretch::Expanded, FontStretch::Expanded) => true,
            (FontStretch::ExtraExpanded, FontStretch::ExtraExpanded) => true,
            (FontStretch::UltraExpanded, FontStretch::UltraExpanded) => true,
            _ => false,
        }
    }

    /// Reads a stretch.
    pub fn parse(input: &mut TokenCursor) -> (r: Result<FontStretch, ParseError>)
        requires
            old(input).wf(),
        ensures
            final(input).wf(),
            final(input)@.follows(old(input)@),
            agrees(final(input)@, r, FontStretch::parse_spec(old(input)@)),
    {
        let location: SourceLocation = input.current_source_location();
        let failed: ParseError = ParseError { kind: ParseErrorKind::UnexpectedToken, location };
        let i: usize = match input.next() {
            Ok(i) => i,
            Err(e) => {
                return Err(e);
            },
        };
        match input.token(i).kind {
            TokenKind::Percentage => Ok(FontStretch::Percentage(input.token(i).raw.clone())),
            TokenKind::Ident => match FontStretch::from_keyword(input.token(i).value.as_str()) {
                Some(stretch) => Ok(stretch),
                None => Err(failed),
            },
            _ => Err(failed),
        }
    }

    /// Reads one or two values; one value stands for both bounds.
    pub fn parse_pair(input: &mut TokenCursor) -> (r: Result<Size2D<FontStretch>, ParseError>)
        requires
            old(input).wf(),
        ensures
            final(input).wf(),
            final(input)@.follows(old(input)@),
            agrees(final(input)@, r, FontStretch::parse_pair_spec(old(input)@)),
    {
        let first: FontStretch = match FontStretch::parse(input) {
            Ok(first) => first,
            Err(e) => {
                return Err(e);
            },
        };
        let start = input.state();
        match FontStretch::parse(input) {
            Ok(second) => Ok(Size2D(first, second)),
            Err(_) => {
                input.reset(start);
                let second: FontStretch = first.duplicate();
                Ok(Size2D(first, second))
            },
        }
    }

    /// Writes the stretch.
    pub fn to_css(&self, dest: &mut Printer)
        ensures
            final(dest)@ == old(dest)@.wrote(self.css_text()),
    {
        match self {
            FontStretch::Normal => dest.write_str("normal"),
            FontStretch::UltraCondensed => dest.write_str("ultra-condensed"),
            FontStretch::ExtraCondensed => dest.write_str("extra-condensed"),
            FontStretch::Condensed => dest.write_str("condensed"),
            FontStretch::SemiCondensed => dest.write_str("semi-condensed"),
            FontStretch::SemiExpanded => dest.write_str("semi-expanded"),
            FontStretch::Expanded => dest.write_str("expanded"),
            FontStretch::ExtraExpanded => dest.write_str("extra-expanded"),
            FontStretch::UltraExpanded => dest.write_str("ultra-expanded"),
            FontStretch::Percentage(p) => dest.write_str(p.as_str()),
        }
    }

    /// Writes one or two values.
    pub fn pair_to_css(pair: &Size2D<FontStretch>, dest: &mut Printer)
        ensures
            final(dest)@ == old(dest)@.wrote(FontStretch::pair_text(*pair)),
    {
        pair.0.to_css(dest);
        if !pair.1.same(&pair.0) {
            dest.write_char(' ');
            pair.1.to_css(dest);
            assert(dest@.output =~= old(dest)@.output + FontStretch::pair_text(*pair));
        }
    }
}

} // verus!
