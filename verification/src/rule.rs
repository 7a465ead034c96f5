//! The `@font-face` rule: its descriptors, how each is read from a name
//! and a value, and how the rule is written.

use crate::cursor::agrees;
use crate::cursor::CursorState;
use crate::cursor::CursorView;
use crate::cursor::Step;
use crate::cursor::TokenCursor;
use crate::custom::CustomProperty;
use crate::custom::CustomPropertyView;
use crate::printer::delim_text;
use crate::printer::newline_text;
use crate::printer::whitespace_text;
use crate::printer::Location;
use crate::printer::Mapping;
use crate::printer::Printer;
use crate::printer::PrinterView;
use crate::cursor::map_step;
use crate::source::Source;
use crate::source::SourceView;
use crate::text::eq_ignore_ascii_case;
use crate::text::matches_ignore_case;
use crate::token::ParseError;
use crate::unicode_range::UnicodeRange;
use crate::values::FontFamily;
use crate::values::FontStretch;
use crate::values::FontStyle;
use crate::values::FontWeight;
use crate::values::Size2D;
use vstd::prelude::*;

verus! {

/// An `@font-face` rule.
#[derive(Debug, Clone, PartialEq, Eq)]
pub struct FontFaceRule {
    /// The descriptors of the rule, in the order they were met. A
    /// descriptor that occurs twice is kept twice.
    pub properties: Vec<FontFaceProperty>,
    /// The location of the rule in the source file.
    pub loc: Location,
}

/// A descriptor within an `@font-face` rule.
#[derive(Debug, Clone, PartialEq, Eq)]
pub enum FontFaceProperty {
    /// The `src` descriptor.
    Source(Vec<Source>),
    /// The `font-family` descriptor.
    FontFamily(FontFamily),
    /// The `font-style` descriptor.
    FontStyle(FontStyle),
    /// The `font-weight` descriptor.
    FontWeight(Size2D<FontWeight>),
    /// The `font-stretch` descriptor.
    FontStretch(Size2D<FontStretch>),
    /// The `unicode-range` descriptor.
    UnicodeRange(Vec<UnicodeRange>),
    /// A descriptor that is not known, or whose value is not of the form
    /// that its name asks for.
    Custom(CustomProperty),
}

/// What a `FontFaceProperty` stands for in contracts.
pub enum FontFacePropertyView {
    Source(Seq<SourceView>),
    FontFamily(Seq<char>),
    FontStyle(FontStyle),
    FontWeight(Size2D<FontWeight>),
    FontStretch(Size2D<FontStretch>),
    UnicodeRange(Seq<UnicodeRange>),
    Custom(CustomPropertyView),
}

impl View for FontFaceProperty {
    type V = FontFacePropertyView;

    open spec fn view(&self) -> FontFacePropertyView {
        match self {
            FontFaceProperty::Source(list) => FontFacePropertyView::Source(Source::views(list@)),
            FontFaceProperty::FontFamily(family) => FontFacePropertyView::FontFamily(family@),
            FontFaceProperty::FontStyle(style) => FontFacePropertyView::FontStyle(*style),
            FontFaceProperty::FontWeight(weight) => FontFacePropertyView::FontWeight(*weight),
            FontFaceProperty::FontStretch(stretch) => FontFacePropertyView::FontStretch(*stretch),
            FontFaceProperty::UnicodeRange(list) => FontFacePropertyView::UnicodeRange(list@),
            FontFaceProperty::Custom(custom) => FontFacePropertyView::Custom(custom@),
        }
    }
}

/// What a `FontFaceRule` stands for in contracts.
pub struct FontFaceRuleView {
    pub properties: Seq<FontFacePropertyView>,
    pub loc: Location,
}

impl View for FontFaceRule {
    type V = FontFaceRuleView;

    open spec fn view(&self) -> FontFaceRuleView {
        FontFaceRuleView { properties: FontFaceProperty::views(self.properties@), loc: self.loc }
    }
}

impl FontFacePropertyView {
    /// The written form of a descriptor: its name, a colon with optional
    /// whitespace after it, and its value; the items of a list with a
    /// comma and optional whitespace between each two.
    pub open spec fn css_text(self, minify: bool) -> Seq<char> {
        match self {
            FontFacePropertyView::Source(list) => "src"@ + delim_text(':', false, minify)
                + Source::list_text(list, minify),
            FontFacePropertyView::FontFamily(name) => "font-family"@ + delim_text(
                ':',
                false,
                minify,
            ) + FontFamily::css_text(name),
            FontFacePropertyView::FontStyle(style) => "font-style"@ + delim_text(
                ':',
                false,
                minify,
            ) + style.css_text(),
            FontFacePropertyView::FontWeight(weight) => "font-weight"@ + delim_text(
                ':',
                false,
                minify,
            ) + FontWeight::pair_text(weight),
            FontFacePropertyView::FontStretch(stretch) => "font-stretch"@ + delim_text(
                ':',
                false,
                minify,
            ) + FontStretch::pair_text(stretch),
            FontFacePropertyView::UnicodeRange(list) => "unicode-range"@ + delim_text(
                ':',
                false,
                minify,
            ) + UnicodeRange::list_text(list, minify),
            FontFacePropertyView::Custom(custom) => custom.css_text(minify),
        }
    }
}

impl FontFaceProperty {
    /// The views of a list of descriptors.
    pub open spec fn views(list: Seq<FontFaceProperty>) -> Seq<FontFacePropertyView> {
        Seq::new(list.len(), |i: int| list[i]@)
    }

    /// Writes the descriptor: its name, a colon and its value.
    pub fn to_css(&self, dest: &mut Printer)
        ensures
            final(dest)@ == old(dest)@.wrote(self@.css_text(old(dest)@.minify)),
    {
        match self {
            FontFaceProperty::Source(value) => {
                dest.write_str("src");
                dest.delim(':', false);
                Source::list_to_css(value, dest);
            },
            FontFaceProperty::FontFamily(value) => {
                dest.write_str("font-family");
                dest.delim(':', false);
                value.to_css(dest);
            },
            FontFaceProperty::FontStyle(value) => {
                dest.write_str("font-style");
                dest.delim(':', false);
                value.to_css(dest);
            },
            FontFaceProperty::FontWeight(value) => {
                dest.write_str("font-weight");
                dest.delim(':', false);
                FontWeight::pair_to_css(value, dest);
            },
            FontFaceProperty::FontStretch(value) => {
                dest.write_str("font-stretch");
                dest.delim(':', false);
                FontStretch::pair_to_css(value, dest);
            },
            FontFaceProperty::UnicodeRange(value) => {
                dest.write_str("unicode-range");
                dest.delim(':', false);
                UnicodeRange::list_to_css(value, dest);
            },
            FontFaceProperty::Custom(custom) => {
                custom.to_css(dest);
            },
        }
        assert(dest@.output =~= old(dest)@.output + self@.css_text(dest@.minify));
    }
}

/// Reads the descriptors of an `@font-face` rule, one at a time, each from
/// its name and the tokens of its value.
pub struct FontFaceDeclarationParser;

impl FontFaceDeclarationParser {
    /// Reading the value in the form that the name asks for: `None` for a
    /// name that is not one of the six known descriptors, in any case.
    pub open spec fn typed_spec(name: Seq<char>, c: CursorView) -> Option<
        Step<FontFacePropertyView>,
    > {
        if matches_ignore_case(name, "src"@) {
            Some(
                map_step(
                    Source::parse_list_spec(c),
                    |v: Seq<SourceView>| FontFacePropertyView::Source(v),
                ),
            )
        } else if matches_ignore_case(name, "font-family"@) {
            Some(
                map_step(
                    FontFamily::parse_spec(c),
                    |v: Seq<char>| FontFacePropertyView::FontFamily(v),
                ),
            )
        } else if matches_ignore_case(name, "font-weight"@) {
            Some(
                map_step(
                    FontWeight::parse_pair_spec(c),
                    |v: Size2D<FontWeight>| FontFacePropertyView::FontWeight(v),
                ),
            )
        } else if matches_ignore_case(name, "font-style"@) {
            Some(
                map_step(
                    FontStyle::parse_spec(c),
                    |v: FontStyle| FontFacePropertyView::FontStyle(v),
                ),
            )
        } else if matches_ignore_case(name, "font-stretch"@) {
            Some(
                map_step(
                    FontStretch::parse_pair_spec(c),
                    |v: Size2D<FontStretch>| FontFacePropertyView::FontStretch(v),
                ),
            )
        } else if matches_ignore_case(name, "unicode-range"@) {
            Some(
                map_step(
                    UnicodeRange::parse_list_spec(c),
                    |v: Seq<UnicodeRange>| FontFacePropertyView::UnicodeRange(v),
                ),
            )
        } else {
            None
        }
    }

    /// Reading a descriptor: the value in the form that the name asks for,
    /// if the name is known and the value has that form; else the name and
    /// the whole value as they were written, read from where the value
    /// starts.
    pub open spec fn parse_value_spec(name: Seq<char>, c: CursorView) -> Step<
        FontFacePropertyView,
    > {
        let custom = map_step(
            CustomProperty::parse_spec(name, c),
            |v: CustomPropertyView| FontFacePropertyView::Custom(v),
        );
        match FontFaceDeclarationParser::typed_spec(name, c) {
            Some(typed) => if typed.result is Ok {
                typed
            } else {
                custom
            },
            None => custom,
        }
    }

    /// Reads one descriptor from its name and the tokens of its value. A
    /// known name, in any case, has the value read in its own form. Where
    /// the name is not known, or the value does not have that form, the
    /// cursor goes back to the start of the value and the descriptor is
    /// kept as it was written. This never fails.
    pub fn parse_value(&mut self, name: &str, input: &mut TokenCursor) -> (r: Result<
        FontFaceProperty,
        ParseError,
    >)
        requires
            old(input).wf(),
        ensures
            final(input).wf(),
            final(input)@.follows(old(input)@),
            r is Ok,
            agrees(
                final(input)@,
                r,
                FontFaceDeclarationParser::parse_value_spec(name@, old(input)@),
            ),
    {
        let state: CursorState = input.state();
        if eq_ignore_ascii_case(name, "src") {
            match Source::parse_list(input) {
                Ok(sources) => {
                    return Ok(FontFaceProperty::Source(sources));
                },
                Err(_) => {},
            }
        } else if eq_ignore_ascii_case(name, "font-family") {
            match FontFamily::parse(input) {
                Ok(c) => {
                    return Ok(FontFaceProperty::FontFamily(c));
                },
                Err(_) => {},
            }
        } else if eq_ignore_ascii_case(name, "font-weight") {
            match FontWeight::parse_pair(input) {
                Ok(c) => {
                    return Ok(FontFaceProperty::FontWeight(c));
                },
                Err(_) => {},
            }
        } else if eq_ignore_ascii_case(name, "font-style") {
            match FontStyle::parse(input) {
                Ok(c) => {
                    return Ok(FontFaceProperty::FontStyle(c));
                },
                Err(_) => {},
            }
        } else if eq_ignore_ascii_case(name, "font-stretch") {
            match FontStretch::parse_pair(input) {
                Ok(c) => {
                    return Ok(FontFaceProperty::FontStretch(c));
                },
                Err(_) => {},
            }
        } else if eq_ignore_ascii_case(name, "unicode-range") {
            match UnicodeRange::parse_list(input) {
                Ok(c) => {
                    return Ok(FontFaceProperty::UnicodeRange(c));
                },
                Err(_) => {},
            }
        }
        input.reset(state);
        Ok(FontFaceProperty::Custom(CustomProperty::parse(name, input)))
    }
}

impl FontFaceRuleView {
    /// The lines of the first `count` descriptors: each on a line of its
    /// own, followed by a semicolon, which the last descriptor of the rule
    /// goes without when minifying.
    pub open spec fn lines(self, count: nat, minify: bool, indent: nat) -> Seq<char>
        decreases count,
    {
        if count == 0 || count > self.properties.len() {
            Seq::empty()
        } else {
            self.lines((count - 1) as nat, minify, indent) + newline_text(minify, indent)
                + self.properties[count - 1].css_text(minify) + (if count != self.properties.len()
                || !minify {
                seq![';']
            } else {
                Seq::empty()
            })
        }
    }

    /// The written form of the rule: the keyword, the opening brace after
    /// optional whitespace, the descriptors in their order on lines that
    /// are indented by two more spaces, and the closing brace on a line of
    /// its own.
    pub open spec fn css_text(self, minify: bool, indent: nat) -> Seq<char> {
        "@font-face"@ + whitespace_text(minify) + seq!['{'] + self.lines(
            self.properties.len(),
            minify,
            indent + 2,
        ) + newline_text(minify, indent) + seq!['}']
    }
}

impl FontFaceRuleView {
    /// The first `count` descriptors as they are written when minifying,
    /// with a semicolon between each two and none at the end.
    pub open spec fn joined(self, count: nat) -> Seq<char>
        decreases count,
    {
        if count == 0 || count > self.properties.len() {
            Seq::empty()
        } else if count == 1 {
            self.properties[0].css_text(true)
        } else {
            self.joined((count - 1) as nat) + seq![';'] + self.properties[count - 1].css_text(true)
        }
    }

    /// When minifying, the lines of the first descriptors, short of the
    /// last one, are these descriptors with a semicolon behind each.
    pub proof fn lemma_minified_lines(self, count: nat, indent: nat)
        requires
            count < self.properties.len(),
        ensures
            self.lines(count, true, indent) == (if count == 0 {
                Seq::<char>::empty()
            } else {
                self.joined(count) + seq![';']
            }),
        decreases count,
    {
        if count > 0 {
            self.lemma_minified_lines((count - 1) as nat, indent);
            let d = self.properties[count - 1].css_text(true);
            let before = self.lines((count - 1) as nat, true, indent);
            assert(self.lines(count, true, indent) =~= before + d + seq![';']);
            if count > 1 {
                assert(self.joined(count) + seq![';'] =~= self.joined((count - 1) as nat) + seq![
                    ';',
                ] + d + seq![';']);
            }
        }
    }

    /// A minified rule with at least one descriptor is the keyword, the
    /// opening brace, the descriptors with a semicolon between each two,
    /// and the closing brace: one semicolon fewer than there are
    /// descriptors, and none before the closing brace.
    pub proof fn lemma_minified_text(self, indent: nat)
        requires
            self.properties.len() >= 1,
        ensures
            self.css_text(true, indent) == "@font-face"@ + seq!['{'] + self.joined(
                self.properties.len(),
            ) + seq!['}'],
    {
        let n = self.properties.len();
        self.lemma_minified_lines((n - 1) as nat, indent + 2);
        let d = self.properties[n - 1].css_text(true);
        let before = self.lines((n - 1) as nat, true, indent + 2);
        assert(self.lines(n, true, indent + 2) =~= before + d);
        assert(self.lines(n, true, indent + 2) =~= self.joined(n));
        assert(self.css_text(true, indent) =~= "@font-face"@ + seq!['{'] + self.joined(n) + seq![
            '}',
        ]);
    }
}

impl FontFaceRule {
    /// Writes the rule as a block, and records where it came from. The
    /// descriptors keep their order and none is left out.
    pub fn to_css(&self, dest: &mut Printer)
        requires
            old(dest)@.indent + 2 <= usize::MAX,
        ensures
            final(dest)@ == (PrinterView {
                output: old(dest)@.output + self@.css_text(old(dest)@.minify, old(dest)@.indent),
                mappings: old(dest)@.mappings.push(
                    Mapping { generated: old(dest)@.output.len() as usize, source: self.loc },
                ),
                ..old(dest)@
            }),
    {
        let ghost minify = dest@.minify;
        let ghost indent = dest@.indent;
        let ghost start = dest@.output;
        dest.add_mapping(self.loc);
        dest.write_str("@font-face");
        dest.whitespace();
        dest.write_char('{');
        dest.indent();
        let ghost head = "@font-face"@ + whitespace_text(minify) + seq!['{'];
        let ghost inner = dest@;
        assert(inner.output =~= start + head);
        let len: usize = self.properties.len();
        let mut i: usize = 0;
        assert(start + head + self@.lines(0, minify, indent + 2) =~= start + head);
        while i < len
            invariant
                i <= len,
                len == self.properties@.len(),
                dest@ == (PrinterView {
                    output: start + head + self@.lines(i as nat, minify, indent + 2),
                    ..inner
                }),
                inner.minify == minify,
                inner.indent == indent + 2,
            decreases len - i,
        {
            dest.newline();
            self.properties[i].to_css(dest);
            if i != len - 1 || !dest.minify() {
                dest.write_char(';');
            }
            i += 1;
            assert(dest@.output =~= start + head + self@.lines(i as nat, minify, indent + 2));
        }
        dest.dedent();
        dest.newline();
        dest.write_char('}');
        assert(dest@.output =~= start + self@.css_text(minify, indent));
    }
}

} // verus!
