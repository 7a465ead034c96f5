//! The label of a `format()` function in a source of a font.

use crate::cursor::agrees;
use crate::cursor::CursorView;
use crate::cursor::Step;
use crate::cursor::TokenCursor;
use crate::printer::Printer;
use crate::text::eq_ignore_ascii_case;
use crate::text::lemma_match_shares;
use crate::text::matches_ignore_case;
use crate::text::quote;
use crate::text::quoted_string;
use crate::token::ParseError;
use vstd::prelude::*;

verus! {

/// A font format: one of seven known formats, or any other label, kept as
/// it was written.
#[derive(Debug, Clone, PartialEq, Eq)]
pub enum FontFormat {
    /// A WOFF font.
    WOFF,
    /// A WOFF v2 font.
    WOFF2,
    /// A TrueType font.
    TrueType,
    /// An OpenType font.
    OpenType,
    /// An Embedded OpenType (.eot) font.
    EmbeddedOpenType,
    /// A font collection.
    Collection,
    /// An SVG font.
    SVG,
    /// An unknown format.
    String(String),
}

impl View for FontFormat {
    type V = FontFormat;

    open spec fn view(&self) -> FontFormat {
        *self
    }
}

impl FontFormat {
    /// The format that a label stands for: a known format if the label is
    /// its keyword, whatever the case of its ASCII letters, else the label
    /// itself.
    pub open spec fn named(label: String) -> FontFormat {
        if matches_ignore_case(label@, "woff"@) {
            FontFormat::WOFF
        } else if matches_ignore_case(label@, "woff2"@) {
            FontFormat::WOFF2
        } else if matches_ignore_case(label@, "truetype"@) {
            FontFormat::TrueType
        } else if matches_ignore_case(label@, "opentype"@) {
            FontFormat::OpenType
        } else if matches_ignore_case(label@, "embedded-opentype"@) {
            FontFormat::EmbeddedOpenType
        } else if matches_ignore_case(label@, "collection"@) {
            FontFormat::Collection
        } else if matches_ignore_case(label@, "svg"@) {
            FontFormat::SVG
        } else {
            FontFormat::String(label)
        }
    }

    /// The label of the format: the lower-case keyword of a known format,
    /// or the label that was kept.
    pub open spec fn label(self) -> Seq<char> {
        match self {
            FontFormat::WOFF => "woff"@,
            FontFormat::WOFF2 => "woff2"@,
            FontFormat::TrueType => "truetype"@,
            FontFormat::OpenType => "opentype"@,
            FontFormat::EmbeddedOpenType => "embedded-opentype"@,
            FontFormat::Collection => "collection"@,
            FontFormat::SVG => "svg"@,
            FontFormat::String(s) => s@,
        }
    }

    /// The written form of the format: its label as a quoted string, never
    /// as a bare keyword.
    pub open spec fn css_text(self) -> Seq<char> {
        quoted_string(self.label())
    }

    /// Reading a format: an identifier or a string, taken as a label.
    pub open spec fn parse_spec(c: CursorView) -> Step<FontFormat> {
        let step = c.expect_ident_or_string();
        Step {
            after: step.after,
            result: match step.result {
                Ok(i) => Ok(FontFormat::named(c.tokens[i as int].value)),
                Err(e) => Err(e),
            },
        }
    }

    /// The label of the format that was read from a label is that label,
    /// up to the case of ASCII letters.
    pub proof fn lemma_label_is_kept(label: String)
        ensures
            matches_ignore_case(FontFormat::named(label).label(), label@),
    {
    }

    /// A format that was read from a label is read again from the label
    /// that is written for it: what is written stays the same however
    /// often it is read and written.
    pub proof fn lemma_label_is_read_back(label: String, written: String)
        requires
            written@ == FontFormat::named(label).label(),
        ensures
            FontFormat::named(written).label() == FontFormat::named(label).label(),
            FontFormat::named(written) is String <==> FontFormat::named(label) is String,
    {
        reveal_strlit("woff");
        reveal_strlit("woff2");
        reveal_strlit("truetype");
        reveal_strlit("opentype");
        reveal_strlit("embedded-opentype");
        reveal_strlit("collection");
        reveal_strlit("svg");
        if matches_ignore_case(written@, "woff"@) {
            lemma_match_shares(written@, "woff"@, 0);
        }
        if matches_ignore_case(written@, "woff2"@) {
            lemma_match_shares(written@, "woff2"@, 0);
        }
        if matches_ignore_case(written@, "truetype"@) {
            lemma_match_shares(written@, "truetype"@, 0);
        }
        if matches_ignore_case(written@, "opentype"@) {
            lemma_match_shares(written@, "opentype"@, 0);
        }
        if matches_ignore_case(written@, "embedded-opentype"@) {
            lemma_match_shares(written@, "embedded-opentype"@, 0);
        }
        if matches_ignore_case(written@, "collection"@) {
            lemma_match_shares(written@, "collection"@, 0);
        }
    }

    /// The format that a label stands for.
    pub fn from_label(label: &String) -> (r: FontFormat)
        ensures
            r == FontFormat::named(*label),
    {
        let s: &str = label.as_str();
        if eq_ignore_ascii_case(s, "woff") {
            FontFormat::WOFF
        } else if eq_ignore_ascii_case(s, "woff2") {
            FontFormat::WOFF2
        } else if eq_ignore_ascii_case(s, "truetype") {
            FontFormat::TrueType
        } else if eq_ignore_ascii_case(s, "opentype") {
            FontFormat::OpenType
        } else if eq_ignore_ascii_case(s, "embedded-opentype") {
            FontFormat::EmbeddedOpenType
        } else if eq_ignore_ascii_case(s, "collection") {
            FontFormat::Collection
        } else if eq_ignore_ascii_case(s, "svg") {
            FontFormat::SVG
        } else {
            FontFormat::String(label.clone())
        }
    }

    /// Reads the argument of a `format()` function: an identifier or a
    /// string. A keyword of a known format gives that format, in any case;
    /// any other label is kept as it is.
    pub fn parse(input: &mut TokenCursor) -> (r: Result<FontFormat, ParseError>)
        requires
            old(input).wf(),
        ensures
            final(input).wf(),
            agrees(final(input)@, r, FontFormat::parse_spec(old(input)@)),
    {
        match input.expect_ident_or_string() {
            Ok(i) => Ok(FontFormat::from_label(&input.token(i).value)),
            Err(e) => Err(e),
        }
    }

    /// Writes the format as a quoted string, never as a bare keyword: what
    /// is written starts and ends with a quotation mark.
    pub fn to_css(&self, dest: &mut Printer)
        ensures
            final(dest)@ == old(dest)@.wrote(self.css_text()),
            self.css_text().len() >= 2,
            self.css_text().first() == '"',
            self.css_text().last() == '"',
    {
        let quoted: String = match self {
            FontFormat::WOFF => quote("woff"),
            FontFormat::WOFF2 => quote("woff2"),
            FontFormat::TrueType => quote("truetype"),
            FontFormat::OpenType => quote("opentype"),
            FontFormat::EmbeddedOpenType => quote("embedded-opentype"),
            FontFormat::Collection => quote("collection"),
            FontFormat::SVG => quote("svg"),
            FontFormat::String(s) => quote(s.as_str()),
        };
        dest.write_str(quoted.as_str());
    }
}

} // verus!
