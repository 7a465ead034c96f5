//! The keywords of a `tech()` function in a source of a font.

use crate::cursor::agrees;
use crate::cursor::lemma_prepend_push;
use crate::cursor::prepend;
use crate::cursor::CursorView;
use crate::cursor::Step;
use crate::cursor::TokenCursor;
use crate::printer::Printer;
use crate::text::eq_ignore_ascii_case;
use crate::text::lemma_match_shares;
use crate::text::matches_ignore_case;
use crate::token::ParseError;
use crate::token::ParseErrorKind;
use crate::token::SourceLocation;
use vstd::prelude::*;

verus! {

/// A font technology that a source may ask for.
#[derive(Debug, Clone, Copy, PartialEq, Eq, Structural)]
pub enum FontTechnology {
    /// OpenType feature tables.
    FeaturesOpentype,
    /// AAT feature tables.
    FeaturesAat,
    /// Graphite feature tables.
    FeaturesGraphite,
    /// Color glyphs in COLR version 0.
    ColorColrv0,
    /// Color glyphs in COLR version 1.
    ColorColrv1,
    /// Color glyphs in SVG.
    ColorSvg,
    /// Color glyphs in sbix.
    ColorSbix,
    /// Color glyphs in CBDT.
    ColorCbdt,
    /// Font variations.
    Variations,
    /// Color palettes.
    Palettes,
    /// Incremental loading.
    Incremental,
}

impl View for FontTechnology {
    type V = FontTechnology;

    open spec fn view(&self) -> FontTechnology {
        *self
    }
}

impl FontTechnology {
    /// The technology that a keyword stands for, whatever the case of its
    /// ASCII letters; `None` for any other name.
    pub open spec fn named(name: Seq<char>) -> Option<FontTechnology> {
        if matches_ignore_case(name, "variations"@) {
            Some(FontTechnology::Variations)
        } else if matches_ignore_case(name, "palettes"@) {
            Some(FontTechnology::Palettes)
        } else if matches_ignore_case(name, "incremental"@) {
            Some(FontTechnology::Incremental)
        } else if matches_ignore_case(name, "features-opentype"@) {
            Some(FontTechnology::FeaturesOpentype)
        } else if matches_ignore_case(name, "features-aat"@) {
            Some(FontTechnology::FeaturesAat)
        } else if matches_ignore_case(name, "features-graphite"@) {
            Some(FontTechnology::FeaturesGraphite)
        } else if matches_ignore_case(name, "color-colrv0"@) {
            Some(FontTechnology::ColorColrv0)
        } else if matches_ignore_case(name, "color-colrv1"@) {
            Some(FontTechnology::ColorColrv1)
        } else if matches_ignore_case(name, "color-svg"@) {
            Some(FontTechnology::ColorSvg)
        } else if matches_ignore_case(name, "color-sbix"@) {
            Some(FontTechnology::ColorSbix)
        } else if matches_ignore_case(name, "color-cbdt"@) {
            Some(FontTechnology::ColorCbdt)
        } else {
            None
        }
    }

    /// The lower-case keyword of the technology.
    pub open spec fn keyword(self) -> Seq<char> {
        match self {
            FontTechnology::FeaturesOpentype => "features-opentype"@,
            FontTechnology::FeaturesAat => "features-aat"@,
            FontTechnology::FeaturesGraphite => "features-graphite"@,
            FontTechnology::ColorColrv0 => "color-colrv0"@,
            FontTechnology::ColorColrv1 => "color-colrv1"@,
            FontTechnology::ColorSvg => "color-svg"@,
            FontTechnology::ColorSbix => "color-sbix"@,
            FontTechnology::ColorCbdt => "color-cbdt"@,
            FontTechnology::Variations => "variations"@,
            FontTechnology::Palettes => "palettes"@,
            FontTechnology::Incremental => "incremental"@,
        }
    }

    /// The written form of a list of technologies: the keywords with a
    /// comma between each two and none at the end.
    pub open spec fn list_text(list: Seq<FontTechnology>) -> Seq<char>
        decreases list.len(),
    {
        if list.len() == 0 {
            Seq::empty()
        } else if list.len() == 1 {
            list[0].keyword()
        } else {
            FontTechnology::list_text(list.drop_last()) + seq![','] + list.last().keyword()
        }
    }

    /// Reading a technology: an identifier that is one of the keywords. Any
    /// other token, a string too, is an unexpected token at the place
    /// reading began.
    pub open spec fn parse_spec(c: CursorView) -> Step<FontTechnology> {
        let step = c.expect_ident();
        Step {
            after: step.after,
            result: match step.result {
                Ok(i) => match FontTechnology::named(c.tokens[i as int].value@) {
                    Some(t) => Ok(t),
                    None => Err(c.unexpected()),
                },
                Err(e) => Err(e),
            },
        }
    }

    /// Reading a list of technologies: one or more, with a comma between
    /// each two. Each must fill its stretch between the commas, and the
    /// first that fails ends the reading with its error.
    pub open spec fn parse_list_spec(c: CursorView) -> Step<Seq<FontTechnology>>
        decreases c.end - c.pos,
    {
        match CursorView::entirely(FontTechnology::parse_spec(c.item())) {
            Err(e) => Step { after: c.after_item(), result: Err(e) },
            Ok(v) => if c.more_items() {
                prepend(seq![v], FontTechnology::parse_list_spec(c.next_item()))
            } else {
                Step { after: c.after_item(), result: Ok(seq![v]) }
            },
        }
    }

    /// No two technologies have the same keyword, even up to the case of
    /// ASCII letters.
    pub proof fn lemma_keywords_differ(t: FontTechnology, u: FontTechnology)
        requires
            t != u,
        ensures
            !matches_ignore_case(t.keyword(), u.keyword()),
    {
        reveal_strlit("features-opentype");
        reveal_strlit("features-aat");
        reveal_strlit("features-graphite");
        reveal_strlit("color-colrv0");
        reveal_strlit("color-colrv1");
        reveal_strlit("color-svg");
        reveal_strlit("color-sbix");
        reveal_strlit("color-cbdt");
        reveal_strlit("variations");
        reveal_strlit("palettes");
        reveal_strlit("incremental");
        if matches_ignore_case(t.keyword(), u.keyword()) {
            lemma_match_shares(t.keyword(), u.keyword(), 0);
            lemma_match_shares(t.keyword(), u.keyword(), 6);
            lemma_match_shares(t.keyword(), u.keyword(), 9);
            lemma_match_shares(t.keyword(), u.keyword(), 11);
        }
    }

    /// The keyword that is written for a technology is read as that
    /// technology.
    pub proof fn lemma_keyword_is_read_back(t: FontTechnology)
        ensures
            FontTechnology::named(t.keyword()) == Some(t),
    {
        assert forall|u: FontTechnology| u != t implies !matches_ignore_case(
            t.keyword(),
            #[trigger] u.keyword(),
        ) by {
            FontTechnology::lemma_keywords_differ(t, u);
        }
        // Name the keyword of each technology that `named` tries.
        assert(FontTechnology::Variations.keyword() == "variations"@);
        assert(FontTechnology::Palettes.keyword() == "palettes"@);
        assert(FontTechnology::Incremental.keyword() == "incremental"@);
        assert(FontTechnology::FeaturesOpentype.keyword() == "features-opentype"@);
        assert(FontTechnology::FeaturesAat.keyword() == "features-aat"@);
        assert(FontTechnology::FeaturesGraphite.keyword() == "features-graphite"@);
        assert(FontTechnology::ColorColrv0.keyword() == "color-colrv0"@);
        assert(FontTechnology::ColorColrv1.keyword() == "color-colrv1"@);
        assert(FontTechnology::ColorSvg.keyword() == "color-svg"@);
        assert(FontTechnology::ColorSbix.keyword() == "color-sbix"@);
        assert(FontTechnology::ColorCbdt.keyword() == "color-cbdt"@);
    }

    /// The technology that a keyword stands for.
    pub fn from_keyword(name: &str) -> (r: Option<FontTechnology>)
        ensures
            r == FontTechnology::named(name@),
    {
        if eq_ignore_ascii_case(name, "variations") {
            Some(FontTechnology::Variations)
        } else if eq_ignore_ascii_case(name, "palettes") {
            Some(FontTechnology::Palettes)
        } else if eq_ignore_ascii_case(name, "incremental") {
            Some(FontTechnology::Incremental)
        } else if eq_ignore_ascii_case(name, "features-opentype") {
            Some(FontTechnology::FeaturesOpentype)
        } else if eq_ignore_ascii_case(name, "features-aat") {
            Some(FontTechnology::FeaturesAat)
        } else if eq_ignore_ascii_case(name, "features-graphite") {
            Some(FontTechnology::FeaturesGraphite)
        } else if eq_ignore_ascii_case(name, "color-colrv0") {
            Some(FontTechnology::ColorColrv0)
        } else if eq_ignore_ascii_case(name, "color-colrv1") {
            Some(FontTechnology::ColorColrv1)
        } else if eq_ignore_ascii_case(name, "color-svg") {
            Some(FontTechnology::ColorSvg)
        } else if eq_ignore_ascii_case(name, "color-sbix") {
            Some(FontTechnology::ColorSbix)
        } else if eq_ignore_ascii_case(name, "color-cbdt") {
            Some(FontTechnology::ColorCbdt)
        } else {
            None
        }
    }

    /// Reads one keyword of a `tech()` function. Only an identifier that
    /// is one of the eleven keywords, in any case, is accepted.
    pub fn parse(input: &mut TokenCursor) -> (r: Result<FontTechnology, ParseError>)
        requires
            old(input).wf(),
        ensures
            final(input).wf(),
            agrees(final(input)@, r, FontTechnology::parse_spec(old(input)@)),
    {
        let location: SourceLocation = input.current_source_location();
        match input.expect_ident() {
            Ok(i) => match FontTechnology::from_keyword(input.token(i).value.as_str()) {
                Some(t) => Ok(t),
                None => Err(ParseError { kind: ParseErrorKind::UnexpectedToken, location }),
            },
            Err(e) => Err(e),
        }
    }

    /// Reads the arguments of a `tech()` function: keywords separated by
    /// commas.
    pub fn parse_list(input: &mut TokenCursor) -> (r: Result<Vec<FontTechnology>, ParseError>)
        requires
            old(input).wf(),
        ensures
            final(input).wf(),
            final(input)@.follows(old(input)@),
            final(input)@ == FontTechnology::parse_list_spec(old(input)@).after,
            match r {
                Ok(v) => FontTechnology::parse_list_spec(old(input)@).result == Ok::<
                    Seq<FontTechnology>,
                    ParseError,
                >(v@),
                Err(e) => FontTechnology::parse_list_spec(old(input)@).result == Err::<
                    Seq<FontTechnology>,
                    ParseError,
                >(e),
            },
    {
        let mut values: Vec<FontTechnology> = Vec::new();
        loop
            invariant
                input.wf(),
                input@.follows(old(input)@),
                prepend(values@, FontTechnology::parse_list_spec(input@))
                    == FontTechnology::parse_list_spec(old(input)@),
            decreases input@.end - input@.pos,
        {
            let ghost c = input@;
            let outer_end: usize = input.enter_item();
            let item = FontTechnology::parse(input);
            let item = input.entirely(item);
            let more: bool = input.leave_item(outer_end);
            proof {
                lemma_prepend_push(values@, item->Ok_0, FontTechnology::parse_list_spec(c.next_item()));
                lemma_prepend_push(
                    values@,
                    item->Ok_0,
                    Step { after: c.after_item(), result: Ok(Seq::empty()) },
                );
            }
            match item {
                Err(e) => {
                    return Err(e);
                },
                Ok(v) => {
                    values.push(v);
                    if !more {
                        return Ok(values);
                    }
                    input.skip_delimiter();
                },
            }
        }
    }

    /// Writes the keyword of the technology.
    pub fn to_css(&self, dest: &mut Printer)
        ensures
            final(dest)@ == old(dest)@.wrote(self.keyword()),
    {
        dest.write_str(
            match self {
                FontTechnology::FeaturesOpentype => "features-opentype",
                FontTechnology::FeaturesAat => "features-aat",
                FontTechnology::FeaturesGraphite => "features-graphite",
                FontTechnology::ColorColrv0 => "color-colrv0",
                FontTechnology::ColorColrv1 => "color-colrv1",
                FontTechnology::ColorSvg => "color-svg",
                FontTechnology::ColorSbix => "color-sbix",
                FontTechnology::ColorCbdt => "color-cbdt",
                FontTechnology::Variations => "variations",
                FontTechnology::Palettes => "palettes",
                FontTechnology::Incremental => "incremental",
            },
        );
    }
}

} // verus!
