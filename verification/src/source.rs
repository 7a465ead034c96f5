//! The items of the `src` descriptor: where a font can be had from.

use crate::cursor::agrees;
use crate::cursor::lemma_prepend_push;
use crate::cursor::map_step;
use crate::cursor::prepend;
use crate::cursor::CursorState;
use crate::cursor::CursorView;
use crate::cursor::Step;
use crate::cursor::TokenCursor;
use crate::font_format::FontFormat;
use crate::font_technology::FontTechnology;
use crate::printer::delim_text;
use crate::printer::whitespace_text;
use crate::printer::Printer;
use crate::token::ParseError;
use crate::token::ParseErrorKind;
use crate::token::SourceLocation;
use crate::values::FontFamily;
use crate::values::Url;
use vstd::prelude::*;

verus! {

/// A font file at an address, with optional hints on its format and on the
/// technologies it needs.
#[derive(Debug, Clone, PartialEq, Eq)]
pub struct UrlSource {
    /// The address.
    pub url: Url,
    /// The argument of the `format()` function, if there is one.
    pub format: Option<FontFormat>,
    /// The arguments of the `tech()` function; empty if there is none.
    pub tech: Vec<FontTechnology>,
}

/// What a `UrlSource` stands for in contracts.
pub struct UrlSourceView {
    pub url: Url,
    pub format: Option<FontFormat>,
    pub tech: Seq<FontTechnology>,
}

impl View for UrlSource {
    type V = UrlSourceView;

    open spec fn view(&self) -> UrlSourceView {
        UrlSourceView { url: self.url, format: self.format, tech: self.tech@ }
    }
}

/// One item of the `src` descriptor.
#[derive(Debug, Clone, PartialEq, Eq)]
pub enum Source {
    /// A font file at an address.
    Url(UrlSource),
    /// A font that is installed under a family name.
    Local(FontFamily),
}

/// What a `Source` stands for in contracts.
pub enum SourceView {
    Url(UrlSourceView),
    Local(Seq<char>),
}

impl View for Source {
    type V = SourceView;

    open spec fn view(&self) -> SourceView {
        match self {
            Source::Url(url) => SourceView::Url(url@),
            Source::Local(family) => SourceView::Local(family@),
        }
    }
}

impl UrlSourceView {
    /// The written form up to the technologies: the address and the
    /// `format()` function.
    pub open spec fn front_text(self, minify: bool) -> Seq<char> {
        self.url.css_text() + (match self.format {
            Some(format) => whitespace_text(minify) + "format("@ + format.css_text() + seq![')'],
            None => Seq::empty(),
        })
    }

    /// The written form: the address; then, if there is a format, optional
    /// whitespace and the `format()` function; then, if there are
    /// technologies, optional whitespace and the `tech()` function.
    pub open spec fn css_text(self, minify: bool) -> Seq<char> {
        self.front_text(minify) + (if self.tech.len() > 0 {
            whitespace_text(minify) + "tech("@ + FontTechnology::list_text(self.tech) + seq![')']
        } else {
            Seq::empty()
        })
    }
}

impl UrlSource {
    /// The rule on the order of the two functions: `tech()` may not stand
    /// at an earlier place than `format()`.
    pub open spec fn order_spec(format: Option<SourceLocation>, tech: SourceLocation) -> Result<
        (),
        ParseError,
    > {
        match format {
            Some(at) => if tech.precedes(at) {
                Err(ParseError { kind: ParseErrorKind::MalformedAtRuleBody, location: tech })
            } else {
                Ok(())
            },
            None => Ok(()),
        }
    }

    /// Reading the optional `format()` function: nothing, with the cursor
    /// left in place, if the function is not there; else its one argument.
    pub open spec fn format_spec(c: CursorView) -> Step<Option<FontFormat>> {
        let start = c.try_function_matching("format"@);
        if start.result is Ok {
            map_step(
                start.after.block_step(FontFormat::parse_spec(start.after.entered())),
                |f: FontFormat| Some(f),
            )
        } else {
            Step { after: c, result: Ok(None) }
        }
    }

    /// The place recorded for the `format()` function: the one the cursor
    /// stands at when the start of the function has been read.
    pub open spec fn format_location(c: CursorView) -> Option<SourceLocation> {
        let start = c.try_function_matching("format"@);
        if start.result is Ok {
            Some(start.after.location())
        } else {
            None
        }
    }

    /// Reading the optional `tech()` function: nothing, with the cursor
    /// left in place, if the function is not there; else its list of
    /// keywords, unless the function stands before the place recorded for
    /// `format()`.
    pub open spec fn tech_spec(c: CursorView, format: Option<SourceLocation>) -> Step<
        Seq<FontTechnology>,
    > {
        let start = c.try_function_matching("tech"@);
        if start.result is Ok {
            match UrlSource::order_spec(format, start.after.location()) {
                Err(e) => Step { after: start.after, result: Err(e) },
                Ok(_) => start.after.block_step(
                    FontTechnology::parse_list_spec(start.after.entered()),
                ),
            }
        } else {
            Step { after: c, result: Ok(Seq::empty()) }
        }
    }

    /// The place recorded for the `tech()` function: the one the cursor
    /// stands at when the start of the function has been read.
    pub open spec fn tech_location(c: CursorView) -> Option<SourceLocation> {
        let start = c.try_function_matching("tech"@);
        if start.result is Ok {
            Some(start.after.location())
        } else {
            None
        }
    }

    /// Reading a `format()` function that follows a `tech()` function
    /// recorded at `tech`: nothing, with the cursor left in place, if the
    /// function is not there; else its one argument, unless `tech` is the
    /// earlier place.
    pub open spec fn late_format_spec(c: CursorView, tech: SourceLocation) -> Step<
        Option<FontFormat>,
    > {
        let start = c.try_function_matching("format"@);
        if start.result is Ok {
            match UrlSource::order_spec(Some(start.after.location()), tech) {
                Err(e) => Step { after: start.after, result: Err(e) },
                Ok(_) => map_step(
                    start.after.block_step(FontFormat::parse_spec(start.after.entered())),
                    |f: FontFormat| Some(f),
                ),
            }
        } else {
            Step { after: c, result: Ok(None) }
        }
    }

    /// Reading a source at an address: the address, then the optional
    /// `format()` function, then the optional `tech()` function, then, if
    /// there was `tech()` and no `format()` before it, a `format()`
    /// function that follows. The first part that fails ends the reading
    /// with its error. Whichever of the two functions is read first, the
    /// places recorded for them decide whether the body is malformed.
    pub open spec fn parse_spec(c: CursorView) -> Step<UrlSourceView> {
        let url = Url::parse_spec(c);
        match url.result {
            Err(e) => Step { after: url.after, result: Err(e) },
            Ok(u) => {
                let format = UrlSource::format_spec(url.after);
                match format.result {
                    Err(e) => Step { after: format.after, result: Err(e) },
                    Ok(f) => {
                        let tech = UrlSource::tech_spec(
                            format.after,
                            UrlSource::format_location(url.after),
                        );
                        match tech.result {
                            Err(e) => Step { after: tech.after, result: Err(e) },
                            Ok(t) => match (f, UrlSource::tech_location(format.after)) {
                                (None, Some(at)) => {
                                    let late = UrlSource::late_format_spec(tech.after, at);
                                    Step {
                                        after: late.after,
                                        result: match late.result {
                                            Err(e) => Err(e),
                                            Ok(g) => Ok(
                                                UrlSourceView { url: u, format: g, tech: t },
                                            ),
                                        },
                                    }
                                },
                                _ => Step {
                                    after: tech.after,
                                    result: Ok(UrlSourceView { url: u, format: f, tech: t }),
                                },
                            },
                        }
                    },
                }
            },
        }
    }

    /// The places recorded while a source is read from `c`: that of
    /// `format()` and that of `tech()`, each if the function is read.
    pub open spec fn recorded_places(c: CursorView) -> (
        Option<SourceLocation>,
        Option<SourceLocation>,
    ) {
        let url = Url::parse_spec(c);
        let format = UrlSource::format_spec(url.after);
        let early = UrlSource::format_location(url.after);
        let tech = UrlSource::tech_spec(format.after, early);
        let tech_at = UrlSource::tech_location(format.after);
        if early is None && tech_at is Some {
            (UrlSource::format_location(tech.after), tech_at)
        } else {
            (early, tech_at)
        }
    }

    /// In a source that was read, `tech()` does not stand at an earlier
    /// place than `format()` where both are there.
    pub proof fn lemma_tech_is_not_before_format(c: CursorView)
        requires
            UrlSource::parse_spec(c).result is Ok,
        ensures
            UrlSource::recorded_places(c) matches (Some(format), Some(tech)) ==> !tech.precedes(
                format,
            ),
    {
    }

    /// Checks the order of the two functions: with `format` the place
    /// recorded for `format()`, if it was there, and `tech` the place
    /// recorded for `tech()`, fails if `tech` is the earlier place.
    pub fn check_order(format: Option<SourceLocation>, tech: SourceLocation) -> (r: Result<
        (),
        ParseError,
    >)
        ensures
            r == UrlSource::order_spec(format, tech),
    {
        match format {
            Some(at) => {
                if tech.is_before(&at) {
                    Err(ParseError { kind: ParseErrorKind::MalformedAtRuleBody, location: tech })
                } else {
                    Ok(())
                }
            },
            None => Ok(()),
        }
    }

    /// Reads a source at an address: the address, then `format(..)` and
    /// `tech(..)`, each of which may be left out. Where both are there,
    /// `tech` must not stand at an earlier place than `format`: the body
    /// is malformed if it does.
    pub fn parse(input: &mut TokenCursor) -> (r: Result<UrlSource, ParseError>)
        requires
            old(input).wf(),
        ensures
            final(input).wf(),
            final(input)@.follows(old(input)@),
            agrees(final(input)@, r, UrlSource::parse_spec(old(input)@)),
    {
        let url: Url = match Url::parse(input) {
            Ok(url) => url,
            Err(e) => {
                return Err(e);
            },
        };
        let mut format_location: Option<SourceLocation> = None;
        let format: Option<FontFormat> = if input.try_function_matching("format").is_ok() {
            format_location = Some(input.current_source_location());
            let outer_end: usize = input.enter_block();
            let inner = FontFormat::parse(input);
            let inner = input.entirely(inner);
            input.leave_block(outer_end);
            match inner {
                Ok(format) => Some(format),
                Err(e) => {
                    return Err(e);
                },
            }
        } else {
            None
        };
        let mut tech_location: Option<SourceLocation> = None;
        let tech: Vec<FontTechnology> = if input.try_function_matching("tech").is_ok() {
            let at: SourceLocation = input.current_source_location();
            tech_location = Some(at);
            match UrlSource::check_order(format_location, at) {
                Ok(_) => {},
                Err(e) => {
                    return Err(e);
                },
            }
            let outer_end: usize = input.enter_block();
            let inner = FontTechnology::parse_list(input);
            let inner = input.entirely(inner);
            input.leave_block(outer_end);
            match inner {
                Ok(tech) => tech,
                Err(e) => {
                    return Err(e);
                },
            }
        } else {
            Vec::new()
        };
        let format: Option<FontFormat> = match (format, tech_location) {
            (None, Some(at)) => {
                if input.try_function_matching("format").is_ok() {
                    match UrlSource::check_order(Some(input.current_source_location()), at) {
                        Ok(_) => {},
                        Err(e) => {
                            return Err(e);
                        },
                    }
                    let outer_end: usize = input.enter_block();
                    let inner = FontFormat::parse(input);
                    let inner = input.entirely(inner);
                    input.leave_block(outer_end);
                    match inner {
                        Ok(format) => Some(format),
                        Err(e) => {
                            return Err(e);
                        },
                    }
                } else {
                    None
                }
            },
            (format, _) => format,
        };
        Ok(UrlSource { url, format, tech })
    }

    /// Writes the source: the address, then the format and the
    /// technologies that it has, each after optional whitespace.
    pub fn to_css(&self, dest: &mut Printer)
        ensures
            final(dest)@ == old(dest)@.wrote(self@.css_text(old(dest)@.minify)),
    {
        self.url.to_css(dest);
        match &self.format {
            Some(format) => {
                dest.whitespace();
                dest.write_str("format(");
                format.to_css(dest);
                dest.write_char(')');
            },
            None => {},
        }
        let ghost minify = dest@.minify;
        let ghost front = self@.front_text(minify);
        assert(dest@.output =~= old(dest)@.output + front);
        let tech_len: usize = self.tech.len();
        if tech_len > 0 {
            dest.whitespace();
            dest.write_str("tech(");
            let ghost lead = front + whitespace_text(minify) + "tech("@;
            assert(dest@.output =~= old(dest)@.output + lead);
            let mut i: usize = 0;
            assert(lead + FontTechnology::list_text(self.tech@.take(0)) =~= lead);
            while i < tech_len
                invariant
                    i <= tech_len,
                    tech_len == self.tech@.len(),
                    dest@ == old(dest)@.wrote(
                        lead + FontTechnology::list_text(self.tech@.take(i as int)),
                    ),
                decreases tech_len - i,
            {
                if i > 0 {
                    dest.write_char(',');
                }
                self.tech[i].to_css(dest);
                assert(self.tech@.take(i + 1).drop_last() =~= self.tech@.take(i as int));
                i += 1;
                assert(dest@.output =~= old(dest)@.output + (lead + FontTechnology::list_text(
                    self.tech@.take(i as int),
                )));
            }
            assert(self.tech@.take(tech_len as int) =~= self.tech@);
            dest.write_char(')');
        }
        assert(dest@.output =~= old(dest)@.output + self@.css_text(dest@.minify));
    }
}

impl SourceView {
    /// The written form: that of the source at an address, or the family
    /// name inside `local(..)`.
    pub open spec fn css_text(self, minify: bool) -> Seq<char> {
        match self {
            SourceView::Url(url) => url.css_text(minify),
            SourceView::Local(name) => "local("@ + FontFamily::css_text(name) + seq![')'],
        }
    }
}

impl Source {
    /// The views of a list of sources.
    pub open spec fn views(list: Seq<Source>) -> Seq<SourceView> {
        Seq::new(list.len(), |i: int| list[i]@)
    }

    /// Reading the `local(..)` form: the function and, as its whole
    /// contents, a family name.
    pub open spec fn local_spec(c: CursorView) -> Step<SourceView> {
        let start = c.expect_function_matching("local"@);
        if start.result is Ok {
            map_step(
                start.after.block_step(FontFamily::parse_spec(start.after.entered())),
                |name: Seq<char>| SourceView::Local(name),
            )
        } else {
            Step { after: start.after, result: Err(start.result->Err_0) }
        }
    }

    /// Reading one source: a source at an address if one can be read. If
    /// that fails because the body is malformed, the reading fails with
    /// that error; after any other failure the `local(..)` form is read
    /// from the same place.
    pub open spec fn parse_spec(c: CursorView) -> Step<SourceView> {
        let url = UrlSource::parse_spec(c);
        match url.result {
            Ok(u) => Step { after: url.after, result: Ok(SourceView::Url(u)) },
            Err(e) => if e.kind == ParseErrorKind::MalformedAtRuleBody {
                Step { after: c, result: Err(e) }
            } else {
                Source::local_spec(c)
            },
        }
    }

    /// Reading a list of sources: one or more, with a comma between each
    /// two. Each must fill its stretch between the commas, and the first
    /// that fails ends the reading with its error.
    pub open spec fn parse_list_spec(c: CursorView) -> Step<Seq<SourceView>>
        decreases c.end - c.pos,
    {
        match CursorView::entirely(Source::parse_spec(c.item())) {
            Err(e) => Step { after: c.after_item(), result: Err(e) },
            Ok(v) => if c.more_items() {
                prepend(seq![v], Source::parse_list_spec(c.next_item()))
            } else {
                Step { after: c.after_item(), result: Ok(seq![v]) }
            },
        }
    }

    /// The written form of a list of sources: a comma and optional
    /// whitespace between each two, none at the end.
    pub open spec fn list_text(list: Seq<SourceView>, minify: bool) -> Seq<char>
        decreases list.len(),
    {
        if list.len() == 0 {
            Seq::empty()
        } else if list.len() == 1 {
            list[0].css_text(minify)
        } else {
            Source::list_text(list.drop_last(), minify) + delim_text(',', false, minify)
                + list.last().css_text(minify)
        }
    }

    /// Writes a list of sources.
    pub fn list_to_css(list: &Vec<Source>, dest: &mut Printer)
        ensures
            final(dest)@ == old(dest)@.wrote(
                Source::list_text(Source::views(list@), old(dest)@.minify),
            ),
    {
        let ghost all = Source::views(list@);
        let ghost minify = dest@.minify;
        let len: usize = list.len();
        let mut i: usize = 0;
        assert(dest@.output =~= old(dest)@.output + Source::list_text(all.take(0), minify));
        while i < len
            invariant
                i <= len,
                len == list@.len(),
                all == Source::views(list@),
                minify == old(dest)@.minify,
                dest@ == old(dest)@.wrote(Source::list_text(all.take(i as int), minify)),
            decreases len - i,
        {
            if i > 0 {
                dest.delim(',', false);
            }
            list[i].to_css(dest);
            assert(all.take(i + 1).drop_last() =~= all.take(i as int));
            assert(all.take(i + 1).last() == list@[i as int]@);
            i += 1;
            assert(dest@.output =~= old(dest)@.output + Source::list_text(
                all.take(i as int),
                minify,
            ));
        }
        assert(all.take(len as int) =~= all);
    }

    /// Reads one item of a `src` list: `url(..)` with its optional hints,
    /// or `local(..)` with a family name.
    pub fn parse(input: &mut TokenCursor) -> (r: Result<Source, ParseError>)
        requires
            old(input).wf(),
        ensures
            final(input).wf(),
            final(input)@.follows(old(input)@),
            agrees(final(input)@, r, Source::parse_spec(old(input)@)),
    {
        let start: CursorState = input.state();
        match UrlSource::parse(input) {
            Ok(url) => {
                return Ok(Source::Url(url));
            },
            Err(e) => {
                input.reset(start);
                match e.kind {
                    ParseErrorKind::MalformedAtRuleBody => {
                        return Err(e);
                    },
                    _ => {},
                }
            },
        }
        match input.expect_function_matching("local") {
            Ok(_) => {},
            Err(e) => {
                return Err(e);
            },
        }
        let outer_end: usize = input.enter_block();
        let inner = FontFamily::parse(input);
        let inner = input.entirely(inner);
        input.leave_block(outer_end);
        match inner {
            Ok(family) => Ok(Source::Local(family)),
            Err(e) => Err(e),
        }
    }

    /// Reads the value of the `src` descriptor: sources separated by
    /// commas. There is no partial result: one item that fails makes the
    /// whole list fail.
    pub fn parse_list(input: &mut TokenCursor) -> (r: Result<Vec<Source>, ParseError>)
        requires
            old(input).wf(),
        ensures
            final(input).wf(),
            final(input)@.follows(old(input)@),
            final(input)@ == Source::parse_list_spec(old(input)@).after,
            match r {
                Ok(v) => Source::parse_list_spec(old(input)@).result == Ok::<
                    Seq<SourceView>,
                    ParseError,
                >(Source::views(v@)),
                Err(e) => Source::parse_list_spec(old(input)@).result == Err::<
                    Seq<SourceView>,
                    ParseError,
                >(e),
            },
    {
        let mut values: Vec<Source> = Vec::new();
        assert(Source::views(values@) =~= Seq::empty());
        loop
            invariant
                input.wf(),
                input@.follows(old(input)@),
                prepend(Source::views(values@), Source::parse_list_spec(input@))
                    == Source::parse_list_spec(old(input)@),
            decreases input@.end - input@.pos,
        {
            let ghost c = input@;
            let ghost head = Source::views(values@);
            let outer_end: usize = input.enter_item();
            let item = Source::parse(input);
            let item = input.entirely(item);
            let more: bool = input.leave_item(outer_end);
            proof {
                lemma_prepend_push(head, item->Ok_0@, Source::parse_list_spec(c.next_item()));
                lemma_prepend_push(
                    head,
                    item->Ok_0@,
                    Step { after: c.after_item(), result: Ok(Seq::empty()) },
                );
            }
            match item {
                Err(e) => {
                    return Err(e);
                },
                Ok(v) => {
                    values.push(v);
                    assert(Source::views(values@) =~= head.push(v@));
                    if !more {
                        return Ok(values);
                    }
                    input.skip_delimiter();
                },
            }
        }
    }

    /// Writes the source.
    pub fn to_css(&self, dest: &mut Printer)
        ensures
            final(dest)@ == old(dest)@.wrote(self@.css_text(old(dest)@.minify)),
    {
        match self {
            Source::Url(url) => url.to_css(dest),
            Source::Local(local) => {
                dest.write_str("local(");
                local.to_css(dest);
                dest.write_char(')');
                assert(dest@.output =~= old(dest)@.output + self@.css_text(dest@.minify));
            },
        }
    }
}

} // verus!
