use font_face::cursor::TokenCursor;
use font_face::font_format::FontFormat;
use font_face::font_technology::FontTechnology;
use font_face::lexer::tokenize;
use font_face::printer::Printer;
use font_face::source::Source;
use font_face::source::UrlSource;
use font_face::token::CssToken;
use font_face::token::ParseError;
use font_face::token::ParseErrorKind;
use font_face::token::SourceLocation;
use font_face::token::TokenKind;
use font_face::values::FontFamily;

fn at(line: u32, column: u32) -> SourceLocation {
    SourceLocation { line, column }
}

fn token(kind: TokenKind, value: &str, raw: &str, location: SourceLocation) -> CssToken {
    CssToken { kind, value: value.to_string(), raw: raw.to_string(), location }
}

fn written_source(source: &Source, minify: bool) -> String {
    let mut dest = Printer::new(minify);
    source.to_css(&mut dest);
    dest.into_string()
}

#[test]
fn format_before_tech_is_read() {
    let mut input = tokenize("url(f) format(woff2) tech(variations)");
    let source = Source::parse(&mut input).unwrap();
    match &source {
        Source::Url(url) => {
            assert_eq!(url.url.url, "f");
            assert_eq!(url.format, Some(FontFormat::WOFF2));
            assert_eq!(url.tech, vec![FontTechnology::Variations]);
        }
        other => panic!("{:?}", other),
    }
    assert!(input.is_exhausted());
    assert_eq!(written_source(&source, false), "url(f) format(\"woff2\") tech(variations)");
    assert_eq!(written_source(&source, true), "url(f)format(\"woff2\")tech(variations)");
}

#[test]
fn tech_before_format_is_malformed() {
    let mut input = tokenize("url(f) tech(variations) format(woff2)");
    assert_eq!(
        UrlSource::parse(&mut input).map_err(|e| e.kind),
        Err(ParseErrorKind::MalformedAtRuleBody)
    );
    let mut input = tokenize("url(f) tech(variations) format(woff2)");
    assert_eq!(
        Source::parse(&mut input),
        Err(ParseError { kind: ParseErrorKind::MalformedAtRuleBody, location: at(0, 13) })
    );
    assert_eq!(input.position(), 0);
    let mut input = tokenize("url(a), url(f) tech(variations)\nformat(woff2), url(b)");
    assert_eq!(
        Source::parse_list(&mut input).map_err(|e| e.kind),
        Err(ParseErrorKind::MalformedAtRuleBody)
    );
}

#[test]
fn tech_without_format_is_read() {
    let mut input = tokenize("url(f) tech(variations)");
    let source = UrlSource::parse(&mut input).unwrap();
    assert_eq!(source.format, None);
    assert_eq!(source.tech, vec![FontTechnology::Variations]);
    assert!(input.is_exhausted());
    let mut input = tokenize("url(f) tech(variations) local(x)");
    let source = UrlSource::parse(&mut input).unwrap();
    assert_eq!(source.format, None);
    assert!(!input.is_exhausted());
}

#[test]
fn the_recorded_places_decide_not_the_order_of_the_tokens() {
    let tokens = vec![
        token(TokenKind::UnquotedUrl, "f", "url(f)", at(0, 1)),
        token(TokenKind::Function, "tech", "tech(", at(0, 30)),
        token(TokenKind::Ident, "variations", "variations", at(0, 35)),
        token(TokenKind::CloseParenthesis, "", ")", at(0, 45)),
        token(TokenKind::Function, "format", "format(", at(0, 7)),
        token(TokenKind::Ident, "woff2", "woff2", at(0, 14)),
        token(TokenKind::CloseParenthesis, "", ")", at(0, 19)),
    ];
    let mut input = TokenCursor::new(tokens, at(0, 46));
    let source = UrlSource::parse(&mut input).unwrap();
    assert_eq!(source.format, Some(FontFormat::WOFF2));
    assert_eq!(source.tech, vec![FontTechnology::Variations]);
    assert!(input.is_exhausted());
}

#[test]
fn tech_at_an_earlier_place_than_format_is_malformed() {
    let tokens = vec![
        token(TokenKind::UnquotedUrl, "f", "url(f)", at(0, 1)),
        token(TokenKind::Function, "format", "format(", at(0, 30)),
        token(TokenKind::Ident, "woff2", "woff2", at(0, 37)),
        token(TokenKind::CloseParenthesis, "", ")", at(0, 42)),
        token(TokenKind::Function, "tech", "tech(", at(0, 7)),
        token(TokenKind::Ident, "variations", "variations", at(0, 12)),
        token(TokenKind::CloseParenthesis, "", ")", at(0, 22)),
    ];
    let mut input = TokenCursor::new(tokens, at(0, 43));
    assert_eq!(
        UrlSource::parse(&mut input),
        Err(ParseError { kind: ParseErrorKind::MalformedAtRuleBody, location: at(0, 12) })
    );
    assert_eq!(input.position(), 5);
}

#[test]
fn a_malformed_body_is_not_read_as_a_local_source() {
    let tokens = vec![
        token(TokenKind::UnquotedUrl, "f", "url(f)", at(3, 1)),
        token(TokenKind::Function, "format", "format(", at(3, 8)),
        token(TokenKind::Ident, "woff2", "woff2", at(3, 15)),
        token(TokenKind::CloseParenthesis, "", ")", at(3, 20)),
        token(TokenKind::Function, "tech", "tech(", at(2, 1)),
        token(TokenKind::Ident, "variations", "variations", at(2, 6)),
        token(TokenKind::CloseParenthesis, "", ")", at(2, 16)),
    ];
    let mut input = TokenCursor::new(tokens, at(3, 21));
    assert_eq!(
        Source::parse(&mut input),
        Err(ParseError { kind: ParseErrorKind::MalformedAtRuleBody, location: at(2, 6) })
    );
    assert_eq!(input.position(), 0);
}

#[test]
fn the_order_is_checked_by_line_and_then_by_column() {
    let bad = |l, c| Err(ParseError { kind: ParseErrorKind::MalformedAtRuleBody, location: at(l, c) });
    assert_eq!(UrlSource::check_order(None, at(0, 1)), Ok(()));
    assert_eq!(UrlSource::check_order(Some(at(5, 9)), at(5, 10)), Ok(()));
    assert_eq!(UrlSource::check_order(Some(at(5, 9)), at(5, 9)), Ok(()));
    assert_eq!(UrlSource::check_order(Some(at(5, 9)), at(6, 1)), Ok(()));
    assert_eq!(UrlSource::check_order(Some(at(5, 9)), at(5, 8)), bad(5, 8));
    assert_eq!(UrlSource::check_order(Some(at(5, 9)), at(4, 80)), bad(4, 80));
    assert!(at(1, 5).is_before(&at(2, 1)));
    assert!(at(1, 5).is_before(&at(1, 6)));
    assert!(!at(1, 5).is_before(&at(1, 5)));
    assert!(!at(2, 1).is_before(&at(1, 5)));
}

#[test]
fn an_unknown_technology_is_an_unexpected_token() {
    let mut input = tokenize("url(f) tech(bogus)");
    assert_eq!(UrlSource::parse(&mut input).map_err(|e| e.kind), Err(ParseErrorKind::UnexpectedToken));
    let mut input = tokenize("url(f) tech(\"variations\")");
    assert_eq!(UrlSource::parse(&mut input).map_err(|e| e.kind), Err(ParseErrorKind::UnexpectedToken));
    let mut input = tokenize("url(f) tech()");
    assert_eq!(UrlSource::parse(&mut input).map_err(|e| e.kind), Err(ParseErrorKind::EndOfInput));
    let mut input = tokenize("url(f) tech(variations palettes)");
    assert_eq!(UrlSource::parse(&mut input).map_err(|e| e.kind), Err(ParseErrorKind::UnexpectedToken));
}

#[test]
fn a_format_with_more_than_one_argument_is_refused() {
    let mut input = tokenize("url(f) format(woff2 woff)");
    assert_eq!(UrlSource::parse(&mut input).map_err(|e| e.kind), Err(ParseErrorKind::UnexpectedToken));
    let mut input = tokenize("url(f) format()");
    assert_eq!(UrlSource::parse(&mut input).map_err(|e| e.kind), Err(ParseErrorKind::EndOfInput));
}

#[test]
fn the_hints_may_be_left_out() {
    let mut input = tokenize("url(\"a b.woff\")");
    let source = UrlSource::parse(&mut input).unwrap();
    assert_eq!(source.url.url, "a b.woff");
    assert_eq!(source.format, None);
    assert!(source.tech.is_empty());
    let mut input = tokenize("URL(f) FORMAT('TrueType')");
    let source = UrlSource::parse(&mut input).unwrap();
    assert_eq!(source.format, Some(FontFormat::TrueType));
    let mut input = tokenize("url(f) tech(color-COLRv1, palettes , incremental)");
    let source = UrlSource::parse(&mut input).unwrap();
    assert_eq!(
        source.tech,
        vec![FontTechnology::ColorColrv1, FontTechnology::Palettes, FontTechnology::Incremental]
    );
    let mut dest = Printer::new(false);
    source.to_css(&mut dest);
    assert_eq!(dest.as_str(), "url(f) tech(color-colrv1,palettes,incremental)");
}

#[test]
fn a_local_source_is_read_and_written() {
    let mut input = tokenize("local(Foo Bar)");
    let source = Source::parse(&mut input).unwrap();
    assert_eq!(source, Source::Local(FontFamily { name: "Foo Bar".to_string() }));
    assert_eq!(written_source(&source, false), "local(\"Foo Bar\")");
    let mut input = tokenize("LOCAL( \"Helvetica Neue\" )");
    let source = Source::parse(&mut input).unwrap();
    assert_eq!(source, Source::Local(FontFamily { name: "Helvetica Neue".to_string() }));
    assert!(input.is_exhausted());
}

#[test]
fn what_is_neither_an_address_nor_local_is_refused() {
    let mut input = tokenize("woff2");
    assert_eq!(Source::parse(&mut input).map_err(|e| e.kind), Err(ParseErrorKind::UnexpectedToken));
    let mut input = tokenize("");
    assert_eq!(Source::parse(&mut input).map_err(|e| e.kind), Err(ParseErrorKind::EndOfInput));
    let mut input = tokenize("local()");
    assert_eq!(Source::parse(&mut input).map_err(|e| e.kind), Err(ParseErrorKind::EndOfInput));
    let mut input = tokenize("local(Foo, Bar)");
    assert_eq!(Source::parse(&mut input).map_err(|e| e.kind), Err(ParseErrorKind::UnexpectedToken));
    let mut input = tokenize("other(Foo)");
    assert_eq!(Source::parse(&mut input).map_err(|e| e.kind), Err(ParseErrorKind::UnexpectedToken));
}

#[test]
fn a_list_of_sources_is_read_and_written() {
    let mut input = tokenize("url(a.woff2) format(\"woff2\"), url(a.ttf) format(opentype) tech(variations), local(A)");
    let list = Source::parse_list(&mut input).unwrap();
    assert_eq!(list.len(), 3);
    assert!(input.is_exhausted());
    let mut dest = Printer::new(false);
    Source::list_to_css(&list, &mut dest);
    assert_eq!(
        dest.as_str(),
        "url(a.woff2) format(\"woff2\"), url(a.ttf) format(\"opentype\") tech(variations), local(\"A\")"
    );
    let mut dest = Printer::new(true);
    Source::list_to_css(&list, &mut dest);
    assert_eq!(
        dest.as_str(),
        "url(a.woff2)format(\"woff2\"),url(a.ttf)format(\"opentype\")tech(variations),local(\"A\")"
    );
}

#[test]
fn one_bad_source_fails_the_whole_list() {
    let mut input = tokenize("url(a.woff2), nonsense, local(A)");
    assert_eq!(Source::parse_list(&mut input).map_err(|e| e.kind), Err(ParseErrorKind::UnexpectedToken));
    let mut input = tokenize("url(a.woff2) tech(bogus), local(A)");
    assert_eq!(Source::parse_list(&mut input).map_err(|e| e.kind), Err(ParseErrorKind::UnexpectedToken));
}

#[test]
fn formats_are_read_in_any_case_and_written_as_strings() {
    let cases = [
        ("woff", FontFormat::WOFF, "\"woff\""),
        ("WOFF2", FontFormat::WOFF2, "\"woff2\""),
        ("\"truetype\"", FontFormat::TrueType, "\"truetype\""),
        ("OpenType", FontFormat::OpenType, "\"opentype\""),
        ("embedded-opentype", FontFormat::EmbeddedOpenType, "\"embedded-opentype\""),
        ("'collection'", FontFormat::Collection, "\"collection\""),
        ("svg", FontFormat::SVG, "\"svg\""),
        ("Fancy", FontFormat::String("Fancy".to_string()), "\"Fancy\""),
        ("\"a \\\"b\\\"\"", FontFormat::String("a \"b\"".to_string()), "\"a \\\"b\\\"\""),
    ];
    for (text, format, out) in cases {
        let mut input = tokenize(text);
        assert_eq!(FontFormat::parse(&mut input), Ok(format.clone()), "{}", text);
        let mut dest = Printer::new(false);
        format.to_css(&mut dest);
        assert_eq!(dest.as_str(), out);
    }
    let mut input = tokenize("12");
    assert_eq!(FontFormat::parse(&mut input).map_err(|e| e.kind), Err(ParseErrorKind::UnexpectedToken));
    let mut input = tokenize("");
    assert_eq!(FontFormat::parse(&mut input).map_err(|e| e.kind), Err(ParseErrorKind::EndOfInput));
    assert_eq!(FontFormat::from_label(&"wOfF".to_string()), FontFormat::WOFF);
}

#[test]
fn technologies_are_read_in_any_case_and_written_in_lower_case() {
    let cases = [
        ("features-opentype", FontTechnology::FeaturesOpentype),
        ("features-aat", FontTechnology::FeaturesAat),
        ("features-graphite", FontTechnology::FeaturesGraphite),
        ("color-colrv0", FontTechnology::ColorColrv0),
        ("color-colrv1", FontTechnology::ColorColrv1),
        ("color-svg", FontTechnology::ColorSvg),
        ("color-sbix", FontTechnology::ColorSbix),
        ("color-cbdt", FontTechnology::ColorCbdt),
        ("variations", FontTechnology::Variations),
        ("palettes", FontTechnology::Palettes),
        ("incremental", FontTechnology::Incremental),
    ];
    for (text, tech) in cases {
        let mut input = tokenize(&text.to_uppercase());
        assert_eq!(FontTechnology::parse(&mut input), Ok(tech));
        assert_eq!(FontTechnology::from_keyword(text), Some(tech));
        let mut dest = Printer::new(true);
        tech.to_css(&mut dest);
        assert_eq!(dest.as_str(), text);
    }
    assert_eq!(FontTechnology::from_keyword("bogus"), None);
    let mut input = tokenize("bogus");
    assert_eq!(
        FontTechnology::parse(&mut input),
        Err(ParseError { kind: ParseErrorKind::UnexpectedToken, location: at(0, 1) })
    );
    let mut input = tokenize("\"variations\"");
    assert_eq!(FontTechnology::parse(&mut input).map_err(|e| e.kind), Err(ParseErrorKind::UnexpectedToken));
    let mut input = tokenize("variations, palettes");
    assert_eq!(
        FontTechnology::parse_list(&mut input),
        Ok(vec![FontTechnology::Variations, FontTechnology::Palettes])
    );
}
