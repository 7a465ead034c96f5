use font_face::custom::CustomProperty;
use font_face::rule::FontFaceDeclarationParser;
use font_face::rule::FontFaceProperty;
use font_face::rule::FontFaceRule;
use font_face::lexer::tokenize;
use font_face::printer::Location;
use font_face::printer::Mapping;
use font_face::printer::Printer;
use font_face::unicode_range::UnicodeRange;
use font_face::values::FontFamily;
use font_face::values::FontStretch;
use font_face::values::FontStyle;
use font_face::values::FontWeight;
use font_face::values::Size2D;

fn read(name: &str, value: &str) -> FontFaceProperty {
    let mut input = tokenize(value);
    FontFaceDeclarationParser.parse_value(name, &mut input).unwrap()
}

fn written(property: &FontFaceProperty, minify: bool) -> String {
    let mut dest = Printer::new(minify);
    property.to_css(&mut dest);
    dest.into_string()
}

fn custom(name: &str, parts: &[&str]) -> FontFaceProperty {
    FontFaceProperty::Custom(CustomProperty {
        name: name.to_string(),
        value: parts.iter().map(|p| p.to_string()).collect(),
    })
}

#[test]
fn an_unknown_descriptor_is_kept_as_written() {
    let property = read("ascent-override", " 90%");
    assert_eq!(property, custom("ascent-override", &["90%"]));
    assert_eq!(written(&property, false), "ascent-override: 90%");
    assert_eq!(written(&property, true), "ascent-override:90%");
    let again = read("ascent-override", "90%");
    assert_eq!(again, property);
}

#[test]
fn a_raw_value_keeps_its_tokens_and_one_space_between_them() {
    let property = read("font-feature-settings", "  \"liga\"   1 ,/* c */ 'dlig' 0  ");
    assert_eq!(property, custom("font-feature-settings", &["\"liga\"", " ", "1", " ", ",", " ", "'dlig'", " ", "0"]));
    assert_eq!(written(&property, true), "font-feature-settings:\"liga\" 1 , 'dlig' 0");
    let property = read("x", "a(b [c] {d}) e");
    assert_eq!(written(&property, false), "x: a(b [c] {d}) e");
    let property = read("x", "");
    assert_eq!(property, custom("x", &[]));
    assert_eq!(written(&property, false), "x: ");
}

#[test]
fn known_descriptors_are_read_in_their_own_form() {
    assert_eq!(
        read("font-family", "\"Foo\""),
        FontFaceProperty::FontFamily(FontFamily { name: "Foo".to_string() })
    );
    assert_eq!(
        read("FONT-FAMILY", "Foo  Bar"),
        FontFaceProperty::FontFamily(FontFamily { name: "Foo Bar".to_string() })
    );
    assert_eq!(read("font-style", "italic"), FontFaceProperty::FontStyle(FontStyle::Italic));
    assert_eq!(
        read("font-style", "oblique 10deg"),
        FontFaceProperty::FontStyle(FontStyle::Oblique(Some("10deg".to_string())))
    );
    assert_eq!(read("font-style", "Oblique"), FontFaceProperty::FontStyle(FontStyle::Oblique(None)));
    assert_eq!(
        read("font-weight", "400"),
        FontFaceProperty::FontWeight(Size2D(
            FontWeight::Number("400".to_string()),
            FontWeight::Number("400".to_string())
        ))
    );
    assert_eq!(
        read("font-weight", "100 bold"),
        FontFaceProperty::FontWeight(Size2D(FontWeight::Number("100".to_string()), FontWeight::Bold))
    );
    assert_eq!(
        read("font-stretch", "condensed 125%"),
        FontFaceProperty::FontStretch(Size2D(
            FontStretch::Condensed,
            FontStretch::Percentage("125%".to_string())
        ))
    );
    assert_eq!(
        read("Unicode-Range", "U+0-7F, U+4??"),
        FontFaceProperty::UnicodeRange(vec![
            UnicodeRange { start: 0, end: 0x7F },
            UnicodeRange { start: 0x400, end: 0x4FF }
        ])
    );
    match read("SRC", "url(f) format(woff2), local(F)") {
        FontFaceProperty::Source(list) => assert_eq!(list.len(), 2),
        other => panic!("{:?}", other),
    }
}

#[test]
fn known_descriptors_are_written_with_their_names() {
    assert_eq!(written(&read("font-family", "Foo Bar"), false), "font-family: \"Foo Bar\"");
    assert_eq!(written(&read("font-style", "ITALIC"), true), "font-style:italic");
    assert_eq!(written(&read("font-style", "oblique 10deg"), true), "font-style:oblique 10deg");
    assert_eq!(written(&read("font-weight", "400"), false), "font-weight: 400");
    assert_eq!(written(&read("font-weight", "400 400"), false), "font-weight: 400");
    assert_eq!(written(&read("font-weight", "400 700"), true), "font-weight:400 700");
    assert_eq!(written(&read("font-weight", "Normal BOLD"), true), "font-weight:normal bold");
    assert_eq!(written(&read("font-stretch", "75% 125%"), false), "font-stretch: 75% 125%");
    assert_eq!(written(&read("font-stretch", "ultra-expanded"), false), "font-stretch: ultra-expanded");
    assert_eq!(written(&read("unicode-range", "U+0-7F,U+400-4FF"), false), "unicode-range: U+0-7F, U+4??");
    assert_eq!(written(&read("unicode-range", "U+0-7F,U+400-4FF"), true), "unicode-range:U+0-7F,U+4??");
    assert_eq!(
        written(&read("src", "url(f) format(woff2) tech(variations),local(F)"), false),
        "src: url(f) format(\"woff2\") tech(variations), local(\"F\")"
    );
    assert_eq!(
        written(&read("src", "url(f) format(woff2) tech(variations),local(F)"), true),
        "src:url(f)format(\"woff2\")tech(variations),local(\"F\")"
    );
}

#[test]
fn a_comment_behind_a_range_leaves_it_a_range() {
    let u26 = FontFaceProperty::UnicodeRange(vec![UnicodeRange { start: 0x26, end: 0x26 }]);
    assert_eq!(read("unicode-range", "U+26/*\u{e9}*/"), u26);
    assert_eq!(read("unicode-range", "U+26/*deadbeef00*/"), u26);
    assert_eq!(read("unicode-range", " U+26 /*123456789*/ "), u26);
    assert_eq!(
        read("unicode-range", "U+26/*\u{e9}*/,U+4??/*deadbeef00*/"),
        FontFaceProperty::UnicodeRange(vec![
            UnicodeRange { start: 0x26, end: 0x26 },
            UnicodeRange { start: 0x400, end: 0x4FF }
        ])
    );
}

#[test]
fn a_value_that_does_not_fit_its_name_is_kept_as_written() {
    assert_eq!(read("font-weight", "heavy"), custom("font-weight", &["heavy"]));
    assert_eq!(read("font-style", "12"), custom("font-style", &["12"]));
    assert_eq!(read("font-stretch", "wide"), custom("font-stretch", &["wide"]));
    assert_eq!(read("unicode-range", "U+41, x"), custom("unicode-range", &["U", "+41", ",", " ", "x"]));
    assert_eq!(read("font-family", "12px"), custom("font-family", &["12px"]));
    assert_eq!(
        read("src", "url(f) tech(variations) format(woff2)"),
        custom("src", &["url(f)", " ", "tech(", "variations", ")", " ", "format(", "woff2", ")"])
    );
    assert_eq!(
        written(&read("src", "url(f)  tech(bogus)"), false),
        "src: url(f) tech(bogus)"
    );
}

#[test]
fn reading_a_descriptor_uses_up_a_raw_value() {
    let mut input = tokenize("heavy metal");
    let property = FontFaceDeclarationParser.parse_value("font-weight", &mut input).unwrap();
    assert_eq!(property, custom("font-weight", &["heavy", " ", "metal"]));
    assert_eq!(input.position(), input.limit());
    let mut input = tokenize("bold metal");
    let property = FontFaceDeclarationParser.parse_value("font-weight", &mut input).unwrap();
    assert_eq!(property, FontFaceProperty::FontWeight(Size2D(FontWeight::Bold, FontWeight::Bold)));
    assert!(!input.is_exhausted());
}

fn sample_rule() -> FontFaceRule {
    FontFaceRule {
        properties: vec![
            read("font-family", "\"Foo\""),
            read("font-weight", "400"),
            read("src", "url(f)"),
        ],
        loc: Location { source_index: 0, line: 3, column: 1 },
    }
}

#[test]
fn a_minified_rule_has_no_semicolon_before_the_closing_brace() {
    let mut dest = Printer::new(true);
    sample_rule().to_css(&mut dest);
    assert_eq!(dest.as_str(), "@font-face{font-family:\"Foo\";font-weight:400;src:url(f)}");
}

#[test]
fn a_rule_is_written_as_an_indented_block() {
    let mut dest = Printer::new(false);
    sample_rule().to_css(&mut dest);
    assert_eq!(
        dest.as_str(),
        "@font-face {\n  font-family: \"Foo\";\n  font-weight: 400;\n  src: url(f);\n}"
    );
    let mut dest = Printer::new(false);
    dest.indent();
    dest.write_str("@media print {");
    dest.newline();
    sample_rule().to_css(&mut dest);
    assert_eq!(
        dest.as_str(),
        "@media print {\n  @font-face {\n    font-family: \"Foo\";\n    font-weight: 400;\n    src: url(f);\n  }"
    );
}

#[test]
fn a_rule_records_where_it_came_from() {
    let mut dest = Printer::new(true);
    dest.write_str("a{}");
    sample_rule().to_css(&mut dest);
    assert_eq!(
        dest.mappings(),
        &vec![Mapping { generated: 3, source: Location { source_index: 0, line: 3, column: 1 } }]
    );
}

#[test]
fn an_empty_rule_is_written_as_an_empty_block() {
    let rule = FontFaceRule { properties: vec![], loc: Location { source_index: 0, line: 0, column: 1 } };
    let mut dest = Printer::new(true);
    rule.to_css(&mut dest);
    assert_eq!(dest.as_str(), "@font-face{}");
    let mut dest = Printer::new(false);
    rule.to_css(&mut dest);
    assert_eq!(dest.as_str(), "@font-face {\n}");
}

#[test]
fn descriptors_keep_their_order_and_their_number() {
    let rule = FontFaceRule {
        properties: vec![
            read("font-weight", "700"),
            read("ascent-override", "90%"),
            read("font-weight", "400"),
        ],
        loc: Location { source_index: 0, line: 0, column: 1 },
    };
    let mut dest = Printer::new(true);
    rule.to_css(&mut dest);
    assert_eq!(dest.as_str(), "@font-face{font-weight:700;ascent-override:90%;font-weight:400}");
}

#[test]
fn what_was_written_is_written_the_same_when_read_again() {
    let first = written(&read("src", "URL(f)   Format(WOFF2)  tech( Variations ),  local( Foo   Bar )"), false);
    assert_eq!(first, "src: url(f) format(\"woff2\") tech(variations), local(\"Foo Bar\")");
    let second = written(&read("src", &first["src: ".len()..]), false);
    assert_eq!(second, first);
    let first = written(&read("unicode-range", "u+0000-00ff, u+0041"), false);
    assert_eq!(first, "unicode-range: U+??, U+41");
    let second = written(&read("unicode-range", &first["unicode-range: ".len()..]), false);
    assert_eq!(second, first);
}
