use font_face::cursor::TokenCursor;
use font_face::lexer::tokenize;
use font_face::printer::Printer;
use font_face::text::eq_ignore_ascii_case;
use font_face::text::to_ascii_lower;
use font_face::token::Bracket;
use font_face::token::ParseError;
use font_face::token::ParseErrorKind;
use font_face::token::SourceLocation;
use font_face::token::TokenKind;
use font_face::values::Url;

fn kinds(text: &str) -> Vec<TokenKind> {
    let input = tokenize(text);
    (0..input.limit()).map(|i| input.token(i).kind).collect()
}

#[test]
fn text_is_read_into_tokens_with_their_text_and_place() {
    let input = tokenize("src(\"a\" 1 50% 2px,\n x)");
    let raws: Vec<&str> = (0..input.limit()).map(|i| input.token(i).raw.as_str()).collect();
    assert_eq!(raws, vec!["src(", "\"a\"", " ", "1", " ", "50%", " ", "2px", ",", "\n ", "x", ")"]);
    assert_eq!(
        kinds("src(\"a\" 1 50% 2px,\n x)"),
        vec![
            TokenKind::Function,
            TokenKind::QuotedString,
            TokenKind::WhiteSpace,
            TokenKind::Number,
            TokenKind::WhiteSpace,
            TokenKind::Percentage,
            TokenKind::WhiteSpace,
            TokenKind::Dimension,
            TokenKind::Comma,
            TokenKind::WhiteSpace,
            TokenKind::Ident,
            TokenKind::CloseParenthesis,
        ]
    );
    assert_eq!(input.token(0).value, "src");
    assert_eq!(input.token(1).value, "a");
    assert_eq!(input.token(7).value, "px");
    assert_eq!(input.token(0).location, SourceLocation { line: 0, column: 1 });
    assert_eq!(input.token(3).location, SourceLocation { line: 0, column: 9 });
    assert_eq!(input.token(10).location, SourceLocation { line: 1, column: 2 });
    assert_eq!(input.position(), 0);
}

#[test]
fn every_kind_of_bracket_and_comment_has_its_kind() {
    assert_eq!(
        kinds("([{}])/* c */url(x)#a"),
        vec![
            TokenKind::ParenthesisBlock,
            TokenKind::SquareBracketBlock,
            TokenKind::CurlyBracketBlock,
            TokenKind::CloseCurlyBracket,
            TokenKind::CloseSquareBracket,
            TokenKind::CloseParenthesis,
            TokenKind::Comment,
            TokenKind::UnquotedUrl,
            TokenKind::Other,
        ]
    );
    assert_eq!(TokenKind::Function.opens(), Some(Bracket::Parenthesis));
    assert_eq!(TokenKind::SquareBracketBlock.opens(), Some(Bracket::Square));
    assert_eq!(TokenKind::Ident.opens(), None);
    assert_eq!(TokenKind::CloseCurlyBracket.closes(), Some(Bracket::Curly));
    assert_eq!(TokenKind::Comma.closes(), None);
    assert!(TokenKind::Comment.skipped());
    assert!(!TokenKind::Comma.skipped());
}

#[test]
fn reading_passes_over_whitespace_comments_and_unread_blocks() {
    let mut input = tokenize(" a /* c */ f(b (c) ] d) e ");
    assert_eq!(input.next(), Ok(1));
    assert_eq!(input.token(1).value, "a");
    let f = input.next().unwrap();
    assert_eq!(input.token(f).kind, TokenKind::Function);
    let e = input.next().unwrap();
    assert_eq!(input.token(e).value, "e");
    assert_eq!(input.next().map_err(|e| e.kind), Err(ParseErrorKind::EndOfInput));
    assert!(input.is_exhausted());
}

#[test]
fn a_block_can_be_entered_and_left() {
    let mut input = tokenize("f( a b ) c");
    input.next().unwrap();
    let outer = input.enter_block();
    assert_eq!(outer, input.token_count());
    let a = input.next().unwrap();
    assert_eq!(input.token(a).value, "a");
    assert!(!input.is_exhausted());
    input.leave_block(outer);
    let c = input.next().unwrap();
    assert_eq!(input.token(c).value, "c");
}

#[test]
fn a_block_that_is_not_closed_ends_with_the_text() {
    let mut input = tokenize("f( a [ b ) c");
    input.next().unwrap();
    let outer = input.enter_block();
    assert_eq!(input.limit(), outer);
    input.next().unwrap();
    input.next().unwrap();
    assert!(input.is_exhausted());
    input.leave_block(outer);
    assert_eq!(input.position(), outer);
}

#[test]
fn a_state_brings_the_cursor_back() {
    let mut input = tokenize("a b");
    let start = input.state();
    input.next().unwrap();
    input.next().unwrap();
    assert!(input.is_exhausted());
    input.reset(start);
    assert_eq!(input.position(), 0);
    assert_eq!(input.try_string().map_err(|e| e.kind), Err(ParseErrorKind::UnexpectedToken));
    assert_eq!(input.position(), 0);
    assert_eq!(input.try_ident(), Ok(0));
    assert_eq!(input.try_function_matching("f").map_err(|e| e.kind), Err(ParseErrorKind::UnexpectedToken));
    assert_eq!(input.position(), 1);
}

#[test]
fn expectations_fail_at_the_place_reading_began() {
    let mut input = tokenize("  12");
    assert_eq!(
        input.expect_ident(),
        Err(ParseError { kind: ParseErrorKind::UnexpectedToken, location: SourceLocation { line: 0, column: 1 } })
    );
    let mut input = tokenize("a  ");
    input.next().unwrap();
    assert_eq!(
        input.expect_ident_or_string(),
        Err(ParseError { kind: ParseErrorKind::EndOfInput, location: SourceLocation { line: 0, column: 4 } })
    );
    let mut input = tokenize("FORMAT(x)");
    assert_eq!(input.expect_function_matching("format"), Ok(0));
    let mut input = tokenize("formats(x)");
    assert_eq!(input.expect_function_matching("format").map_err(|e| e.kind), Err(ParseErrorKind::UnexpectedToken));
    let mut input = tokenize(" U u2 'u'");
    assert_eq!(input.expect_ident_matching("u"), Ok(1));
    assert_eq!(
        input.expect_ident_matching("u"),
        Err(ParseError { kind: ParseErrorKind::UnexpectedToken, location: SourceLocation { line: 0, column: 3 } })
    );
    assert_eq!(input.expect_ident_matching("u").map_err(|e| e.kind), Err(ParseErrorKind::UnexpectedToken));
    assert_eq!(input.expect_ident_matching("u").map_err(|e| e.kind), Err(ParseErrorKind::EndOfInput));
    let mut input = tokenize("'s' t");
    assert_eq!(input.expect_string(), Ok(0));
    assert_eq!(input.expect_string().map_err(|e| e.kind), Err(ParseErrorKind::UnexpectedToken));
}

#[test]
fn items_end_at_commas_outside_blocks() {
    let mut input = tokenize("a f(b, c) d, e");
    let outer = input.enter_item();
    assert_eq!(input.token(input.limit()).kind, TokenKind::Comma);
    assert_eq!(input.token(input.limit() + 2).value, "e");
    assert!(input.leave_item(outer));
    input.skip_delimiter();
    let outer = input.enter_item();
    assert_eq!(input.limit(), outer);
    assert!(!input.leave_item(outer));
    assert_eq!(input.position(), outer);
}

#[test]
fn leftover_tokens_turn_a_result_into_an_error() {
    let mut input = tokenize("a b");
    let first = input.next();
    assert_eq!(input.entirely(first).map_err(|e| e.kind), Err(ParseErrorKind::UnexpectedToken));
    let second = input.next();
    assert_eq!(input.entirely(second), Ok(2));
    let third = input.next();
    assert_eq!(input.entirely(third).map_err(|e| e.kind), Err(ParseErrorKind::EndOfInput));
}

#[test]
fn a_cursor_can_be_made_from_tokens() {
    let input = TokenCursor::new(vec![], SourceLocation { line: 7, column: 9 });
    assert_eq!(input.limit(), 0);
    assert!(input.is_exhausted());
    assert_eq!(input.current_source_location(), SourceLocation { line: 7, column: 9 });
}

#[test]
fn addresses_are_read_and_written() {
    let mut input = tokenize("  url( a.woff )");
    let url = Url::parse(&mut input).unwrap();
    assert_eq!(url.url, "a.woff");
    assert_eq!(url.loc, SourceLocation { line: 0, column: 1 });
    let mut dest = Printer::new(false);
    url.to_css(&mut dest);
    assert_eq!(dest.as_str(), "url(a.woff)");
    let mut input = tokenize("url(\"a b\")");
    let url = Url::parse(&mut input).unwrap();
    let mut dest = Printer::new(false);
    url.to_css(&mut dest);
    assert_eq!(dest.as_str(), "url(a\\20 b)");
    let mut input = tokenize("url(\"a\" b)");
    assert_eq!(Url::parse(&mut input).map_err(|e| e.kind), Err(ParseErrorKind::UnexpectedToken));
    let mut input = tokenize("\"a\"");
    assert_eq!(Url::parse(&mut input).map_err(|e| e.kind), Err(ParseErrorKind::UnexpectedToken));
}

#[test]
fn ascii_letters_compare_without_case() {
    assert!(eq_ignore_ascii_case("WoFf2", "woff2"));
    assert!(eq_ignore_ascii_case("", ""));
    assert!(!eq_ignore_ascii_case("woff", "woff2"));
    assert!(!eq_ignore_ascii_case("woff-", "woff_"));
    assert!(!eq_ignore_ascii_case("É", "é"));
    assert!(eq_ignore_ascii_case("é", "é"));
    assert_eq!(to_ascii_lower('A'), 'a');
    assert_eq!(to_ascii_lower('Z'), 'z');
    assert_eq!(to_ascii_lower('a'), 'a');
    assert_eq!(to_ascii_lower('['), '[');
    assert_eq!(to_ascii_lower('@'), '@');
}

#[test]
fn the_printer_writes_optional_whitespace_unless_minifying() {
    let mut dest = Printer::new(false);
    dest.write_str("a");
    dest.whitespace();
    dest.delim(',', true);
    dest.delim(':', false);
    dest.write_char('b');
    dest.indent();
    dest.indent();
    dest.newline();
    dest.dedent();
    dest.newline();
    assert!(!dest.minify());
    assert_eq!(dest.as_str(), "a  , : b\n    \n  ");
    let mut dest = Printer::new(true);
    dest.write_str("a");
    dest.whitespace();
    dest.delim(',', true);
    dest.delim(':', false);
    dest.write_char('b');
    dest.indent();
    dest.newline();
    assert!(dest.minify());
    assert_eq!(dest.into_string(), "a,:b");
}
