use cssparser::ParseError;
use cssparser::Parser;
use cssparser::ParserInput;
use cssparser::Token;
use font_face::cursor::TokenCursor;
use font_face::lexer::tokenize;
use font_face::token::ParseErrorKind;
use font_face::token::TokenKind;
use font_face::unicode_range::check_scan;
use font_face::unicode_range::UnicodeRange;
use font_face::values::Url;

const PIECES: [&str; 22] = [
    "a", "Bc", "f(", "url(", "(", "[", "{", ")", "]", "}", ",", " ", "\n", "/*c*/", "'s'", "\"t\"",
    "1", "2px", "50%", ";", "!", "url(x)",
];

struct Texts {
    seed: u64,
}

impl Texts {
    fn below(&mut self, n: u64) -> u64 {
        self.seed = self.seed.wrapping_mul(6364136223846793005).wrapping_add(1442695040888963407);
        (self.seed >> 33) % n
    }

    fn text(&mut self) -> String {
        let mut text = String::new();
        for _ in 0..self.below(14) {
            text.push_str(PIECES[self.below(PIECES.len() as u64) as usize]);
        }
        text
    }
}

fn theirs(token: &Token) -> String {
    match token {
        Token::Ident(s) => format!("ident {}", &**s),
        Token::Function(s) => format!("function {}", &**s),
        Token::QuotedString(s) => format!("string {}", &**s),
        Token::UnquotedUrl(s) => format!("url {}", &**s),
        Token::Dimension { unit, .. } => format!("dimension {}", &**unit),
        Token::Number { .. } => "number".to_string(),
        Token::Percentage { .. } => "percentage".to_string(),
        Token::Comma => "comma".to_string(),
        Token::ParenthesisBlock => "(".to_string(),
        Token::SquareBracketBlock => "[".to_string(),
        Token::CurlyBracketBlock => "{".to_string(),
        Token::CloseParenthesis => ")".to_string(),
        Token::CloseSquareBracket => "]".to_string(),
        Token::CloseCurlyBracket => "}".to_string(),
        _ => "other".to_string(),
    }
}

fn ours(input: &TokenCursor, i: usize) -> String {
    let token = input.token(i);
    match token.kind {
        TokenKind::Ident => format!("ident {}", token.value),
        TokenKind::Function => format!("function {}", token.value),
        TokenKind::QuotedString => format!("string {}", token.value),
        TokenKind::UnquotedUrl => format!("url {}", token.value),
        TokenKind::Dimension => format!("dimension {}", token.value),
        TokenKind::Number => "number".to_string(),
        TokenKind::Percentage => "percentage".to_string(),
        TokenKind::Comma => "comma".to_string(),
        TokenKind::ParenthesisBlock => "(".to_string(),
        TokenKind::SquareBracketBlock => "[".to_string(),
        TokenKind::CurlyBracketBlock => "{".to_string(),
        TokenKind::CloseParenthesis => ")".to_string(),
        TokenKind::CloseSquareBracket => "]".to_string(),
        TokenKind::CloseCurlyBracket => "}".to_string(),
        TokenKind::WhiteSpace | TokenKind::Comment => panic!("not skipped"),
        TokenKind::Other => "other".to_string(),
    }
}

fn opens(token: &Token) -> bool {
    matches!(
        token,
        Token::Function(_) | Token::ParenthesisBlock | Token::SquareBracketBlock | Token::CurlyBracketBlock
    )
}

fn their_flat(parser: &mut Parser) -> Vec<String> {
    let mut seen = Vec::new();
    while let Ok(token) = parser.next() {
        seen.push(theirs(token));
    }
    seen
}

fn our_flat(input: &mut TokenCursor) -> Vec<String> {
    let mut seen = Vec::new();
    while let Ok(i) = input.next() {
        seen.push(ours(input, i));
    }
    seen
}

fn their_tree<'i>(parser: &mut Parser<'i, '_>, depth: u32) -> Vec<String> {
    let mut seen = Vec::new();
    loop {
        let token = match parser.next() {
            Ok(token) => token.clone(),
            Err(_) => return seen,
        };
        seen.push(theirs(&token));
        if opens(&token) && depth < 3 {
            let inner: Result<Vec<String>, ParseError<'i, ()>> =
                parser.parse_nested_block(|p| Ok(their_tree(p, depth + 1)));
            seen.push("<".to_string());
            seen.extend(inner.unwrap());
            seen.push(">".to_string());
        }
    }
}

fn our_tree(input: &mut TokenCursor, depth: u32) -> Vec<String> {
    let mut seen = Vec::new();
    loop {
        let i = match input.next() {
            Ok(i) => i,
            Err(_) => return seen,
        };
        seen.push(ours(input, i));
        if input.token(i).kind.opens().is_some() && depth < 3 {
            let outer = input.enter_block();
            seen.push("<".to_string());
            seen.extend(our_tree(input, depth + 1));
            seen.push(">".to_string());
            assert!(input.is_exhausted());
            input.leave_block(outer);
        }
    }
}

fn their_items<'i>(parser: &mut Parser<'i, '_>, take: usize) -> Result<Vec<Vec<String>>, ()> {
    let items: Result<Vec<Vec<String>>, ParseError<'i, ()>> = parser.parse_comma_separated(|p| {
        let mut seen = Vec::new();
        while seen.len() < take {
            match p.next() {
                Ok(token) => seen.push(theirs(token)),
                Err(_) => break,
            }
        }
        Ok(seen)
    });
    items.map_err(|_| ())
}

fn our_items(input: &mut TokenCursor, take: usize) -> Result<Vec<Vec<String>>, ()> {
    let mut items = Vec::new();
    loop {
        let outer = input.enter_item();
        let mut seen = Vec::new();
        while seen.len() < take {
            match input.next() {
                Ok(i) => seen.push(ours(input, i)),
                Err(_) => break,
            }
        }
        let whole = input.entirely(Ok(seen));
        let more = input.leave_item(outer);
        items.push(whole.map_err(|_| ())?);
        if !more {
            return Ok(items);
        }
        input.skip_delimiter();
    }
}

#[test]
fn the_cursor_reads_the_tokens_that_cssparser_reads() {
    let mut texts = Texts { seed: 1 };
    for _ in 0..3000 {
        let text = texts.text();
        let mut source = ParserInput::new(&text);
        let mut parser = Parser::new(&mut source);
        let mut input = tokenize(&text);
        assert_eq!(our_flat(&mut input), their_flat(&mut parser), "{:?}", text);
        assert!(input.is_exhausted());
    }
}

#[test]
fn the_cursor_enters_the_blocks_that_cssparser_enters() {
    let mut texts = Texts { seed: 2 };
    for _ in 0..3000 {
        let text = texts.text();
        let mut source = ParserInput::new(&text);
        let mut parser = Parser::new(&mut source);
        let mut input = tokenize(&text);
        assert_eq!(our_tree(&mut input, 0), their_tree(&mut parser, 0), "{:?}", text);
    }
}

#[test]
fn the_cursor_splits_lists_where_cssparser_splits_them() {
    let mut texts = Texts { seed: 3 };
    for round in 0..3000 {
        let text = texts.text();
        let take = 1 + round % 4;
        let mut source = ParserInput::new(&text);
        let mut parser = Parser::new(&mut source);
        let mut input = tokenize(&text);
        assert_eq!(our_items(&mut input, take), their_items(&mut parser, take), "{:?}", text);
        assert_eq!(our_flat(&mut input), their_flat(&mut parser), "{:?}", text);
    }
}

#[test]
fn the_cursor_stands_where_cssparser_stands() {
    let mut texts = Texts { seed: 4 };
    for _ in 0..2000 {
        let text = texts.text();
        let mut source = ParserInput::new(&text);
        let mut parser = Parser::new(&mut source);
        let mut input = tokenize(&text);
        loop {
            let theirs = parser.current_source_location();
            let ours = input.current_source_location();
            assert_eq!((ours.line, ours.column), (theirs.line, theirs.column), "{:?}", text);
            assert_eq!(input.is_exhausted(), parser.is_exhausted(), "{:?}", text);
            match (input.next(), parser.next()) {
                (Ok(_), Ok(_)) => {}
                (Err(_), Err(_)) => break,
                _ => panic!("{:?}", text),
            }
        }
    }
}

fn their_kind(error: &cssparser::BasicParseError) -> ParseErrorKind {
    match error.kind {
        cssparser::BasicParseErrorKind::EndOfInput => ParseErrorKind::EndOfInput,
        _ => ParseErrorKind::UnexpectedToken,
    }
}

#[test]
fn addresses_are_read_where_cssparser_reads_them() {
    let mut texts = Texts { seed: 5 };
    for round in 0..3000 {
        let text = if round % 2 == 0 { format!("url({}", texts.text()) } else { texts.text() };
        let mut source = ParserInput::new(&text);
        let mut parser = Parser::new(&mut source);
        let mut input = tokenize(&text);
        let theirs = parser.expect_url().map(|s| s.to_string()).map_err(|e| {
            ((e.location.line, e.location.column), their_kind(&e))
        });
        let ours = Url::parse(&mut input)
            .map(|u| u.url)
            .map_err(|e| ((e.location.line, e.location.column), e.kind));
        assert_eq!(ours, theirs, "{:?}", text);
        assert_eq!(our_flat(&mut input), their_flat(&mut parser), "{:?}", text);
    }
}

#[test]
fn expectations_are_met_where_cssparser_meets_them() {
    let mut texts = Texts { seed: 6 };
    for _ in 0..3000 {
        let text = texts.text();
        let mut source = ParserInput::new(&text);
        let mut parser = Parser::new(&mut source);
        let mut input = tokenize(&text);
        let theirs = parser.expect_ident_or_string().map(|s| s.to_string()).map_err(|e| {
            ((e.location.line, e.location.column), their_kind(&e))
        });
        let ours = input
            .expect_ident_or_string()
            .map_err(|e| ((e.location.line, e.location.column), e.kind))
            .map(|i| input.token(i).value.clone());
        assert_eq!(ours, theirs, "{:?}", text);
        let theirs = parser.expect_function_matching("F").map_err(|e| {
            ((e.location.line, e.location.column), their_kind(&e))
        });
        let ours = input
            .expect_function_matching("F")
            .map(|_| ())
            .map_err(|e| ((e.location.line, e.location.column), e.kind));
        assert_eq!(ours, theirs, "{:?}", text);
        assert_eq!(our_flat(&mut input), their_flat(&mut parser), "{:?}", text);
    }
}

const RANGE_PIECES: [&str; 26] = [
    "U", "u", "+", "+", "4", "1E", "A", "f", "?", "?", "-", "-", " ", ",", "/**/", "0", "9a", "x",
    "/*\u{e9}*/", "/*deadbeef00*/", "\u{e9}", "!", "(", ")", "12345678", "abcdef0123",
];

#[test]
fn ranges_are_read_where_cssparser_reads_them() {
    let mut texts = Texts { seed: 7 };
    let mut read = 0;
    let mut refused = 0;
    for round in 0..40000 {
        let mut text = String::from(if round % 8 == 0 { "u" } else { "U+" });
        for _ in 0..texts.below(7) {
            text.push_str(RANGE_PIECES[texts.below(RANGE_PIECES.len() as u64) as usize]);
        }
        let mut input = tokenize(&text);
        let ours = UnicodeRange::parse(&mut input).map(|r| (r.start, r.end)).map_err(|e| e.kind);
        // Where digits cannot be added up in 32 bits there is nothing to compare with.
        if !check_scan(&format!("u{}", &text[1..])) {
            refused += 1;
            assert_eq!(ours, Err(ParseErrorKind::UnexpectedToken), "{:?}", text);
            continue;
        }
        let mut source = ParserInput::new(&text);
        let mut parser = Parser::new(&mut source);
        let theirs = cssparser::UnicodeRange::parse(&mut parser)
            .map(|r| (r.start, r.end))
            .map_err(|e| their_kind(&e));
        assert_eq!(ours, theirs, "{:?}", text);
        if ours.is_ok() {
            read += 1;
            assert_eq!(our_flat(&mut input), their_flat(&mut parser), "{:?}", text);
        }
    }
    assert!(read > 2000);
    assert!(refused > 100);
}
