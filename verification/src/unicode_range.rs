//! Code-point ranges of the `unicode-range` descriptor and their shortest
//! textual form.

use crate::cursor::agrees;
use crate::cursor::lemma_prepend_push;
use crate::cursor::prepend;
use crate::cursor::CursorView;
use crate::cursor::Step;
use crate::cursor::TokenCursor;
use crate::printer::delim_text;
use crate::printer::Printer;
use crate::token::CssToken;
use crate::token::ParseError;
use crate::token::ParseErrorKind;
use crate::token::SourceLocation;
use crate::token::TokenKind;
use vstd::prelude::*;
use vstd::string::*;
use vstd::utf8::is_ascii_chars;

verus! {

/// 16 to the power `k`.
pub open spec fn pow16(k: nat) -> nat
    decreases k,
{
    if k == 0 {
        1
    } else {
        16 * pow16((k - 1) as nat)
    }
}

/// The upper-case hexadecimal digit for a value below 16.
pub open spec fn hex_char(d: nat) -> char {
    if d < 10 {
        ((48 + d) as u32) as char
    } else {
        ((55 + d) as u32) as char
    }
}

/// Upper-case hexadecimal digits of `n`, most significant first, without
/// leading zeros; the single digit `0` for zero.
pub open spec fn hex_digits(n: nat) -> Seq<char>
    decreases n,
{
    if n < 16 {
        seq![hex_char(n)]
    } else {
        hex_digits(n / 16).push(hex_char(n % 16))
    }
}

/// `n` question marks.
pub open spec fn question_marks(n: nat) -> Seq<char> {
    Seq::new(n, |i: int| '?')
}

/// A contiguous range of Unicode code points.
///
/// Cannot be empty. Stands for a single code point when `start == end`.
#[derive(Clone, Copy, Debug, PartialEq, Eq, Structural)]
pub struct UnicodeRange {
    /// Inclusive start of the range. In [0, end].
    pub start: u32,
    /// Inclusive end of the range. In [0, 0x10FFFF].
    pub end: u32,
}

impl UnicodeRange {
    /// The invariant of a range: it is not empty and ends within Unicode.
    pub open spec fn wf(self) -> bool {
        self.start <= self.end <= 0x10FFFF
    }

    /// The hexadecimal digit of `v` at position `i`, counted from the least
    /// significant digit.
    pub open spec fn digit_at(v: u32, i: nat) -> nat {
        (v as nat / pow16(i)) % 16
    }

    /// The most significant position, not above `i`, at which `start` and
    /// `end` have different digits; 0 if there is none.
    pub open spec fn top_difference(self, i: nat) -> nat
        decreases i,
    {
        if i == 0 {
            0
        } else if Self::digit_at(self.start, i) != Self::digit_at(self.end, i) {
            i
        } else {
            self.top_difference((i - 1) as nat)
        }
    }

    /// Number of trailing digits, among the lowest seven, from the most
    /// significant one in which `start` and `end` differ down to the last.
    pub open spec fn window(self) -> nat {
        self.top_difference(6) + 1
    }

    /// Number of question marks in the written form: the window, if the
    /// range holds exactly the values that share the digits above it, that
    /// is if `start` has only zeros in the window and `end` only `F`;
    /// otherwise 0, and the written form is plain.
    pub open spec fn wildcards(self) -> nat {
        let m = pow16(self.window());
        if self.start != self.end && self.start as nat % m == 0 && self.end as nat % m == m - 1 {
            self.window()
        } else {
            0
        }
    }

    /// The written form of the range.
    pub open spec fn css_text(self) -> Seq<char> {
        let marks = self.wildcards();
        if marks > 0 {
            let prefix = self.start as nat / pow16(marks);
            seq!['U', '+'] + (if prefix != 0 {
                hex_digits(prefix)
            } else {
                Seq::empty()
            }) + question_marks(marks)
        } else {
            seq!['U', '+'] + hex_digits(self.start as nat) + (if self.end != self.start {
                seq!['-'] + hex_digits(self.end as nat)
            } else {
                Seq::empty()
            })
        }
    }

    /// A range from its bounds, if they make one.
    pub fn new(start: u32, end: u32) -> (r: Option<UnicodeRange>)
        ensures
            r == (if start <= end && end <= 0x10FFFF {
                Some(UnicodeRange { start, end })
            } else {
                None
            }),
    {
        if start <= end && end <= 0x10FFFF {
            Some(UnicodeRange { start, end })
        } else {
            None
        }
    }

    /// Writes the range in its shortest form: a single code point as
    /// `U+` and its digits; a range that a run of trailing wildcards
    /// describes exactly as the shared leading digits and one `?` for each
    /// digit of the run; any other range as its two bounds.
    pub fn to_css(&self, dest: &mut Printer)
        ensures
            final(dest)@ == old(dest)@.wrote(self.css_text()),
    {
        if self.start != self.end {
            // Find the most significant digit in which the bounds differ.
            let mut position: u32 = 6;
            let mut unit: u32 = 0x100_0000;
            proof {
                lemma_pow16_values();
            }
            while position > 0 && (self.start / unit) % 16 == (self.end / unit) % 16
                invariant
                    position <= 6,
                    0 < unit <= 0x100_0000,
                    unit == pow16(position as nat),
                    self.top_difference(6) == self.top_difference(position as nat),
                decreases position,
            {
                unit = unit / 16;
                position -= 1;
            }
            assert(self.top_difference(6) == position);
            // The bounds must be all zeros and all `F` from there on.
            let marks: u32 = position + 1;
            let modulus: u32 = unit * 16;
            assert(modulus == pow16(marks as nat));
            if self.start % modulus == 0 && self.end % modulus == modulus - 1 {
                let prefix: u32 = self.start / modulus;
                dest.write_char('U');
                dest.write_char('+');
                if prefix != 0 {
                    write_hex(dest, prefix);
                }
                let mut written: u32 = 0;
                assert(dest@.output =~= old(dest)@.output + (seq!['U', '+'] + (if prefix != 0 {
                    hex_digits(prefix as nat)
                } else {
                    Seq::empty()
                }) + question_marks(0)));
                while written < marks
                    invariant
                        written <= marks,
                        dest@ == old(dest)@.wrote(
                            seq!['U', '+'] + (if prefix != 0 {
                                hex_digits(prefix as nat)
                            } else {
                                Seq::empty()
                            }) + question_marks(written as nat),
                        ),
                    decreases marks - written,
                {
                    dest.write_char('?');
                    written += 1;
                    assert(dest@.output =~= old(dest)@.output + (seq!['U', '+'] + (if prefix != 0 {
                        hex_digits(prefix as nat)
                    } else {
                        Seq::empty()
                    }) + question_marks(written as nat)));
                }
                return ;
            }
        }
        dest.write_char('U');
        dest.write_char('+');
        write_hex(dest, self.start);
        if self.end != self.start {
            dest.write_char('-');
            write_hex(dest, self.end);
        }
        assert(dest@.output =~= old(dest)@.output + self.css_text());
    }
}

/// The powers of 16 that fit in 32 bits.
pub proof fn lemma_pow16_values()
    ensures
        pow16(0) == 1,
        pow16(1) == 0x10,
        pow16(2) == 0x100,
        pow16(3) == 0x1000,
        pow16(4) == 0x1_0000,
        pow16(5) == 0x10_0000,
        pow16(6) == 0x100_0000,
        pow16(7) == 0x1000_0000,
{
    reveal_with_fuel(pow16, 8);
}

/// The upper-case hexadecimal digit for a value below 16.
pub fn hex_digit(d: u32) -> (c: char)
    requires
        d < 16,
    ensures
        c == hex_char(d as nat),
{
    if d < 10 {
        ((48 + d) as u8) as char
    } else {
        ((55 + d) as u8) as char
    }
}

/// Writes `n` in upper-case hexadecimal, without leading zeros.
pub fn write_hex(dest: &mut Printer, n: u32)
    ensures
        final(dest)@ == old(dest)@.wrote(hex_digits(n as nat)),
    decreases n,
{
    if n >= 16 {
        write_hex(dest, n / 16);
    }
    dest.write_char(hex_digit(n % 16));
    assert(dest@.output =~= old(dest)@.output + hex_digits(n as nat));
}

/// Whether `c` is a hexadecimal digit, in either case.
pub open spec fn is_hex_digit(c: char) -> bool {
    ('0' <= c && c <= '9') || ('a' <= c && c <= 'f') || ('A' <= c && c <= 'F')
}

/// The value of a hexadecimal digit.
pub open spec fn hex_value(c: char) -> nat {
    if '0' <= c && c <= '9' {
        (c as u32 - 48) as nat
    } else if 'a' <= c && c <= 'f' {
        (c as u32 - 87) as nat
    } else {
        (c as u32 - 55) as nat
    }
}

/// Number of hexadecimal digits that `s` holds from index `from` on without
/// a break.
pub open spec fn hex_run(s: Seq<char>, from: int) -> nat
    decreases s.len() - from,
{
    if 0 <= from < s.len() && is_hex_digit(s[from]) {
        1 + hex_run(s, from + 1)
    } else {
        0
    }
}

/// Number of question marks that `s` holds from index `from` on without a
/// break.
pub open spec fn mark_run(s: Seq<char>, from: int) -> nat
    decreases s.len() - from,
{
    if 0 <= from < s.len() && s[from] == '?' {
        1 + mark_run(s, from + 1)
    } else {
        0
    }
}

/// The number that the hexadecimal digits of `s` from index `from` up to,
/// not including, index `to` spell.
pub open spec fn hex_number(s: Seq<char>, from: int, to: int) -> nat
    decreases to - from,
{
    if to <= from {
        0
    } else {
        hex_number(s, from, to - 1) * 16 + hex_value(s[to - 1])
    }
}

/// The bounds, if they make a range.
pub open spec fn checked_bounds(start: nat, end: nat) -> Option<(nat, nat)> {
    if start <= end && end <= 0x10FFFF {
        Some((start, end))
    } else {
        None
    }
}

/// What a text means in the notation for code-point ranges: `U+`, then up
/// to six places filled with hexadecimal digits followed by question marks,
/// each mark standing for every digit, or else one to six digits, `-`, and
/// one to six digits. `None` for any other text and where the bounds make
/// no range.
pub open spec fn denoted_range(text: Seq<char>) -> Option<(nat, nat)> {
    if text.len() < 2 || (text[0] != 'U' && text[0] != 'u') || text[1] != '+' {
        None
    } else {
        let digits = hex_run(text, 2) as int;
        let marks = mark_run(text, 2 + digits);
        let stop = 2 + digits + marks;
        let first = hex_number(text, 2, 2 + digits);
        if digits + marks == 0 || digits + marks > 6 {
            None
        } else if marks > 0 {
            if stop == text.len() {
                checked_bounds(first * pow16(marks), ((first + 1) * pow16(marks) - 1) as nat)
            } else {
                None
            }
        } else if stop == text.len() {
            checked_bounds(first, first)
        } else if text[stop] == '-' {
            let more = hex_run(text, stop + 1);
            if 0 < more <= 6 && stop + 1 + more == text.len() {
                checked_bounds(first, hex_number(text, stop + 1, text.len() as int))
            } else {
                None
            }
        } else {
            None
        }
    }
}

/// The digits written for a number are hexadecimal digits, at least one, and
/// no more than the number needs.
pub proof fn lemma_hex_digits_shape(n: nat, places: nat)
    requires
        places >= 1,
        n < pow16(places),
    ensures
        1 <= hex_digits(n).len() <= places,
        forall|i: int| 0 <= i < hex_digits(n).len() ==> is_hex_digit(#[trigger] hex_digits(n)[i]),
    decreases n,
{
    if n >= 16 {
        assert(places >= 2) by {
            reveal_with_fuel(pow16, 2);
        }
        lemma_hex_digits_shape(n / 16, (places - 1) as nat);
    }
}

/// A stretch of hexadecimal digits that ends the text, or that something
/// else follows, is a whole run.
proof fn lemma_hex_run(s: Seq<char>, from: int, to: int)
    requires
        0 <= from <= to <= s.len(),
        forall|i: int| from <= i < to ==> is_hex_digit(#[trigger] s[i]),
        to == s.len() || !is_hex_digit(s[to]),
    ensures
        hex_run(s, from) == to - from,
    decreases to - from,
{
    if from < to {
        lemma_hex_run(s, from + 1, to);
    }
}

/// A stretch of question marks that ends the text, or that something else
/// follows, is a whole run.
proof fn lemma_mark_run(s: Seq<char>, from: int, to: int)
    requires
        0 <= from <= to <= s.len(),
        forall|i: int| from <= i < to ==> #[trigger] s[i] == '?',
        to == s.len() || s[to] != '?',
    ensures
        mark_run(s, from) == to - from,
    decreases to - from,
{
    if from < to {
        lemma_mark_run(s, from + 1, to);
    }
}

/// Where a text holds the digits written for `n`, they spell `n`.
proof fn lemma_hex_number(s: Seq<char>, from: int, n: nat)
    requires
        0 <= from,
        from + hex_digits(n).len() <= s.len(),
        forall|i: int| 0 <= i < hex_digits(n).len() ==> s[from + i] == #[trigger] hex_digits(n)[i],
    ensures
        hex_number(s, from, from + hex_digits(n).len()) == n,
    decreases n,
{
    let d = hex_digits(n);
    if n >= 16 {
        let shorter = hex_digits(n / 16);
        assert(d.len() == shorter.len() + 1);
        assert forall|i: int| 0 <= i < shorter.len() implies s[from + i] == #[trigger] shorter[i] by {
            assert(d[i] == shorter[i]);
        }
        lemma_hex_number(s, from, n / 16);
        assert(s[from + d.len() - 1] == d[d.len() - 1]);
        assert(hex_value(hex_char(n % 16)) == n % 16);
    } else {
        assert(s[from + 0] == d[0]);
        assert(hex_value(hex_char(n)) == n);
        assert(hex_number(s, from, from) == 0);
    }
}

/// What `cssparser::UnicodeRange::parse` reads at the start of a text: the
/// two bounds and the number of bytes it has read, or the kind of error it
/// fails with.
pub uninterp spec fn scanned_range(text: Seq<char>) -> Result<(u32, u32, usize), ParseErrorKind>;

/// Whether a text that starts with `u` can be scanned for a range without
/// a sum of hexadecimal digits going beyond 32 bits. Digits are added up
/// in two places only: right behind a `+` that follows the `u`, and right
/// behind a `-` that follows those digits. With no more than eight digits
/// in each place the sums fit; with more, the text is no range.
pub open spec fn scan_is_safe(text: Seq<char>) -> bool {
    &&& text.len() >= 1
    &&& text[0] == 'u'
    &&& text.len() >= 2 && text[1] == '+' ==> {
        let digits = hex_run(text, 2) as int;
        &&& digits <= 8
        &&& 2 + digits < text.len() && text[2 + digits] == '-' ==> hex_run(text, 3 + digits) <= 8
    }
}

/// Reads a code-point range at the start of `text` with
/// `cssparser::UnicodeRange::parse`, on a parser made for the call. Gives
/// the bounds and the number of bytes read, from `Parser::position`, or
/// the kind of the error. That function adds up hexadecimal digits in 32
/// bits without a check, behind the `+` and behind the `-` of a range, so
/// texts with more than eight digits there are left out; it reads them as
/// no range. It gives no range that is empty or ends beyond U+10FFFF.
#[verifier::external_body]
fn scan_range(text: &str) -> (r: Result<(u32, u32, usize), ParseErrorKind>)
    requires
        scan_is_safe(text@),
    ensures
        r == scanned_range(text@),
        r matches Ok((start, end, _)) ==> start <= end && end <= 0x10FFFF,
{
    let mut input = cssparser::ParserInput::new(text);
    let mut parser = cssparser::Parser::new(&mut input);
    match cssparser::UnicodeRange::parse(&mut parser) {
        Ok(range) => Ok((range.start, range.end, parser.position().byte_index())),
        Err(error) => match error.kind {
            cssparser::BasicParseErrorKind::EndOfInput => Err(ParseErrorKind::EndOfInput),
            _ => Err(ParseErrorKind::UnexpectedToken),
        },
    }
}

/// The text of the tokens from index `from` up to, not including, index
/// `to`, as it stands in the source.
pub open spec fn run_text(tokens: Seq<CssToken>, from: int, to: int) -> Seq<char>
    decreases to - from,
{
    if to <= from || to > tokens.len() {
        Seq::empty()
    } else {
        run_text(tokens, from, to - 1) + tokens[to - 1].raw@
    }
}

/// The index of the token, not beyond `to`, before which the tokens from
/// `from` on have `count` characters in all, each of them in ASCII, so
/// that characters and bytes are counted alike; `None` if `count`
/// characters end inside a token or beyond `to`, or are not all in ASCII.
pub open spec fn boundary(tokens: Seq<CssToken>, from: int, to: int, count: int) -> Option<int>
    decreases to - from,
{
    if count == 0 {
        Some(from)
    } else if from < 0 || from >= to || from >= tokens.len() || !is_ascii_chars(tokens[from].raw@)
        || count < tokens[from].raw@.len() {
        None
    } else {
        boundary(tokens, from + 1, to, count - tokens[from].raw@.len())
    }
}

/// The number of hexadecimal digits that `text` holds from index `from` on
/// without a break.
pub fn count_hex_digits(text: &str, from: usize) -> (r: usize)
    ensures
        r == hex_run(text@, from as int),
{
    let n: usize = text.unicode_len();
    let mut i: usize = from;
    while i < n && is_hex(text.get_char(i))
        invariant
            from <= i,
            n == text@.len(),
            hex_run(text@, from as int) == (i - from) + hex_run(text@, i as int),
        decreases n - i,
    {
        i += 1;
    }
    i - from
}

/// Whether `c` is a hexadecimal digit, in either case.
pub fn is_hex(c: char) -> (r: bool)
    ensures
        r == is_hex_digit(c),
{
    ('0' <= c && c <= '9') || ('a' <= c && c <= 'f') || ('A' <= c && c <= 'F')
}

/// Whether a text can be scanned for a range without a sum going beyond
/// 32 bits.
pub fn check_scan(text: &str) -> (r: bool)
    ensures
        r == scan_is_safe(text@),
{
    let n: usize = text.unicode_len();
    if n < 1 || text.get_char(0) != 'u' {
        return false;
    }
    if n < 2 || text.get_char(1) != '+' {
        return true;
    }
    let digits: usize = count_hex_digits(text, 2);
    if digits > 8 {
        return false;
    }
    if 2 + digits < n && text.get_char(2 + digits) == '-' {
        count_hex_digits(text, 3 + digits) <= 8
    } else {
        true
    }
}

impl UnicodeRange {
    /// What reading comes to behind the `u` of a range, once `cssparser`
    /// has scanned the text from the `u` on. If the scan gave a range and
    /// ended between two tokens, the range, with the cursor behind the
    /// tokens that were scanned; if the scan failed, its kind of error,
    /// with the cursor left in place.
    pub open spec fn from_scan_spec(
        c: CursorView,
        scan: Result<(u32, u32, usize), ParseErrorKind>,
    ) -> Step<UnicodeRange> {
        let failed = Step { after: c, result: Err::<UnicodeRange, ParseError>(c.unexpected()) };
        match scan {
            Ok((start, end, count)) => if count >= 1 && start <= end && end <= 0x10FFFF {
                match boundary(c.tokens, c.pos, c.end, count - 1) {
                    Some(k) => Step { after: c.at(k), result: Ok(UnicodeRange { start, end }) },
                    None => failed,
                }
            } else {
                failed
            },
            Err(kind) => Step { after: c, result: Err(ParseError { kind, location: c.location() }) },
        }
    }

    /// The text that is scanned for a range behind its `u`, which the
    /// cursor has just read: `u` and the text of every token that is left
    /// in the stretch.
    pub open spec fn scan_text(c: CursorView) -> Seq<char> {
        seq!['u'] + run_text(c.tokens, c.pos, c.end)
    }

    /// Reading a range: the identifier `u`, in either case, and then what
    /// `cssparser` reads as a range in the text from there on, comments
    /// and all. A text with more hexadecimal digits than can be added up
    /// is no range.
    pub open spec fn parse_spec(c: CursorView) -> Step<UnicodeRange> {
        let start = c.expect_ident_matching("u"@);
        match start.result {
            Err(e) => Step { after: start.after, result: Err(e) },
            Ok(_) => {
                let text = UnicodeRange::scan_text(start.after);
                if scan_is_safe(text) {
                    UnicodeRange::from_scan_spec(start.after, scanned_range(text))
                } else {
                    Step { after: start.after, result: Err(start.after.unexpected()) }
                }
            },
        }
    }

    /// Reading a list of ranges: one or more, with a comma between each
    /// two. Each must fill its stretch between the commas, and the first
    /// that fails ends the reading with its error.
    pub open spec fn parse_list_spec(c: CursorView) -> Step<Seq<UnicodeRange>>
        decreases c.end - c.pos,
    {
        match CursorView::entirely(UnicodeRange::parse_spec(c.item())) {
            Err(e) => Step { after: c.after_item(), result: Err(e) },
            Ok(v) => if c.more_items() {
                prepend(seq![v], UnicodeRange::parse_list_spec(c.next_item()))
            } else {
                Step { after: c.after_item(), result: Ok(seq![v]) }
            },
        }
    }

    /// Finishes the reading of a range with what `cssparser` found in the
    /// text from the `u` on, which the cursor has just read: moves the
    /// cursor behind the tokens that were scanned and gives the range, or
    /// fails and leaves the cursor in place.
    pub fn from_scan(
        input: &mut TokenCursor,
        scan: Result<(u32, u32, usize), ParseErrorKind>,
    ) -> (r: Result<UnicodeRange, ParseError>)
        requires
            old(input).wf(),
        ensures
            final(input).wf(),
            final(input)@.follows(old(input)@),
            agrees(final(input)@, r, UnicodeRange::from_scan_spec(old(input)@, scan)),
            r matches Ok(range) ==> range.wf(),
    {
        let location: SourceLocation = input.current_source_location();
        let failed: ParseError = ParseError { kind: ParseErrorKind::UnexpectedToken, location };
        let (start, end, count) = match scan {
            Ok(found) => found,
            Err(kind) => {
                return Err(ParseError { kind, location });
            },
        };
        if count < 1 || start > end || end > 0x10FFFF {
            return Err(failed);
        }
        let from: usize = input.position();
        let limit: usize = input.limit();
        let mut k: usize = from;
        let mut left: usize = count - 1;
        while left > 0
            invariant
                input@ == old(input)@,
                input.wf(),
                failed == input@.unexpected(),
                scan == Ok::<(u32, u32, usize), ParseErrorKind>((start, end, count)),
                count >= 1,
                start <= end <= 0x10FFFF,
                from <= k <= limit,
                from == input@.pos,
                limit == input@.end,
                boundary(input@.tokens, from as int, limit as int, count - 1) == boundary(
                    input@.tokens,
                    k as int,
                    limit as int,
                    left as int,
                ),
            decreases limit - k,
        {
            if k >= limit {
                return Err(failed);
            }
            let token = input.token(k);
            if !token.raw.as_str().is_ascii() {
                return Err(failed);
            }
            let length: usize = token.raw.as_str().unicode_len();
            if left < length {
                return Err(failed);
            }
            left -= length;
            k += 1;
        }
        input.move_to(k);
        Ok(UnicodeRange { start, end })
    }

    /// Reads one code-point range, such as `U+26`, `U+0-7F` or `U+4??`,
    /// with `cssparser`'s parser for this notation.
    pub fn parse(input: &mut TokenCursor) -> (r: Result<UnicodeRange, ParseError>)
        requires
            old(input).wf(),
        ensures
            final(input).wf(),
            final(input)@.follows(old(input)@),
            agrees(final(input)@, r, UnicodeRange::parse_spec(old(input)@)),
            r matches Ok(range) ==> range.wf(),
    {
        match input.expect_ident_matching("u") {
            Ok(_) => {},
            Err(e) => {
                return Err(e);
            },
        }
        let first: usize = input.position();
        let limit: usize = input.limit();
        let mut text: String = String::from_str("u");
        proof {
            reveal_strlit("u");
            assert(text@ =~= seq!['u'] + run_text(input@.tokens, first as int, first as int));
        }
        let mut k: usize = first;
        while k < limit
            invariant
                input.wf(),
                first <= k <= limit,
                limit == input@.end,
                text@ == seq!['u'] + run_text(input@.tokens, first as int, k as int),
            decreases limit - k,
        {
            let ghost before = text@;
            text.append(input.token(k).raw.as_str());
            k += 1;
            assert(text@ =~= seq!['u'] + run_text(input@.tokens, first as int, k as int)) by {
                assert(text@ == before + input@.tokens[k - 1].raw@);
            }
        }
        if check_scan(text.as_str()) {
            let scan = scan_range(text.as_str());
            UnicodeRange::from_scan(input, scan)
        } else {
            Err(
                ParseError {
                    kind: ParseErrorKind::UnexpectedToken,
                    location: input.current_source_location(),
                },
            )
        }
    }

    /// The written form of a list of ranges: a comma and optional
    /// whitespace between each two, none at the end.
    pub open spec fn list_text(list: Seq<UnicodeRange>, minify: bool) -> Seq<char>
        decreases list.len(),
    {
        if list.len() == 0 {
            Seq::empty()
        } else if list.len() == 1 {
            list[0].css_text()
        } else {
            UnicodeRange::list_text(list.drop_last(), minify) + delim_text(',', false, minify)
                + list.last().css_text()
        }
    }

    /// Writes a list of ranges.
    pub fn list_to_css(list: &Vec<UnicodeRange>, dest: &mut Printer)
        ensures
            final(dest)@ == old(dest)@.wrote(UnicodeRange::list_text(list@, old(dest)@.minify)),
    {
        let ghost minify = dest@.minify;
        let len: usize = list.len();
        let mut i: usize = 0;
        assert(dest@.output =~= old(dest)@.output + UnicodeRange::list_text(list@.take(0), minify));
        while i < len
            invariant
                i <= len,
                len == list@.len(),
                minify == old(dest)@.minify,
                dest@ == old(dest)@.wrote(UnicodeRange::list_text(list@.take(i as int), minify)),
            decreases len - i,
        {
            if i > 0 {
                dest.delim(',', false);
            }
            list[i].to_css(dest);
            assert(list@.take(i + 1).drop_last() =~= list@.take(i as int));
            i += 1;
            assert(dest@.output =~= old(dest)@.output + UnicodeRange::list_text(
                list@.take(i as int),
                minify,
            ));
        }
        assert(list@.take(len as int) =~= list@);
    }

    /// Reads the value of the `unicode-range` descriptor: ranges
    /// separated by commas.
    pub fn parse_list(input: &mut TokenCursor) -> (r: Result<Vec<UnicodeRange>, ParseError>)
        requires
            old(input).wf(),
        ensures
            final(input).wf(),
            final(input)@.follows(old(input)@),
            final(input)@ == UnicodeRange::parse_list_spec(old(input)@).after,
            match r {
                Ok(v) => UnicodeRange::parse_list_spec(old(input)@).result == Ok::<
                    Seq<UnicodeRange>,
                    ParseError,
                >(v@),
                Err(e) => UnicodeRange::parse_list_spec(old(input)@).result == Err::<
                    Seq<UnicodeRange>,
                    ParseError,
                >(e),
            },
            r matches Ok(v) ==> v@.len() > 0 && forall|i: int|
                0 <= i < v@.len() ==> (#[trigger] v@[i]).wf(),
    {
        let mut values: Vec<UnicodeRange> = Vec::new();
        loop
            invariant
                input.wf(),
                input@.follows(old(input)@),
                forall|i: int| 0 <= i < values@.len() ==> (#[trigger] values@[i]).wf(),
                prepend(values@, UnicodeRange::parse_list_spec(input@))
                    == UnicodeRange::parse_list_spec(old(input)@),
            decreases input@.end - input@.pos,
        {
            let ghost c = input@;
            let outer_end: usize = input.enter_item();
            let item = UnicodeRange::parse(input);
            let item = input.entirely(item);
            let more: bool = input.leave_item(outer_end);
            proof {
                lemma_prepend_push(values@, item->Ok_0, UnicodeRange::parse_list_spec(c.next_item()));
                lemma_prepend_push(
                    values@,
                    item->Ok_0,
                    Step { after: c.after_item(), result: Ok(Seq::empty()) },
                );
            }
            match item {
                Err(e) => {
                    return Err(e);
                },
                Ok(v) => {
                    values.push(v);
                    if !more {
                        return Ok(values);
                    }
                    input.skip_delimiter();
                },
            }
        }
    }
}

impl View for UnicodeRange {
    type V = UnicodeRange;

    open spec fn view(&self) -> UnicodeRange {
        *self
    }
}

/// The tokens of a stretch, where none is empty and all are in ASCII, end
/// where as many characters have been counted as their texts have.
proof fn lemma_boundary_of_run(tokens: Seq<CssToken>, from: int, to: int)
    requires
        0 <= from <= to <= tokens.len(),
        forall|i: int|
            from <= i < to ==> (#[trigger] tokens[i]).raw@.len() > 0 && is_ascii_chars(
                tokens[i].raw@,
            ),
    ensures
        boundary(tokens, from, to, run_text(tokens, from, to).len() as int) == Some(to),
        from < to ==> run_text(tokens, from, to).len() == tokens[from].raw@.len() + run_text(
            tokens,
            from + 1,
            to,
        ).len(),
    decreases to - from,
{
    if from < to {
        lemma_run_text_length(tokens, from, to);
        lemma_boundary_of_run(tokens, from + 1, to);
    }
}

/// The text of a stretch is as long as the text of its first token and the
/// text of the rest.
proof fn lemma_run_text_length(tokens: Seq<CssToken>, from: int, to: int)
    requires
        0 <= from < to <= tokens.len(),
    ensures
        run_text(tokens, from, to).len() == tokens[from].raw@.len() + run_text(
            tokens,
            from + 1,
            to,
        ).len(),
    decreases to - from,
{
    let last = tokens[to - 1].raw@;
    assert(run_text(tokens, from, to) == run_text(tokens, from, to - 1) + last);
    if from + 1 < to {
        lemma_run_text_length(tokens, from, to - 1);
        assert(run_text(tokens, from + 1, to) == run_text(tokens, from + 1, to - 1) + last);
    } else {
        assert(run_text(tokens, from, from).len() == 0);
        assert(run_text(tokens, from + 1, to).len() == 0);
    }
}

/// A number that is a multiple of `m` is its quotient by `m` times `m`, and
/// a number with the same quotient that is one short of a multiple of `m`
/// is the last number with that quotient.
proof fn lemma_window_bounds(s: int, e: int, m: int)
    requires
        0 < m,
        s % m == 0,
        e % m == m - 1,
        s / m == e / m,
    ensures
        s == (s / m) * m,
        e == (s / m + 1) * m - 1,
{
    vstd::arithmetic::div_mod::lemma_fundamental_div_mod(s, m);
    vstd::arithmetic::div_mod::lemma_fundamental_div_mod(e, m);
    let q = s / m;
    assert(m * q == q * m && (q + 1) * m == q * m + m) by (nonlinear_arith);
}

/// What is left of a number of at most six digits without its last
/// `marks` digits has at most `6 - marks` digits.
proof fn lemma_prefix_bound(s: nat, marks: nat)
    requires
        s < 0x100_0000,
        1 <= marks <= 6,
    ensures
        s / pow16(marks) < pow16((6 - marks) as nat),
{
    lemma_pow16_values();
    if marks == 1 {
        assert(s / 0x10 < 0x10_0000);
    } else if marks == 2 {
        assert(s / 0x100 < 0x1_0000);
    } else if marks == 3 {
        assert(s / 0x1000 < 0x1000);
    } else if marks == 4 {
        assert(s / 0x1_0000 < 0x100);
    } else if marks == 5 {
        assert(s / 0x10_0000 < 0x10);
    } else {
        assert(s / 0x100_0000 < 1);
    }
}

/// Powers of 16 are positive, and the power of a sum is the product of
/// the powers.
proof fn lemma_pow16_sum(a: nat, b: nat)
    ensures
        pow16(a) > 0,
        pow16(a + b) == pow16(a) * pow16(b),
    decreases a,
{
    if a == 0 {
        assert(pow16(0 + b) == 1 * pow16(b));
    } else {
        lemma_pow16_sum((a - 1) as nat, b);
        assert(pow16(a + b) == 16 * pow16((a - 1 + b) as nat));
        assert(16 * (pow16((a - 1) as nat) * pow16(b)) == (16 * pow16((a - 1) as nat)) * pow16(b))
            by (nonlinear_arith);
    }
}

/// The two ends of a block of `16^k` values that starts at a multiple of
/// `16^k` agree in every digit from position `k` on.
proof fn lemma_block_shares_digits(s: int, k: nat, i: nat)
    requires
        0 <= s,
        s % (pow16(k) as int) == 0,
        i >= k,
    ensures
        s / (pow16(i) as int) == (s + pow16(k) - 1) / (pow16(i) as int),
        (s + pow16(k) - 1) % (pow16(k) as int) == pow16(k) - 1,
{
    let m = pow16(k) as int;
    let p = pow16((i - k) as nat) as int;
    let e = s + m - 1;
    lemma_pow16_sum(k, (i - k) as nat);
    lemma_pow16_sum((i - k) as nat, 0);
    vstd::arithmetic::div_mod::lemma_fundamental_div_mod(s, m);
    assert(m * (s / m) == (s / m) * m) by (nonlinear_arith);
    vstd::arithmetic::div_mod::lemma_fundamental_div_mod_converse(e, m, s / m, m - 1);
    vstd::arithmetic::div_mod::lemma_div_denominator(s, m, p);
    vstd::arithmetic::div_mod::lemma_div_denominator(e, m, p);
}

/// In position `k - 1`, the first value of such a block has the digit 0
/// and the last has the digit `F`.
proof fn lemma_block_differs(s: int, k: nat)
    requires
        0 <= s,
        k >= 1,
        s % (pow16(k) as int) == 0,
    ensures
        (s / (pow16((k - 1) as nat) as int)) % 16 == 0,
        ((s + pow16(k) - 1) / (pow16((k - 1) as nat) as int)) % 16 == 15,
{
    let y = pow16((k - 1) as nat) as int;
    let e = s + pow16(k) - 1;
    lemma_pow16_sum((k - 1) as nat, 0);
    lemma_block_shares_digits(s, k, k);
    assert(pow16(k) == y * 16);
    vstd::arithmetic::div_mod::lemma_breakdown(s, y, 16);
    vstd::arithmetic::div_mod::lemma_breakdown(e, y, 16);
    let ds = (s / y) % 16;
    let de = (e / y) % 16;
    let rs = s % y;
    let re = e % y;
    assert(ds == 0) by (nonlinear_arith)
        requires
            y > 0,
            0 <= ds,
            0 <= rs,
            y * ds + rs == 0,
    ;
    assert(de == 15) by (nonlinear_arith)
        requires
            y > 0,
            0 <= de <= 15,
            0 <= re < y,
            y * de + re == y * 16 - 1,
    ;
}

impl UnicodeRange {
    /// The bounds of a range agree in every digit above the window.
    pub proof fn lemma_shared_prefix(self)
        requires
            self.wf(),
        ensures
            1 <= self.window() <= 6,
            self.start as nat / pow16(self.window()) == self.end as nat / pow16(self.window()),
    {
        lemma_pow16_values();
        reveal_with_fuel(UnicodeRange::top_difference, 7);
        let s = self.start as nat;
        let e = self.end as nat;
        assert(s / 0x100_0000 == 0 && e / 0x100_0000 == 0);
        let t = self.top_difference(6);
        if t == 5 {
        } else if t == 4 {
            assert(s / 0x100_000 == e / 0x100_000);
        } else if t == 3 {
            assert(s / 0x100_000 == e / 0x100_000);
            assert(s / 0x1_0000 == e / 0x1_0000);
        } else if t == 2 {
            assert(s / 0x100_000 == e / 0x100_000);
            assert(s / 0x1_0000 == e / 0x1_0000);
            assert(s / 0x1000 == e / 0x1000);
        } else if t == 1 {
            assert(s / 0x100_000 == e / 0x100_000);
            assert(s / 0x1_0000 == e / 0x1_0000);
            assert(s / 0x1000 == e / 0x1000);
            assert(s / 0x100 == e / 0x100);
        } else {
            assert(t == 0);
            assert(s / 0x100_000 == e / 0x100_000);
            assert(s / 0x1_0000 == e / 0x1_0000);
            assert(s / 0x1000 == e / 0x1000);
            assert(s / 0x100 == e / 0x100);
            assert(s / 0x10 == e / 0x10);
        }
    }

    /// A range is written with `k` wildcards exactly if it is a whole
    /// block of `16^k` values that starts at a multiple of `16^k`: the
    /// values that the wildcards stand for are those of the range, no
    /// more and no fewer.
    #[verifier::spinoff_prover]
    #[verifier::rlimit(50)]
    pub proof fn lemma_wildcards_are_whole_blocks(self, k: nat)
        requires
            self.wf(),
            1 <= k <= 6,
        ensures
            self.wildcards() == k <==> (self.start as nat % pow16(k) == 0 && self.end
                == self.start + pow16(k) - 1),
    {
        lemma_pow16_values();
        let s = self.start as nat;
        let e = self.end as nat;
        if self.wildcards() == k {
            self.lemma_shared_prefix();
            lemma_window_bounds(s as int, e as int, pow16(k) as int);
            assert((s / pow16(k) + 1) * pow16(k) == (s / pow16(k)) * pow16(k) + pow16(k))
                by (nonlinear_arith);
        }
        if s % pow16(k) == 0 && e == s + pow16(k) - 1 {
            reveal_with_fuel(UnicodeRange::top_difference, 7);
            lemma_block_differs(s as int, k);
            lemma_block_shares_digits(s as int, k, 6);
            lemma_block_shares_digits(s as int, k, if k <= 5 { 5 } else { k });
            lemma_block_shares_digits(s as int, k, if k <= 4 { 4 } else { k });
            lemma_block_shares_digits(s as int, k, if k <= 3 { 3 } else { k });
            lemma_block_shares_digits(s as int, k, if k <= 2 { 2 } else { k });
            lemma_block_shares_digits(s as int, k, if k <= 1 { 1 } else { k });
            assert(self.top_difference(6) == k - 1);
        }
    }

    /// Where the tokens behind the `u` hold, in ASCII and with no empty
    /// token, what is written for this range behind its first letter, and
    /// the scan has read all of it and found the bounds of the range,
    /// reading gives the range back and leaves no token.
    pub proof fn lemma_scanned_form_is_read_back(self, c: CursorView)
        requires
            self.wf(),
            c.wf(),
            run_text(c.tokens, c.pos, c.end) == self.css_text().skip(1),
            forall|i: int|
                c.pos <= i < c.end ==> (#[trigger] c.tokens[i]).raw@.len() > 0 && is_ascii_chars(
                    c.tokens[i].raw@,
                ),
        ensures
            self.css_text().len() <= usize::MAX,
            UnicodeRange::from_scan_spec(
                c,
                Ok((self.start, self.end, self.css_text().len() as usize)),
            ) == (Step { after: c.at(c.end), result: Ok::<UnicodeRange, ParseError>(self) }),
    {
        lemma_pow16_values();
        lemma_hex_digits_shape(self.start as nat, 6);
        lemma_hex_digits_shape(self.end as nat, 6);
        self.lemma_shared_prefix();
        if self.wildcards() > 0 {
            lemma_prefix_bound(self.start as nat, self.wildcards());
            if self.start as nat / pow16(self.wildcards()) != 0 {
                lemma_hex_digits_shape(
                    self.start as nat / pow16(self.wildcards()),
                    (6 - self.wildcards()) as nat,
                );
            }
        }
        assert(2 <= self.css_text().len() <= 15);
        lemma_boundary_of_run(c.tokens, c.pos, c.end);
    }

    /// The written form of a range denotes that range: read back in the
    /// notation for code-point ranges, it gives the same two bounds.
    #[verifier::spinoff_prover]
    #[verifier::rlimit(50)]
    pub proof fn lemma_text_denotes_range(self)
        requires
            self.wf(),
        ensures
            denoted_range(self.css_text()) == Some((self.start as nat, self.end as nat)),
    {
        lemma_pow16_values();
        self.lemma_shared_prefix();
        let text = self.css_text();
        let s = self.start as nat;
        let e = self.end as nat;
        let marks = self.wildcards();
        if marks > 0 {
            let m = pow16(marks);
            let prefix = s / m;
            let p = if prefix != 0 {
                hex_digits(prefix)
            } else {
                Seq::<char>::empty()
            };
            assert(text == seq!['U', '+'] + p + question_marks(marks));
            lemma_window_bounds(s as int, e as int, m as int);
            lemma_prefix_bound(s, marks);
            if prefix != 0 {
                assert(marks < 6);
                lemma_hex_digits_shape(prefix, (6 - marks) as nat);
            }
            let h = p.len() as int;
            assert(text.len() == 2 + h + marks);
            assert forall|i: int| 2 <= i < 2 + h implies is_hex_digit(#[trigger] text[i]) by {
                assert(text[i] == p[i - 2]);
            }
            assert forall|i: int| 2 + h <= i < 2 + h + marks implies #[trigger] text[i] == '?' by {
                assert(text[i] == question_marks(marks)[i - 2 - h]);
            }
            assert(text[2 + h] == '?');
            lemma_hex_run(text, 2, 2 + h);
            lemma_mark_run(text, 2 + h, 2 + h + marks);
            if prefix != 0 {
                assert forall|i: int| 0 <= i < p.len() implies text[2 + i] == #[trigger] p[i] by {}
                lemma_hex_number(text, 2, prefix);
            } else {
                assert(hex_number(text, 2, 2) == 0);
            }
        } else {
            let hs = hex_digits(s);
            lemma_hex_digits_shape(s, 6);
            let h = hs.len() as int;
            assert forall|i: int| 2 <= i < 2 + h implies is_hex_digit(#[trigger] text[i]) by {
                assert(text[i] == hs[i - 2]);
            }
            assert forall|i: int| 0 <= i < hs.len() implies text[2 + i] == #[trigger] hs[i] by {}
            if self.start == self.end {
                assert(text == seq!['U', '+'] + hs + Seq::<char>::empty());
                assert(text.len() == 2 + h);
                lemma_hex_run(text, 2, 2 + h);
                lemma_mark_run(text, 2 + h, 2 + h);
                lemma_hex_number(text, 2, s);
            } else {
                let he = hex_digits(e);
                lemma_hex_digits_shape(e, 6);
                let k = he.len() as int;
                assert(text == seq!['U', '+'] + hs + (seq!['-'] + he));
                assert(text.len() == 2 + h + 1 + k);
                assert(text[2 + h] == '-');
                assert forall|i: int| 3 + h <= i < 3 + h + k implies is_hex_digit(#[trigger] text[i]) by {
                    assert(text[i] == he[i - 3 - h]);
                }
                assert forall|i: int| 0 <= i < he.len() implies text[3 + h + i] == #[trigger] he[i] by {}
                lemma_hex_run(text, 2, 2 + h);
                lemma_mark_run(text, 2 + h, 2 + h);
                lemma_hex_number(text, 2, s);
                lemma_hex_run(text, 3 + h, 3 + h + k);
                lemma_hex_number(text, 3 + h, e);
            }
        }
    }
}

} // verus!
