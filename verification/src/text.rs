//! Character and string helpers shared by the parsers and the printer.

use vstd::prelude::*;

verus! {

/// The lower-case form of an ASCII upper-case letter; every other character
/// stands for itself.
pub open spec fn ascii_lower(c: char) -> char {
    if 'A' <= c && c <= 'Z' {
        ((c as u32) + 32) as char
    } else {
        c
    }
}

/// A string with each ASCII letter folded to lower case.
pub open spec fn ascii_fold(s: Seq<char>) -> Seq<char> {
    Seq::new(s.len(), |i: int| ascii_lower(s[i]))
}

/// Whether two strings are equal up to the case of ASCII letters.
pub open spec fn matches_ignore_case(a: Seq<char>, b: Seq<char>) -> bool {
    ascii_fold(a) == ascii_fold(b)
}

/// Two strings that are equal up to the case of ASCII letters have the
/// same length and, at every index, the same character up to case.
pub proof fn lemma_match_shares(a: Seq<char>, b: Seq<char>, i: int)
    requires
        matches_ignore_case(a, b),
    ensures
        a.len() == b.len(),
        0 <= i < a.len() ==> ascii_lower(a[i]) == ascii_lower(b[i]),
{
    assert(ascii_fold(a).len() == ascii_fold(b).len());
    if 0 <= i < a.len() {
        assert(ascii_fold(a)[i] == ascii_fold(b)[i]);
    }
}

/// Folds one character to ASCII lower case.
pub fn to_ascii_lower(c: char) -> (r: char)
    ensures
        r == ascii_lower(c),
{
    if 'A' <= c && c <= 'Z' {
        let code: u32 = c as u32;
        let lowered: u32 = code + 32;
        assert(lowered < 128);
        (lowered as u8) as char
    } else {
        c
    }
}

/// Compares two strings, ignoring the case of ASCII letters.
pub fn eq_ignore_ascii_case(a: &str, b: &str) -> (r: bool)
    ensures
        r == matches_ignore_case(a@, b@),
{
    let n: usize = a.unicode_len();
    if n != b.unicode_len() {
        assert(ascii_fold(a@).len() != ascii_fold(b@).len());
        return false;
    }
    let mut i: usize = 0;
    while i < n
        invariant
            i <= n,
            n == a@.len(),
            n == b@.len(),
            forall|j: int| 0 <= j < i ==> ascii_lower(a@[j]) == ascii_lower(b@[j]),
        decreases n - i,
    {
        if to_ascii_lower(a.get_char(i)) != to_ascii_lower(b.get_char(i)) {
            assert(ascii_fold(a@)[i as int] != ascii_fold(b@)[i as int]);
            return false;
        }
        i += 1;
    }
    assert(ascii_fold(a@) =~= ascii_fold(b@));
    true
}

/// The double-quoted string token that `cssparser::serialize_string` writes
/// for a content.
pub uninterp spec fn quoted_string(content: Seq<char>) -> Seq<char>;

/// The text of a double-quoted string token with the content `content`,
/// escaped where the syntax asks for it, as `cssparser::serialize_string`
/// writes it: a quotation mark, the content with its escapes, and a
/// quotation mark.
#[verifier::external_body]
pub(crate) fn quote(content: &str) -> (r: String)
    ensures
        r@ == quoted_string(content@),
        r@.len() >= 2,
        r@.first() == '"',
        r@.last() == '"',
{
    let mut out = String::new();
    let _ = cssparser::serialize_string(content, &mut out);
    out
}

/// The `url(..)` token that `cssparser` writes for an address.
pub uninterp spec fn url_token_text(address: Seq<char>) -> Seq<char>;

/// The text of an unquoted `url(..)` token with the address `address`,
/// escaped where the syntax asks for it, as `cssparser` writes such a token
/// (`ToCss::to_css_string` of `Token::UnquotedUrl`).
#[verifier::external_body]
pub(crate) fn url_token(address: &str) -> (r: String)
    ensures
        r@ == url_token_text(address@),
{
    cssparser::ToCss::to_css_string(&cssparser::Token::UnquotedUrl(address.into()))
}

/// Appends one character to a string. Stands for `String::push`: the string
/// afterwards is the string before with `c` added at its end.
#[verifier::external_body]
pub(crate) fn push_char(s: &mut String, c: char)
    ensures
        final(s)@ == old(s)@.push(c),
{
    s.push(c);
}

} // verus!
