//! Descriptors that are kept as they were written.

use crate::cursor::CursorView;
use crate::cursor::Step;
use crate::cursor::TokenCursor;
use crate::printer::delim_text;
use crate::printer::Printer;
use crate::token::CssToken;
use crate::token::TokenKind;
use vstd::prelude::*;
use vstd::string::*;

verus! {

/// The pieces of text that stand for the tokens from index `from` up to,
/// not including, index `end`: each token as it stands in the source,
/// comments left out, and one space wherever whitespace stands between two
/// of them. `gap` says whether whitespace stands just before `from`.
pub open spec fn raw_parts(tokens: Seq<CssToken>, from: int, end: int, gap: bool) -> Seq<Seq<char>>
    decreases end - from,
{
    if from < 0 || from >= end || from >= tokens.len() {
        Seq::empty()
    } else if tokens[from].kind == TokenKind::Comment {
        raw_parts(tokens, from + 1, end, gap)
    } else if tokens[from].kind == TokenKind::WhiteSpace {
        raw_parts(tokens, from + 1, end, true)
    } else {
        (if gap {
            seq![" "@]
        } else {
            Seq::empty()
        }) + seq![tokens[from].raw@] + raw_parts(tokens, from + 1, end, false)
    }
}

/// All the pieces, one after the other.
pub open spec fn concat_all(parts: Seq<Seq<char>>) -> Seq<char>
    decreases parts.len(),
{
    if parts.len() == 0 {
        Seq::empty()
    } else {
        concat_all(parts.drop_last()) + parts.last()
    }
}

/// The texts of a list of strings.
pub open spec fn texts(parts: Seq<String>) -> Seq<Seq<char>> {
    Seq::new(parts.len(), |i: int| parts[i]@)
}

/// A descriptor that is not known, or whose value is not of the form that
/// its name asks for: the name and the value as they were written.
#[derive(Debug, Clone, PartialEq, Eq)]
pub struct CustomProperty {
    /// The name of the descriptor.
    pub name: String,
    /// The value, in pieces: the text of each token, and one space wherever
    /// whitespace stood between two tokens.
    pub value: Vec<String>,
}

/// What a `CustomProperty` stands for in contracts.
pub struct CustomPropertyView {
    pub name: Seq<char>,
    pub value: Seq<Seq<char>>,
}

impl View for CustomProperty {
    type V = CustomPropertyView;

    open spec fn view(&self) -> CustomPropertyView {
        CustomPropertyView { name: self.name@, value: texts(self.value@) }
    }
}

impl CustomPropertyView {
    /// The written form: the name as it is, a colon with optional
    /// whitespace after it, and the pieces of the value.
    pub open spec fn css_text(self, minify: bool) -> Seq<char> {
        self.name + delim_text(':', false, minify) + concat_all(self.value)
    }
}

impl CustomProperty {
    /// Reading a raw value: every token up to the end of the stretch is
    /// taken, whatever it is, so the reading cannot fail.
    pub open spec fn parse_spec(name: Seq<char>, c: CursorView) -> Step<CustomPropertyView> {
        Step {
            after: c.at(c.end),
            result: Ok(
                CustomPropertyView {
                    name,
                    value: raw_parts(c.tokens, c.upcoming(), c.end, false),
                },
            ),
        }
    }

    /// Takes all that is left of the value as it was written. Whitespace
    /// around the value and comments are dropped, and whitespace inside it
    /// becomes one space.
    pub fn parse(name: &str, input: &mut TokenCursor) -> (r: CustomProperty)
        requires
            old(input).wf(),
        ensures
            final(input).wf(),
            final(input)@.follows(old(input)@),
            final(input)@ == CustomProperty::parse_spec(name@, old(input)@).after,
            CustomProperty::parse_spec(name@, old(input)@).result == Ok::<
                CustomPropertyView,
                crate::token::ParseError,
            >(r@),
    {
        let first: usize = input.skip_to_token();
        let end: usize = input.limit();
        let mut value: Vec<String> = Vec::new();
        let mut gap: bool = false;
        let mut k: usize = first;
        assert(texts(value@) =~= Seq::empty());
        while k < end
            invariant
                input.wf(),
                first <= k <= end,
                end == input@.end,
                texts(value@) + raw_parts(input@.tokens, k as int, end as int, gap) == raw_parts(
                    input@.tokens,
                    first as int,
                    end as int,
                    false,
                ),
            decreases end - k,
        {
            let ghost before = texts(value@);
            let ghost rest = raw_parts(input@.tokens, k + 1, end as int, false);
            match input.token(k).kind {
                TokenKind::Comment => {},
                TokenKind::WhiteSpace => {
                    gap = true;
                },
                _ => {
                    if gap {
                        value.push(String::from_str(" "));
                        assert(texts(value@) =~= before + seq![" "@]);
                    }
                    let ghost spaced = texts(value@);
                    value.push(input.token(k).raw.clone());
                    assert(texts(value@) =~= spaced + seq![input@.tokens[k as int].raw@]);
                    assert(texts(value@) + rest =~= before + ((if gap {
                        seq![" "@]
                    } else {
                        Seq::empty()
                    }) + seq![input@.tokens[k as int].raw@] + rest));
                    gap = false;
                },
            }
            k += 1;
        }
        assert(texts(value@) + Seq::<Seq<char>>::empty() =~= texts(value@));
        input.move_to(end);
        CustomProperty { name: String::from_str(name), value }
    }

    /// Writes the descriptor as it was written: its name, a colon and the
    /// pieces of its value.
    pub fn to_css(&self, dest: &mut Printer)
        ensures
            final(dest)@ == old(dest)@.wrote(self@.css_text(old(dest)@.minify)),
    {
        dest.write_str(self.name.as_str());
        dest.delim(':', false);
        let ghost lead = self.name@ + delim_text(':', false, dest@.minify);
        assert(dest@.output =~= old(dest)@.output + lead);
        let len: usize = self.value.len();
        let mut i: usize = 0;
        assert(lead + concat_all(texts(self.value@).take(0)) =~= lead);
        while i < len
            invariant
                i <= len,
                len == self.value@.len(),
                dest@ == old(dest)@.wrote(lead + concat_all(texts(self.value@).take(i as int))),
            decreases len - i,
        {
            dest.write_str(self.value[i].as_str());
            assert(texts(self.value@).take(i + 1).drop_last() =~= texts(self.value@).take(i as int));
            i += 1;
            assert(dest@.output =~= old(dest)@.output + (lead + concat_all(
                texts(self.value@).take(i as int),
            )));
        }
        assert(texts(self.value@).take(len as int) =~= texts(self.value@));
    }
}

} // verus!
