//! The destination that descriptors and rules are written to.

use crate::text::push_char;
use vstd::prelude::*;
use vstd::string::*;

verus! {

/// A position in a style sheet that a rule was read from.
#[derive(Clone, Copy, Debug, PartialEq, Eq, Structural)]
pub struct Location {
    /// Index of the source file.
    pub source_index: u32,
    /// Line number, starting at 0.
    pub line: u32,
    /// Column number, starting at 1.
    pub column: u32,
}

/// One source-map annotation: text written from offset `generated` on (in
/// characters) comes from `source`.
#[derive(Clone, Copy, Debug, PartialEq, Eq, Structural)]
pub struct Mapping {
    pub generated: usize,
    pub source: Location,
}

/// What a `Printer` stands for in contracts.
pub struct PrinterView {
    /// Everything written so far.
    pub output: Seq<char>,
    /// Whether optional whitespace is left out.
    pub minify: bool,
    /// Number of spaces that a new line starts with.
    pub indent: nat,
    /// The annotations recorded so far, oldest first.
    pub mappings: Seq<Mapping>,
}

/// Collects serialized text, with control over optional whitespace and
/// indentation, and records source-map annotations.
pub struct Printer {
    dest: String,
    minify: bool,
    indent: usize,
    mappings: Vec<Mapping>,
}

/// `n` spaces.
pub open spec fn spaces(n: nat) -> Seq<char> {
    Seq::new(n, |i: int| ' ')
}

/// Optional whitespace: one space, or nothing when minifying.
pub open spec fn whitespace_text(minify: bool) -> Seq<char> {
    if minify {
        Seq::empty()
    } else {
        seq![' ']
    }
}

/// A line break followed by the indentation, or nothing when minifying.
pub open spec fn newline_text(minify: bool, indent: nat) -> Seq<char> {
    if minify {
        Seq::empty()
    } else {
        seq!['\n'] + spaces(indent)
    }
}

/// A delimiter with optional whitespace after it and, if asked for, before it.
pub open spec fn delim_text(delim: char, ws_before: bool, minify: bool) -> Seq<char> {
    (if ws_before {
        whitespace_text(minify)
    } else {
        Seq::empty()
    }) + seq![delim] + whitespace_text(minify)
}

impl View for Printer {
    type V = PrinterView;

    closed spec fn view(&self) -> PrinterView {
        PrinterView {
            output: self.dest@,
            minify: self.minify,
            indent: self.indent as nat,
            mappings: self.mappings@,
        }
    }
}

impl PrinterView {
    /// This state after `text` has been written.
    pub open spec fn wrote(self, text: Seq<char>) -> PrinterView {
        PrinterView { output: self.output + text, ..self }
    }
}

impl Printer {
    /// An empty printer.
    pub fn new(minify: bool) -> (r: Printer)
        ensures
            r@ == (PrinterView {
                output: Seq::empty(),
                minify,
                indent: 0,
                mappings: Seq::empty(),
            }),
    {
        Printer { dest: String::new(), minify, indent: 0, mappings: Vec::new() }
    }

    /// Whether optional whitespace is left out.
    pub fn minify(&self) -> (r: bool)
        ensures
            r == self@.minify,
    {
        self.minify
    }

    /// The text written so far.
    pub fn as_str(&self) -> (r: &str)
        ensures
            r@ == self@.output,
    {
        self.dest.as_str()
    }

    /// Gives up the printer for the text written to it.
    pub fn into_string(self) -> (r: String)
        ensures
            r@ == self@.output,
    {
        self.dest
    }

    /// The annotations recorded so far.
    pub fn mappings(&self) -> (r: &Vec<Mapping>)
        ensures
            r@ == self@.mappings,
    {
        &self.mappings
    }

    /// Writes `s` as it is.
    pub fn write_str(&mut self, s: &str)
        ensures
            final(self)@ == old(self)@.wrote(s@),
    {
        self.dest.append(s);
    }

    /// Writes one character.
    pub fn write_char(&mut self, c: char)
        ensures
            final(self)@ == old(self)@.wrote(seq![c]),
    {
        push_char(&mut self.dest, c);
        assert(self@.output =~= old(self)@.output + seq![c]);
    }

    /// Writes a space unless minifying.
    pub fn whitespace(&mut self)
        ensures
            final(self)@ == old(self)@.wrote(whitespace_text(old(self)@.minify)),
    {
        if !self.minify {
            self.write_char(' ');
        } else {
            assert(self@.output + Seq::<char>::empty() =~= self@.output);
        }
    }

    /// Writes a delimiter, with optional whitespace after it and, if
    /// `ws_before`, before it.
    pub fn delim(&mut self, delim: char, ws_before: bool)
        ensures
            final(self)@ == old(self)@.wrote(delim_text(delim, ws_before, old(self)@.minify)),
    {
        if ws_before {
            self.whitespace();
        }
        self.write_char(delim);
        self.whitespace();
        assert(self@.output =~= old(self)@.output + delim_text(delim, ws_before, self@.minify));
    }

    /// Starts a new line at the current indentation unless minifying.
    pub fn newline(&mut self)
        ensures
            final(self)@ == old(self)@.wrote(newline_text(old(self)@.minify, old(self)@.indent)),
    {
        if self.minify {
            assert(self@.output + Seq::<char>::empty() =~= self@.output);
            return ;
        }
        self.write_char('\n');
        let mut i: usize = 0;
        while i < self.indent
            invariant
                i <= self.indent,
                self@ == old(self)@.wrote(seq!['\n'] + spaces(i as nat)),
            decreases self.indent - i,
        {
            self.write_char(' ');
            i += 1;
            assert(self@.output =~= old(self)@.output + (seq!['\n'] + spaces(i as nat)));
        }
    }

    /// Indents the lines that follow by two more spaces.
    pub fn indent(&mut self)
        requires
            old(self)@.indent + 2 <= usize::MAX,
        ensures
            final(self)@ == (PrinterView { indent: old(self)@.indent + 2, ..old(self)@ }),
    {
        self.indent += 2;
    }

    /// Takes back one step of indentation.
    pub fn dedent(&mut self)
        requires
            old(self)@.indent >= 2,
        ensures
            final(self)@ == (PrinterView {
                indent: (old(self)@.indent - 2) as nat,
                ..old(self)@
            }),
    {
        self.indent -= 2;
    }

    /// Records that the text written next comes from `source`.
    pub fn add_mapping(&mut self, source: Location)
        ensures
            final(self)@ == (PrinterView {
                mappings: old(self)@.mappings.push(
                    Mapping { generated: old(self)@.output.len() as usize, source },
                ),
                ..old(self)@
            }),
    {
        let generated: usize = self.dest.as_str().unicode_len();
        self.mappings.push(Mapping { generated, source });
    }
}

} // verus!
