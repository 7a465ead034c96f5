//! Parsing and canonical serialization of the descriptors of an `@font-face`
//! block: source lists, format and technology hints, code-point ranges, and
//! the fallback for descriptors that are not recognized.
//!
//! Text is read into tokens by `cssparser` ([`lexer`]). Everything above the
//! tokens is verified: the cursor that walks them and keeps track of nested
//! blocks ([`cursor`]), the grammar of each descriptor ([`source`],
//! [`font_format`], [`font_technology`], [`unicode_range`], [`values`],
//! [`custom`]), the choice of a grammar by the descriptor's name and the
//! writing of a rule ([`rule`]), and the destination that text is written
//! to ([`printer`]). Each parser states, as a function of the tokens and of
//! the place the cursor stands at, what it returns and where it leaves the
//! cursor; each writer states the text it adds.
//!
//! Three things are taken from `cssparser` as they are and only named in
//! contracts: the tokens of a text, the range that a text in the notation
//! for code-point ranges stands for, and the escaped form of a string or an
//! address.

pub mod cursor;
pub mod custom;
pub mod font_format;
pub mod font_technology;
pub mod lexer;
pub mod printer;
pub mod rule;
pub mod source;
pub mod text;
pub mod token;
pub mod unicode_range;
pub mod values;
