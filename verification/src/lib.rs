//! Lexical front end of a small scripting-language toolchain.
//!
//! The library turns raw source text into an ordered sequence of classified
//! tokens: single-, two- and three-character operators chosen by maximal
//! munch, integer literals in binary, octal and hexadecimal radices, and
//! error tokens that let a scan pass continue after an invalid character.
//! A position/span model locates diagnostics in the source.

pub mod position;
pub mod token;
pub mod scanner;


