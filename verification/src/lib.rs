//! A small recursive-descent parser that turns markup text into a tree of
//! text, comment and element nodes.
//!
//! [`parse`] reads a whole document. [`Parser`] is the cursor that it moves
//! over the text, with one function for each thing that can stand in a
//! document. What each of them reads is laid down in [`grammar`], as
//! functions on a sequence of characters; the contracts in [`parser`] say
//! that the parser returns just that.
//!
//! The parser does not repair a document. Where the text is not what it
//! expects, it stops and returns a [`ParseError`] that names what was
//! expected, what was found, and the position of the cursor, counted in
//! characters. Two things are no errors: a comment that nothing closes, whose
//! body is the rest of the text, and a closing tag at the top of the
//! document, which ends the document.

pub mod chars;
pub mod domtree;
pub mod error;
pub mod grammar;
pub mod laws;
pub mod parser;

pub use crate::domtree::{comment, elem, text, AttrMap, ElementData, Node, NodeType};
pub use crate::error::{ErrorKind, Expected, Found, ParseError};
pub use crate::parser::{parse, Parser};
