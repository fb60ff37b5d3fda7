//! What the parser reports when the text is not what it expected.

use vstd::prelude::*;

verus! {

/// What the parser was looking for when it gave up.
#[derive(Debug, PartialEq, Eq)]
pub enum Expected {
    /// This very character.
    Char(char),
    /// A quote that opens an attribute value: `"` or `'`.
    Quote,
    /// A closing tag with this name, the name of the element that is open.
    TagName(String),
}

/// What the parser found instead.
#[derive(Debug, PartialEq, Eq)]
pub enum Found {
    /// Another character.
    Char(char),
    /// A closing tag with another name.
    TagName(String),
    /// The end of the input.
    EndOfInput,
}

/// The kinds of failure.
#[derive(Debug, PartialEq, Eq)]
pub enum ErrorKind {
    /// The text does not have the structure of a document: a character, a
    /// quote or a closing tag was expected and something else, or the end of
    /// the input, was found.
    StructuralMismatch { expected: Expected, found: Found },
}

/// A failure of the parser, with the position of the cursor when it failed,
/// counted in characters from the start of the input.
#[derive(Debug, PartialEq, Eq)]
pub struct ParseError {
    pub kind: ErrorKind,
    pub position: usize,
}

/// The value of an [`Expected`].
pub ghost enum ExpectedToken {
    Char(char),
    Quote,
    TagName(Seq<char>),
}

/// The value of a [`Found`].
pub ghost enum FoundToken {
    Char(char),
    TagName(Seq<char>),
    EndOfInput,
}

/// The value of a [`ParseError`]: a structural mismatch at a position.
pub ghost struct Mismatch {
    pub expected: ExpectedToken,
    pub found: FoundToken,
    pub position: int,
}

impl View for Expected {
    type V = ExpectedToken;

    open spec fn view(&self) -> ExpectedToken {
        match self {
            Expected::Char(c) => ExpectedToken::Char(*c),
            Expected::Quote => ExpectedToken::Quote,
            Expected::TagName(name) => ExpectedToken::TagName(name@),
        }
    }
}

impl View for Found {
    type V = FoundToken;

    open spec fn view(&self) -> FoundToken {
        match self {
            Found::Char(c) => FoundToken::Char(*c),
            Found::TagName(name) => FoundToken::TagName(name@),
            Found::EndOfInput => FoundToken::EndOfInput,
        }
    }
}

impl View for ParseError {
    type V = Mismatch;

    open spec fn view(&self) -> Mismatch {
        match self.kind {
            ErrorKind::StructuralMismatch { expected, found } => Mismatch {
                expected: expected@,
                found: found@,
                position: self.position as int,
            },
        }
    }
}

impl ParseError {
    /// A structural mismatch at `position`.
    pub fn mismatch(expected: Expected, found: Found, position: usize) -> (e: ParseError)
        ensures
            e@ == (Mismatch { expected: expected@, found: found@, position: position as int }),
    {
        ParseError { kind: ErrorKind::StructuralMismatch { expected, found }, position }
    }
}

} // verus!
