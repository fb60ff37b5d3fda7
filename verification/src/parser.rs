//! The parser: a cursor over the text, and the functions that read the text
//! at the cursor.

use crate::chars::{lemma_run_end, lemma_run_end_unique, run_end, tag_name_char, CharClass};
use crate::domtree::{comment, elem, lemma_trees_push, text, trees, AttrMap, Node, Tree};
use crate::error::{Expected, Found, Mismatch, ParseError};
use crate::grammar;
use crate::laws::{lemma_document_no_blank_text, no_blank_text};
use vstd::prelude::*;

verus! {

/// Trusted: `String::push` of the standard library appends the character to
/// the end of the string and changes nothing else of it.
pub assume_specification[ String::push ](s: &mut String, ch: char)
    ensures
        final(s)@ == old(s)@.push(ch),
;

/// The text to parse and the position of the next character to read.
///
/// Positions count characters, not bytes. The cursor never leaves the text
/// and never moves back.
pub struct Parser {
    pos: usize,
    input: Vec<char>,
}

impl Parser {
    #[verifier::type_invariant]
    spec fn cursor_in_text(&self) -> bool {
        self.pos <= self.input.len()
    }

    /// The text.
    pub closed spec fn source(&self) -> Seq<char> {
        self.input@
    }

    /// The position of the next character to read.
    pub closed spec fn cursor(&self) -> int {
        self.pos as int
    }

    /// Whether `after` is `self` with the cursor moved forward to `to`, a
    /// position in the text.
    pub open spec fn moves_to(&self, after: &Parser, to: int) -> bool {
        &&& after.source() == self.source()
        &&& after.cursor() == to
        &&& self.cursor() <= to <= self.source().len()
    }

    /// A parser at the start of `source`.
    pub fn new(source: &str) -> (parser: Parser)
        ensures
            parser.source() == source@,
            parser.cursor() == 0,
    {
        let mut input: Vec<char> = Vec::new();
        for c in it: source.chars()
            invariant
                input@ == it.seq().take(it.index()),
        {
            input.push(c);
        }
        Parser { pos: 0, input }
    }

    /// The position of the cursor.
    pub fn position(&self) -> (pos: usize)
        ensures
            pos == self.cursor(),
            pos <= self.source().len(),
    {
        proof {
            use_type_invariant(self);
        }
        self.pos
    }

    /// The character at the cursor.
    pub fn next_char(&self) -> (c: char)
        requires
            self.cursor() < self.source().len(),
        ensures
            c == self.source()[self.cursor()],
    {
        self.input[self.pos]
    }

    /// Whether the text from the cursor on begins with `s`.
    pub fn starts_with(&self, s: &str) -> (b: bool)
        ensures
            b == grammar::starts_with(self.source(), self.cursor(), s@),
    {
        proof {
            use_type_invariant(self);
        }
        let mut at: usize = self.pos;
        for c in it: s.chars()
            invariant
                it.seq() == s@,
                at == self.pos + it.index(),
                at <= self.input.len(),
                self.input@.subrange(self.pos as int, at as int) == s@.take(it.index()),
        {
            if at >= self.input.len() || self.input[at] != c {
                assert(!grammar::starts_with(self.source(), self.cursor(), s@)) by {
                    if grammar::starts_with(self.source(), self.cursor(), s@) {
                        let k = it.index();
                        assert(self.input@.subrange(self.pos as int, self.pos + s@.len())[k]
                            == s@[k]);
                    }
                }
                return false;
            }
            at += 1;
            assert(self.input@.subrange(self.pos as int, at as int) =~= s@.take(
                it.index() + 1,
            ));
        }
        assert(s@.take(s@.len() as int) =~= s@);
        true
    }

    /// Whether all of the text has been read.
    pub fn eof(&self) -> (b: bool)
        ensures
            b == (self.cursor() >= self.source().len()),
    {
        self.pos >= self.input.len()
    }

    /// Reads the character at the cursor.
    pub fn consume_char(&mut self) -> (c: char)
        requires
            old(self).cursor() < old(self).source().len(),
        ensures
            c == old(self).source()[old(self).cursor()],
            old(self).moves_to(final(self), old(self).cursor() + 1),
    {
        proof {
            use_type_invariant(&*self);
        }
        let c = self.input[self.pos];
        self.pos += 1;
        c
    }

    /// Reads characters as long as `test` accepts them, and returns them.
    ///
    /// The run ends at the first character that `test` refuses, or at the
    /// end of the text.
    pub fn consume_while<F>(&mut self, test: F) -> (run: String) where F: Fn(char) -> bool
        requires
            forall|c: char| call_requires(test, (c,)),
        ensures
            final(self).source() == old(self).source(),
            old(self).cursor() <= final(self).cursor() <= old(self).source().len(),
            run@ == old(self).source().subrange(old(self).cursor(), final(self).cursor()),
            forall|i: int|
                old(self).cursor() <= i < final(self).cursor() ==> call_ensures(
                    test,
                    (#[trigger] old(self).source()[i],),
                    true,
                ),
            final(self).cursor() < old(self).source().len() ==> call_ensures(
                test,
                (old(self).source()[final(self).cursor()],),
                false,
            ),
    {
        proof {
            use_type_invariant(&*self);
        }
        let mut run = String::new();
        while !self.eof() && test(self.next_char())
            invariant
                forall|c: char| call_requires(test, (c,)),
                self.source() == old(self).source(),
                old(self).cursor() <= self.cursor() <= self.source().len(),
                run@ == self.source().subrange(old(self).cursor(), self.cursor()),
                forall|i: int|
                    old(self).cursor() <= i < self.cursor() ==> call_ensures(
                        test,
                        (#[trigger] self.source()[i],),
                        true,
                    ),
            ensures
                self.cursor() < self.source().len() ==> call_ensures(
                    test,
                    (self.source()[self.cursor()],),
                    false,
                ),
            decreases self.source().len() - self.cursor(),
        {
            let c = self.consume_char();
            run.push(c);
            assert(run@ =~= self.source().subrange(old(self).cursor(), self.cursor()));
        }
        run
    }

    /// Reads the white space at the cursor.
    pub fn consume_whitespace(&mut self)
        ensures
            old(self).moves_to(
                final(self),
                run_end(old(self).source(), old(self).cursor(), CharClass::Whitespace),
            ),
    {
        let ghost from = self.cursor();
        self.consume_while(rustc_lexer::is_whitespace);
        proof {
            lemma_run_end_unique(self.source(), from, CharClass::Whitespace, self.cursor());
        }
    }

    /// Reads a tag name, or the name of an attribute: a run of ASCII letters,
    /// digits, `!` and `-`, which may be empty.
    pub fn parse_tag_name(&mut self) -> (name: String)
        ensures
            old(self).moves_to(
                final(self),
                run_end(old(self).source(), old(self).cursor(), CharClass::TagName),
            ),
            name@ == old(self).source().subrange(old(self).cursor(), final(self).cursor()),
    {
        let ghost from = self.cursor();
        let name = self.consume_while(tag_name_char);
        proof {
            lemma_run_end_unique(self.source(), from, CharClass::TagName, self.cursor());
        }
        name
    }

    /// Whether the parser stopped at the mismatch `m` and reports it as
    /// `error`: the cursor stands where the mismatch was met.
    pub open spec fn fails_at(&self, after: &Parser, error: ParseError, m: Mismatch) -> bool {
        self.moves_to(after, m.position) && error@ == m
    }

    /// What stands at the cursor.
    fn found(&self) -> (found: Found)
        ensures
            found@ == grammar::found_at(self.source(), self.cursor()),
    {
        if self.eof() {
            Found::EndOfInput
        } else {
            Found::Char(self.next_char())
        }
    }

    /// Reads the character `c`. Where something else stands at the cursor,
    /// or the text has ended, the cursor stays and the mismatch is reported.
    pub fn expect_char(&mut self, c: char) -> (result: Result<(), ParseError>)
        ensures
            match grammar::expect_char(old(self).source(), old(self).cursor(), c) {
                Ok(next) => result is Ok && old(self).moves_to(final(self), next),
                Err(m) => result matches Err(e) && old(self).fails_at(final(self), e, m),
            },
    {
        proof {
            use_type_invariant(&*self);
        }
        if !self.eof() && self.next_char() == c {
            self.consume_char();
            Ok(())
        } else {
            Err(ParseError::mismatch(Expected::Char(c), self.found(), self.pos))
        }
    }

    /// Reads the body of a comment, up to and with the `-->` that closes it,
    /// and returns the body. The cursor stands behind the `<!--` that opened
    /// the comment.
    ///
    /// A dash, or two, with no `>` behind them belongs to the body. A
    /// comment that nothing closes is no error: its body is the rest of the
    /// text.
    pub fn parse_comment(&mut self) -> (body: String)
        ensures
            old(self).moves_to(
                final(self),
                grammar::comment_end(old(self).source(), old(self).cursor()),
            ),
            body@ == grammar::comment_body(old(self).source(), old(self).cursor()),
    {
        proof {
            use_type_invariant(&*self);
        }
        let mut result = String::new();
        while !self.eof()
            invariant
                self.source() == old(self).source(),
                old(self).cursor() <= self.cursor() <= self.source().len(),
                result@ == self.source().subrange(old(self).cursor(), self.cursor()),
                grammar::comment_body_end(self.source(), self.cursor())
                    == grammar::comment_body_end(old(self).source(), old(self).cursor()),
            decreases self.source().len() - self.cursor(),
        {
            if self.next_char() == '-' {
                self.consume_char();
                if !self.eof() && self.next_char() == '-' {
                    self.consume_char();
                    if !self.eof() && self.next_char() == '>' {
                        self.consume_char();
                        return result;
                    } else {
                        result.push('-');
                        result.push('-');
                    }
                } else {
                    result.push('-');
                }
            } else {
                let c = self.consume_char();
                result.push(c);
            }
            assert(result@ =~= self.source().subrange(old(self).cursor(), self.cursor()));
        }
        result
    }

    /// Reads an attribute value: a quote, `"` or `'`, the characters up to
    /// the next quote of the same kind, and that quote. Returns the
    /// characters between the quotes.
    pub fn parse_attr_value(&mut self) -> (result: Result<String, ParseError>)
        ensures
            match grammar::attr_value(old(self).source(), old(self).cursor()) {
                Ok((value, next)) => result matches Ok(v) && v@ == value && old(self).moves_to(
                    final(self),
                    next,
                ),
                Err(m) => result matches Err(e) && old(self).fails_at(final(self), e, m),
            },
    {
        proof {
            use_type_invariant(&*self);
        }
        if self.eof() {
            return Err(ParseError::mismatch(Expected::Quote, Found::EndOfInput, self.pos));
        }
        let open_quote = self.next_char();
        if open_quote != '"' && open_quote != '\'' {
            return Err(ParseError::mismatch(Expected::Quote, Found::Char(open_quote), self.pos));
        }
        self.consume_char();
        proof {
            lemma_run_end(self.source(), self.cursor(), CharClass::Except(open_quote));
        }
        let value = self.consume_until(open_quote);
        match self.expect_char(open_quote) {
            Ok(()) => Ok(value),
            Err(e) => Err(e),
        }
    }

    /// Reads an attribute: a name, `=`, and a value.
    pub fn parse_attr(&mut self) -> (result: Result<(String, String), ParseError>)
        ensures
            match grammar::attr(old(self).source(), old(self).cursor()) {
                Ok(((name, value), next)) => result matches Ok(pair) && pair.0@ == name && pair.1@
                    == value && old(self).moves_to(final(self), next),
                Err(m) => result matches Err(e) && old(self).fails_at(final(self), e, m),
            },
    {
        let name = self.parse_tag_name();
        match self.expect_char('=') {
            Ok(()) => {},
            Err(e) => {
                return Err(e);
            },
        }
        match self.parse_attr_value() {
            Ok(value) => Ok((name, value)),
            Err(e) => Err(e),
        }
    }

    /// Reads the attributes of an opening tag, up to the `>` that ends the
    /// tag, which is not read. White space before each attribute is skipped.
    /// Where a name is given a value more than once, the last value stays.
    pub fn parse_attributes(&mut self) -> (result: Result<AttrMap, ParseError>)
        ensures
            match grammar::attributes(old(self).source(), old(self).cursor(), Map::empty()) {
                Ok((attrs, end)) => result matches Ok(map) && map@ == attrs && old(self).moves_to(
                    final(self),
                    end,
                ),
                Err(m) => result matches Err(e) && old(self).fails_at(final(self), e, m),
            },
    {
        proof {
            use_type_invariant(&*self);
        }
        let mut attributes = AttrMap::new();
        loop
            invariant
                self.source() == old(self).source(),
                old(self).cursor() <= self.cursor() <= self.source().len(),
                grammar::attributes(self.source(), self.cursor(), attributes@)
                    == grammar::attributes(old(self).source(), old(self).cursor(), Map::empty()),
            decreases self.source().len() - self.cursor(),
        {
            let ghost from = self.cursor();
            self.consume_whitespace();
            proof {
                lemma_run_end(self.source(), from, CharClass::Whitespace);
                grammar::lemma_attr_end(self.source(), self.cursor());
            }
            if self.eof() {
                return Err(ParseError::mismatch(Expected::Char('>'), Found::EndOfInput, self.pos));
            }
            if self.next_char() == '>' {
                return Ok(attributes);
            }
            match self.parse_attr() {
                Ok((name, value)) => {
                    attributes.insert(name, value);
                },
                Err(e) => {
                    return Err(e);
                },
            }
        }
    }

    /// Whether `name` is `!--`, the tag name that opens a comment.
    fn opens_comment(name: &String) -> (b: bool)
        ensures
            b == (name@ == grammar::comment_marker()),
    {
        let name = name.as_str();
        let b = name.unicode_len() == 3 && name.get_char(0) == '!' && name.get_char(1) == '-'
            && name.get_char(2) == '-';
        proof {
            if b {
                assert(name@ =~= grammar::comment_marker());
            }
        }
        b
    }

    /// Reads the closing tag of the element `name`: `</`, the name, and `>`.
    pub fn parse_closing_tag(&mut self, name: &String) -> (result: Result<(), ParseError>)
        ensures
            match grammar::closing_tag(old(self).source(), old(self).cursor(), name@) {
                Ok(next) => result is Ok && old(self).moves_to(final(self), next),
                Err(m) => result matches Err(e) && old(self).fails_at(final(self), e, m),
            },
    {
        match self.expect_char('<') {
            Ok(()) => {},
            Err(e) => {
                return Err(e);
            },
        }
        match self.expect_char('/') {
            Ok(()) => {},
            Err(e) => {
                return Err(e);
            },
        }
        let found = self.parse_tag_name();
        if found == *name {
            self.expect_char('>')
        } else {
            Err(
                ParseError::mismatch(
                    Expected::TagName(name.clone()),
                    Found::TagName(found),
                    self.pos,
                ),
            )
        }
    }

    /// Reads the node at the cursor: an element or a comment where a `<`
    /// stands, text anywhere else.
    pub fn parse_node(&mut self) -> (result: Result<Node, ParseError>)
        requires
            old(self).cursor() < old(self).source().len(),
        ensures
            match grammar::node(old(self).source(), old(self).cursor()) {
                Ok((tree, next)) => result matches Ok(node) && node@ == tree && old(self).moves_to(
                    final(self),
                    next,
                ),
                Err(m) => result matches Err(e) && old(self).fails_at(final(self), e, m),
            },
        decreases old(self).source().len() - old(self).cursor(), 1int,
    {
        proof {
            use_type_invariant(&*self);
        }
        if self.next_char() == '<' {
            self.parse_element()
        } else {
            Ok(self.parse_text())
        }
    }

    /// Reads an element or a comment. A `<` must stand at the cursor.
    ///
    /// Behind the `<` stands a tag name. If the name is `!--`, a comment
    /// follows, which has neither attributes nor children. Otherwise the
    /// attributes follow, a `>`, the children, and the closing tag with the
    /// same name.
    pub fn parse_element(&mut self) -> (result: Result<Node, ParseError>)
        ensures
            match grammar::element(old(self).source(), old(self).cursor()) {
                Ok((tree, next)) => result matches Ok(node) && node@ == tree && old(self).moves_to(
                    final(self),
                    next,
                ),
                Err(m) => result matches Err(e) && old(self).fails_at(final(self), e, m),
            },
        decreases old(self).source().len() - old(self).cursor(), 0int,
    {
        proof {
            use_type_invariant(&*self);
        }
        match self.expect_char('<') {
            Ok(()) => {},
            Err(e) => {
                return Err(e);
            },
        }
        proof {
            lemma_run_end(self.source(), self.cursor(), CharClass::TagName);
        }
        let tag_name = self.parse_tag_name();
        if Self::opens_comment(&tag_name) {
            let comment_data = self.parse_comment();
            return Ok(comment(comment_data));
        }
        proof {
            grammar::lemma_attributes_end(self.source(), self.cursor(), Map::empty());
        }
        let attrs = match self.parse_attributes() {
            Ok(attrs) => attrs,
            Err(e) => {
                return Err(e);
            },
        };
        self.consume_char();
        let children = match self.parse_nodes() {
            Ok(children) => children,
            Err(e) => {
                return Err(e);
            },
        };
        match self.parse_closing_tag(&tag_name) {
            Ok(()) => Ok(elem(tag_name, attrs, children)),
            Err(e) => Err(e),
        }
    }

    /// Reads nodes up to the end of the text or to a `</`, which is not
    /// read. White space before each node is skipped.
    pub fn parse_nodes(&mut self) -> (result: Result<Vec<Node>, ParseError>)
        ensures
            match grammar::nodes(old(self).source(), old(self).cursor(), Seq::empty()) {
                Ok((list, end)) => result matches Ok(nodes) && trees(nodes@) == list && old(
                    self,
                ).moves_to(final(self), end),
                Err(m) => result matches Err(e) && old(self).fails_at(final(self), e, m),
            },
        decreases old(self).source().len() - old(self).cursor(), 2int,
    {
        proof {
            use_type_invariant(&*self);
        }
        let mut nodes: Vec<Node> = Vec::new();
        assert(trees(nodes@) =~= Seq::<Tree>::empty());
        loop
            invariant
                self.source() == old(self).source(),
                old(self).cursor() <= self.cursor() <= self.source().len(),
                grammar::nodes(self.source(), self.cursor(), trees(nodes@)) == grammar::nodes(
                    old(self).source(),
                    old(self).cursor(),
                    Seq::empty(),
                ),
            decreases self.source().len() - self.cursor(),
        {
            let ghost from = self.cursor();
            self.consume_whitespace();
            proof {
                lemma_run_end(self.source(), from, CharClass::Whitespace);
                reveal_strlit("</");
                assert("</"@ =~= grammar::closing_marker());
            }
            if self.eof() || self.starts_with("</") {
                return Ok(nodes);
            }
            proof {
                grammar::lemma_node_end(self.source(), self.cursor());
            }
            match self.parse_node() {
                Ok(node) => {
                    proof {
                        lemma_trees_push(nodes@, node);
                    }
                    nodes.push(node);
                },
                Err(e) => {
                    return Err(e);
                },
            }
        }
    }

    /// Reads the characters up to the next `stop`, or to the end of the text.
    fn consume_until(&mut self, stop: char) -> (run: String)
        ensures
            old(self).moves_to(
                final(self),
                run_end(old(self).source(), old(self).cursor(), CharClass::Except(stop)),
            ),
            run@ == old(self).source().subrange(old(self).cursor(), final(self).cursor()),
    {
        let ghost from = self.cursor();
        let differs = |c: char| -> (b: bool)
            ensures b == (c != stop)
        {
            c != stop
        };
        let run = self.consume_while(differs);
        proof {
            lemma_run_end_unique(self.source(), from, CharClass::Except(stop), self.cursor());
        }
        run
    }

    /// Reads a text node: the characters up to the next `<`, or to the end
    /// of the text. The node is empty where the cursor stands at a `<` or at
    /// the end.
    pub fn parse_text(&mut self) -> (node: Node)
        ensures
            node@ == grammar::text_node(old(self).source(), old(self).cursor()).0,
            old(self).moves_to(
                final(self),
                grammar::text_node(old(self).source(), old(self).cursor()).1,
            ),
    {
        text(self.consume_until('<'))
    }
}

/// Parses a document.
///
/// If the document has exactly one node at its top, that node is returned.
/// Otherwise an `html` element without attributes is returned that holds the
/// top nodes as its children. A `</` at the top of the document ends it: what
/// follows is not read.
pub fn parse(source: String) -> (result: Result<Node, ParseError>)
    ensures
        match grammar::document(source@) {
            Ok(tree) => result matches Ok(node) && node@ == tree,
            Err(m) => result matches Err(e) && e@ == m,
        },
        result matches Ok(node) ==> no_blank_text(node@),
{
    proof {
        lemma_document_no_blank_text(source@);
    }
    let mut parser = Parser::new(source.as_str());
    let mut nodes = match parser.parse_nodes() {
        Ok(nodes) => nodes,
        Err(e) => {
            return Err(e);
        },
    };
    if nodes.len() == 1 {
        Ok(nodes.swap_remove(0))
    } else {
        proof {
            reveal_strlit("html");
            assert("html"@ =~= grammar::root_name());
        }
        Ok(elem(String::from_str("html"), AttrMap::new(), nodes))
    }
}

} // verus!
