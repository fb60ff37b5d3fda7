//! The language that the parser reads, as functions on a sequence of
//! characters and a position in it.
//!
//! Each function says what stands at a position: the value read there and
//! the position after it, or the mismatch that ends the parse.

use crate::chars::{lemma_run_end, run_end, CharClass};
use crate::domtree::Tree;
use crate::error::{ExpectedToken, FoundToken, Mismatch};
use vstd::prelude::*;

verus! {

/// What stands at `pos`: a character, or the end of the input.
pub open spec fn found_at(s: Seq<char>, pos: int) -> FoundToken {
    if 0 <= pos < s.len() {
        FoundToken::Char(s[pos])
    } else {
        FoundToken::EndOfInput
    }
}

/// The mismatch of `expected` with what stands at `pos`.
pub open spec fn mismatch_at(s: Seq<char>, pos: int, expected: ExpectedToken) -> Mismatch {
    Mismatch { expected, found: found_at(s, pos), position: pos }
}

/// The character `c` at `pos`: the position after it.
pub open spec fn expect_char(s: Seq<char>, pos: int, c: char) -> Result<int, Mismatch> {
    if 0 <= pos < s.len() && s[pos] == c {
        Ok(pos + 1)
    } else {
        Err(mismatch_at(s, pos, ExpectedToken::Char(c)))
    }
}

/// The position at which a read that began at `pos` ended: the position
/// behind what was read, or the position of the mismatch.
pub open spec fn end_of<T>(outcome: Result<(T, int), Mismatch>) -> int {
    match outcome {
        Ok((_, next)) => next,
        Err(m) => m.position,
    }
}

/// Whether the text from `pos` on begins with `prefix`.
pub open spec fn starts_with(s: Seq<char>, pos: int, prefix: Seq<char>) -> bool {
    0 <= pos && pos + prefix.len() <= s.len() && s.subrange(pos, pos + prefix.len()) == prefix
}

/// `!--`: the tag name that opens a comment.
pub open spec fn comment_marker() -> Seq<char> {
    seq!['!', '-', '-']
}

/// `</`: what a closing tag begins with.
pub open spec fn closing_marker() -> Seq<char> {
    seq!['<', '/']
}

/// `html`: the tag name of the root that is made up for a document that has
/// not exactly one node at its top.
pub open spec fn root_name() -> Seq<char> {
    seq!['h', 't', 'm', 'l']
}

/// Where the body of a comment that begins at `from` ends: at the `-->` that
/// closes it, or at the end of the input if nothing closes it.
///
/// The scanner reads a character at a time. At a dash it looks at the next
/// character: if that is no dash, the dash belongs to the body. If it is one,
/// a `>` behind the two closes the comment; anything else leaves both dashes
/// in the body, and the scan goes on behind them. So `-->` closes a comment
/// only where the scan reaches its first dash: in `--->` it does not.
pub open spec fn comment_body_end(s: Seq<char>, from: int) -> int
    decreases s.len() - from,
{
    if from < 0 || from >= s.len() {
        s.len() as int
    } else if s[from] != '-' {
        comment_body_end(s, from + 1)
    } else if from + 1 < s.len() && s[from + 1] == '-' {
        if from + 2 < s.len() && s[from + 2] == '>' {
            from
        } else {
            comment_body_end(s, from + 2)
        }
    } else {
        comment_body_end(s, from + 1)
    }
}

/// The position after a comment whose body begins at `from`: behind the
/// `-->` that closes it, or the end of the input.
pub open spec fn comment_end(s: Seq<char>, from: int) -> int {
    if comment_body_end(s, from) < s.len() {
        comment_body_end(s, from) + 3
    } else {
        s.len() as int
    }
}

/// The body of a comment that begins at `from`.
pub open spec fn comment_body(s: Seq<char>, from: int) -> Seq<char> {
    s.subrange(from, comment_body_end(s, from))
}

/// The body of a comment ends inside the text, at a `-->` unless the text
/// ends first.
pub proof fn lemma_comment_end(s: Seq<char>, from: int)
    requires
        0 <= from <= s.len(),
    ensures
        from <= comment_body_end(s, from) <= s.len(),
        from <= comment_end(s, from) <= s.len(),
        comment_body_end(s, from) < s.len() ==> starts_with(
            s,
            comment_body_end(s, from),
            seq!['-', '-', '>'],
        ),
    decreases s.len() - from,
{
    if from < s.len() {
        if s[from] != '-' {
            lemma_comment_end(s, from + 1);
        } else if from + 1 < s.len() && s[from + 1] == '-' {
            if from + 2 < s.len() && s[from + 2] == '>' {
                assert(s.subrange(from, from + 3) =~= seq!['-', '-', '>']);
            } else {
                lemma_comment_end(s, from + 2);
            }
        } else {
            lemma_comment_end(s, from + 1);
        }
    }
}

/// An attribute value at `pos`: a quote, `"` or `'`, the characters up to
/// the next quote of the same kind, and that quote.
pub open spec fn attr_value(s: Seq<char>, pos: int) -> Result<(Seq<char>, int), Mismatch> {
    if 0 <= pos < s.len() && (s[pos] == '"' || s[pos] == '\'') {
        let close = run_end(s, pos + 1, CharClass::Except(s[pos]));
        if close < s.len() {
            Ok((s.subrange(pos + 1, close), close + 1))
        } else {
            Err(mismatch_at(s, close, ExpectedToken::Char(s[pos])))
        }
    } else {
        Err(mismatch_at(s, pos, ExpectedToken::Quote))
    }
}

/// An attribute at `pos`: a name, `=`, and a value.
pub open spec fn attr(s: Seq<char>, pos: int) -> Result<((Seq<char>, Seq<char>), int), Mismatch> {
    let name_end = run_end(s, pos, CharClass::TagName);
    match expect_char(s, name_end, '=') {
        Err(e) => Err(e),
        Ok(value_start) => match attr_value(s, value_start) {
            Err(e) => Err(e),
            Ok((value, next)) => Ok(((s.subrange(pos, name_end), value), next)),
        },
    }
}

/// An attribute value is not empty, and a read of one ends inside the text,
/// at or behind the position at which it began.
pub proof fn lemma_attr_value_end(s: Seq<char>, pos: int)
    requires
        0 <= pos <= s.len(),
    ensures
        pos <= end_of(attr_value(s, pos)) <= s.len(),
        attr_value(s, pos) is Ok ==> pos + 2 <= end_of(attr_value(s, pos)),
{
    if pos < s.len() {
        lemma_run_end(s, pos + 1, CharClass::Except(s[pos]));
    }
}

/// An attribute is not empty, and a read of one ends inside the text, at or
/// behind the position at which it began.
pub proof fn lemma_attr_end(s: Seq<char>, pos: int)
    requires
        0 <= pos <= s.len(),
    ensures
        pos <= end_of(attr(s, pos)) <= s.len(),
        attr(s, pos) is Ok ==> pos < end_of(attr(s, pos)),
{
    lemma_run_end(s, pos, CharClass::TagName);
    let name_end = run_end(s, pos, CharClass::TagName);
    if name_end < s.len() {
        lemma_attr_value_end(s, name_end + 1);
    }
}

/// The attributes from `pos` on, added to `acc` in the order in which they
/// stand, so that the last value given to a name is the one it keeps. White
/// space before each attribute is skipped; the list ends at a `>`, which is
/// not read.
pub open spec fn attributes(s: Seq<char>, pos: int, acc: Map<Seq<char>, Seq<char>>) -> Result<
    (Map<Seq<char>, Seq<char>>, int),
    Mismatch,
>
    decreases s.len() - pos,
    when 0 <= pos <= s.len()
{
    let at = run_end(s, pos, CharClass::Whitespace);
    if at < s.len() && s[at] != '>' {
        match attr(s, at) {
            Err(e) => Err(e),
            Ok(((name, value), next)) => {
                proof {
                    lemma_run_end(s, pos, CharClass::Whitespace);
                    lemma_attr_end(s, at);
                }
                attributes(s, next, acc.insert(name, value))
            },
        }
    } else if at < s.len() {
        Ok((acc, at))
    } else {
        Err(mismatch_at(s, at, ExpectedToken::Char('>')))
    }
}

/// A list of attributes ends at a `>`, and a read of one ends inside the
/// text, at or behind the position at which it began.
pub proof fn lemma_attributes_end(s: Seq<char>, pos: int, acc: Map<Seq<char>, Seq<char>>)
    requires
        0 <= pos <= s.len(),
    ensures
        pos <= end_of(attributes(s, pos, acc)) <= s.len(),
        attributes(s, pos, acc) matches Ok((_, end)) ==> end < s.len() && s[end] == '>',
    decreases s.len() - pos,
{
    lemma_run_end(s, pos, CharClass::Whitespace);
    let at = run_end(s, pos, CharClass::Whitespace);
    if at < s.len() && s[at] != '>' {
        lemma_attr_end(s, at);
        match attr(s, at) {
            Err(e) => {},
            Ok(((name, value), next)) => {
                lemma_attributes_end(s, next, acc.insert(name, value));
            },
        }
    }
}

/// A closing tag for `name` at `pos`: `</`, the name, and `>`.
pub open spec fn closing_tag(s: Seq<char>, pos: int, name: Seq<char>) -> Result<int, Mismatch> {
    match expect_char(s, pos, '<') {
        Err(e) => Err(e),
        Ok(slash) => match expect_char(s, slash, '/') {
            Err(e) => Err(e),
            Ok(name_start) => {
                let name_end = run_end(s, name_start, CharClass::TagName);
                if s.subrange(name_start, name_end) == name {
                    expect_char(s, name_end, '>')
                } else {
                    Err(
                        Mismatch {
                            expected: ExpectedToken::TagName(name),
                            found: FoundToken::TagName(s.subrange(name_start, name_end)),
                            position: name_end,
                        },
                    )
                }
            },
        },
    }
}

/// A closing tag is not empty, and a read of one ends inside the text, at or
/// behind the position at which it began.
pub proof fn lemma_closing_tag_end(s: Seq<char>, pos: int, name: Seq<char>)
    requires
        0 <= pos <= s.len(),
    ensures
        match closing_tag(s, pos, name) {
            Ok(next) => pos < next <= s.len(),
            Err(m) => pos <= m.position <= s.len(),
        },
{
    if pos + 1 < s.len() {
        lemma_run_end(s, pos + 2, CharClass::TagName);
    }
}

/// A text node at `pos`: the characters up to the next `<`, or to the end of
/// the input.
pub open spec fn text_node(s: Seq<char>, pos: int) -> (Tree, int) {
    let end = run_end(s, pos, CharClass::Except('<'));
    (Tree::Text(s.subrange(pos, end)), end)
}

/// The nodes from `pos` on, appended to `acc`. White space before each node
/// is skipped; the list ends at the end of the input or at a `</`, which is
/// not read.
pub open spec fn nodes(s: Seq<char>, pos: int, acc: Seq<Tree>) -> Result<(Seq<Tree>, int), Mismatch>
    decreases s.len() - pos, 2int,
    when 0 <= pos <= s.len()
{
    let at = run_end(s, pos, CharClass::Whitespace);
    if at >= s.len() || starts_with(s, at, closing_marker()) {
        Ok((acc, at))
    } else {
        proof {
            lemma_run_end(s, pos, CharClass::Whitespace);
        }
        match node(s, at) {
            Err(e) => Err(e),
            Ok((tree, next)) => {
                // A node is never empty (see `lemma_node_advances`), so the
                // second branch is never taken.
                if at < next <= s.len() {
                    nodes(s, next, acc.push(tree))
                } else {
                    Ok((acc.push(tree), next))
                }
            },
        }
    }
}

/// The node at `pos`: an element or a comment where a `<` stands, text
/// anywhere else.
pub open spec fn node(s: Seq<char>, pos: int) -> Result<(Tree, int), Mismatch>
    decreases s.len() - pos, 1int,
    when 0 <= pos < s.len()
{
    if s[pos] == '<' {
        element(s, pos)
    } else {
        Ok(text_node(s, pos))
    }
}

/// The element or comment at `pos`.
///
/// Behind the `<` stands a tag name. If the name is `!--`, a comment
/// follows. Otherwise the attributes follow, a `>`, the children, and the
/// closing tag with the same name.
pub open spec fn element(s: Seq<char>, pos: int) -> Result<(Tree, int), Mismatch>
    decreases s.len() - pos, 0int,
    when 0 <= pos <= s.len()
{
    match expect_char(s, pos, '<') {
        Err(e) => Err(e),
        Ok(name_start) => {
            let name_end = run_end(s, name_start, CharClass::TagName);
            let name = s.subrange(name_start, name_end);
            if name == comment_marker() {
                Ok((Tree::Comment(comment_body(s, name_end)), comment_end(s, name_end)))
            } else {
                match attributes(s, name_end, Map::empty()) {
                    Err(e) => Err(e),
                    Ok((attrs, gt)) => {
                        proof {
                            lemma_run_end(s, name_start, CharClass::TagName);
                            lemma_attributes_end(s, name_end, Map::empty());
                        }
                        match nodes(s, gt + 1, Seq::empty()) {
                            Err(e) => Err(e),
                            Ok((children, close)) => match closing_tag(s, close, name) {
                                Err(e) => Err(e),
                                Ok(next) => Ok(
                                    (
                                        Tree::Element {
                                            tag_name: name,
                                            attributes: attrs,
                                            children,
                                        },
                                        next,
                                    ),
                                ),
                            },
                        }
                    },
                }
            }
        },
    }
}

/// A list of nodes ends at the end of the text or at a `</`, and a read of
/// one ends inside the text, at or behind the position at which it began.
pub proof fn lemma_nodes_end(s: Seq<char>, pos: int, acc: Seq<Tree>)
    requires
        0 <= pos <= s.len(),
    ensures
        pos <= end_of(nodes(s, pos, acc)) <= s.len(),
        nodes(s, pos, acc) matches Ok((_, end)) ==> end == s.len() || starts_with(
            s,
            end,
            closing_marker(),
        ),
    decreases s.len() - pos, 2int,
{
    lemma_run_end(s, pos, CharClass::Whitespace);
    let at = run_end(s, pos, CharClass::Whitespace);
    if !(at >= s.len() || starts_with(s, at, closing_marker())) {
        lemma_node_end(s, at);
        match node(s, at) {
            Err(e) => {},
            Ok((tree, next)) => {
                lemma_nodes_end(s, next, acc.push(tree));
            },
        }
    }
}

/// A node is never empty, and a read of one ends inside the text, at or
/// behind the position at which it began.
pub proof fn lemma_node_end(s: Seq<char>, pos: int)
    requires
        0 <= pos < s.len(),
    ensures
        pos <= end_of(node(s, pos)) <= s.len(),
        node(s, pos) is Ok ==> pos < end_of(node(s, pos)),
    decreases s.len() - pos, 1int,
{
    if s[pos] == '<' {
        lemma_element_end(s, pos);
    } else {
        lemma_run_end(s, pos + 1, CharClass::Except('<'));
    }
}

/// An element or a comment is never empty, and a read of one ends inside the
/// text, at or behind the position at which it began.
pub proof fn lemma_element_end(s: Seq<char>, pos: int)
    requires
        0 <= pos <= s.len(),
    ensures
        pos <= end_of(element(s, pos)) <= s.len(),
        element(s, pos) is Ok ==> pos < end_of(element(s, pos)),
    decreases s.len() - pos, 0int,
{
    if pos < s.len() && s[pos] == '<' {
        let name_start = pos + 1;
        lemma_run_end(s, name_start, CharClass::TagName);
        let name_end = run_end(s, name_start, CharClass::TagName);
        let name = s.subrange(name_start, name_end);
        if name == comment_marker() {
            lemma_comment_end(s, name_end);
        } else {
            lemma_attributes_end(s, name_end, Map::empty());
            match attributes(s, name_end, Map::empty()) {
                Err(e) => {},
                Ok((attrs, gt)) => {
                    lemma_nodes_end(s, gt + 1, Seq::empty());
                    match nodes(s, gt + 1, Seq::empty()) {
                        Err(e) => {},
                        Ok((children, close)) => {
                            lemma_closing_tag_end(s, close, name);
                        },
                    }
                },
            }
        }
    }
}

/// The tree of a document: its only node, or, where it has none or several
/// at its top, an `html` element without attributes that holds them.
pub open spec fn root(top: Seq<Tree>) -> Tree {
    if top.len() == 1 {
        top[0]
    } else {
        Tree::Element { tag_name: root_name(), attributes: Map::empty(), children: top }
    }
}

/// What a whole text parses to.
///
/// A `</` at the top of the document ends it: what follows is not read.
pub open spec fn document(s: Seq<char>) -> Result<Tree, Mismatch> {
    match nodes(s, 0, Seq::empty()) {
        Err(e) => Err(e),
        Ok((top, _)) => Ok(root(top)),
    }
}

} // verus!
