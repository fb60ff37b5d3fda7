//! What holds of every text: white space between nodes is never part of the
//! tree.

use crate::chars::{is_whitespace_char, lemma_run_end, lemma_run_end_unique, run_end, CharClass};
use crate::domtree::Tree;
use crate::grammar::{
    attributes, closing_marker, comment_marker, document, element, lemma_attributes_end,
    lemma_element_end, lemma_node_end, lemma_nodes_end, node, nodes, root, starts_with,
};
use vstd::prelude::*;

verus! {

/// Whether no text node of the tree is empty or begins with white space.
pub open spec fn no_blank_text(tree: Tree) -> bool
    decreases tree,
{
    match tree {
        Tree::Text(data) => data.len() > 0 && !is_whitespace_char(data[0]),
        Tree::Comment(_) => true,
        Tree::Element { children, .. } => forall|i: int|
            0 <= i < children.len() ==> no_blank_text(#[trigger] children[i]),
    }
}

/// Whether [`no_blank_text`] holds of each tree of the list.
pub open spec fn none_blank(list: Seq<Tree>) -> bool {
    forall|i: int| 0 <= i < list.len() ==> no_blank_text(#[trigger] list[i])
}

/// A run that is begun inside a run of the same class ends where that run
/// ends.
pub proof fn lemma_run_end_inside(s: Seq<char>, from: int, at: int, class: CharClass)
    requires
        0 <= from <= at <= run_end(s, from, class),
    ensures
        run_end(s, at, class) == run_end(s, from, class),
{
    if from <= s.len() {
        lemma_run_end(s, from, class);
        lemma_run_end_unique(s, at, class, run_end(s, from, class));
    }
}

/// Skipping white space twice is skipping it once.
pub proof fn lemma_skip_whitespace_idempotent(s: Seq<char>, pos: int)
    requires
        0 <= pos <= s.len(),
    ensures
        run_end(s, run_end(s, pos, CharClass::Whitespace), CharClass::Whitespace) == run_end(
            s,
            pos,
            CharClass::Whitespace,
        ),
{
    lemma_run_end(s, pos, CharClass::Whitespace);
    lemma_run_end_inside(s, pos, run_end(s, pos, CharClass::Whitespace), CharClass::Whitespace);
}

/// However much of the white space before a node, a closing tag or the end
/// of the text has been read, the nodes read from there are the same.
pub proof fn lemma_nodes_skip_whitespace(s: Seq<char>, pos: int, at: int, acc: Seq<Tree>)
    requires
        0 <= pos <= at <= run_end(s, pos, CharClass::Whitespace),
        pos <= s.len(),
    ensures
        nodes(s, at, acc) == nodes(s, pos, acc),
{
    lemma_run_end(s, pos, CharClass::Whitespace);
    lemma_run_end_inside(s, pos, at, CharClass::Whitespace);
}

/// However much of the white space before an attribute or the `>` of a tag
/// has been read, the attributes read from there are the same.
pub proof fn lemma_attributes_skip_whitespace(
    s: Seq<char>,
    pos: int,
    at: int,
    acc: Map<Seq<char>, Seq<char>>,
)
    requires
        0 <= pos <= at <= run_end(s, pos, CharClass::Whitespace),
        pos <= s.len(),
    ensures
        attributes(s, at, acc) == attributes(s, pos, acc),
{
    lemma_run_end(s, pos, CharClass::Whitespace);
    lemma_run_end_inside(s, pos, at, CharClass::Whitespace);
}

/// The nodes of a list are read where the white space before them ends, so
/// no text node among them, or below them, is empty or begins with white
/// space.
pub proof fn lemma_nodes_no_blank_text(s: Seq<char>, pos: int, acc: Seq<Tree>)
    requires
        0 <= pos <= s.len(),
        none_blank(acc),
    ensures
        nodes(s, pos, acc) matches Ok((list, _)) ==> none_blank(list),
    decreases s.len() - pos, 2int,
{
    lemma_run_end(s, pos, CharClass::Whitespace);
    let at = run_end(s, pos, CharClass::Whitespace);
    if !(at >= s.len() || starts_with(s, at, closing_marker())) {
        lemma_node_end(s, at);
        lemma_node_no_blank_text(s, at);
        match node(s, at) {
            Err(e) => {},
            Ok((tree, next)) => {
                lemma_nodes_no_blank_text(s, next, acc.push(tree));
            },
        }
    }
}

/// A node that is read at a character that is no white space holds no text
/// node that is empty or begins with white space.
pub proof fn lemma_node_no_blank_text(s: Seq<char>, pos: int)
    requires
        0 <= pos < s.len(),
        !is_whitespace_char(s[pos]),
    ensures
        node(s, pos) matches Ok((tree, _)) ==> no_blank_text(tree),
    decreases s.len() - pos, 1int,
{
    if s[pos] == '<' {
        lemma_element_no_blank_text(s, pos);
    } else {
        lemma_run_end(s, pos + 1, CharClass::Except('<'));
    }
}

/// An element holds no text node that is empty or begins with white space.
pub proof fn lemma_element_no_blank_text(s: Seq<char>, pos: int)
    requires
        0 <= pos <= s.len(),
    ensures
        element(s, pos) matches Ok((tree, _)) ==> no_blank_text(tree),
    decreases s.len() - pos, 0int,
{
    if pos < s.len() && s[pos] == '<' {
        let name_start = pos + 1;
        lemma_run_end(s, name_start, CharClass::TagName);
        let name_end = run_end(s, name_start, CharClass::TagName);
        if s.subrange(name_start, name_end) != comment_marker() {
            lemma_attributes_end(s, name_end, Map::empty());
            match attributes(s, name_end, Map::empty()) {
                Err(e) => {},
                Ok((attrs, gt)) => {
                    lemma_nodes_no_blank_text(s, gt + 1, Seq::empty());
                },
            }
        }
    }
}

/// In the tree of a document no text node is empty or begins with white
/// space: the white space before a node, before a closing tag and at the end
/// of the text is in no node.
pub proof fn lemma_document_no_blank_text(s: Seq<char>)
    ensures
        document(s) matches Ok(tree) ==> no_blank_text(tree),
{
    lemma_nodes_no_blank_text(s, 0, Seq::empty());
}

} // verus!
