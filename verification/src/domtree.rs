//! The tree that the parser builds: text, comment and element nodes.

use vstd::prelude::*;

verus! {

/// What a node is, apart from how it is stored: the value that the contracts
/// of this crate speak of.
pub ghost enum Tree {
    /// Character data.
    Text(Seq<char>),
    /// The body of a comment, without its delimiters.
    Comment(Seq<char>),
    /// A tag name, one value for each attribute name, and the children in
    /// document order.
    Element { tag_name: Seq<char>, attributes: Map<Seq<char>, Seq<char>>, children: Seq<Tree> },
}

impl Tree {
    /// The children of an element; text and comments have none.
    pub open spec fn children(self) -> Seq<Tree> {
        match self {
            Tree::Element { children, .. } => children,
            _ => Seq::empty(),
        }
    }
}

/// The values of a sequence of nodes, in the same order.
pub open spec fn trees(nodes: Seq<Node>) -> Seq<Tree> {
    Seq::new(nodes.len(), |i: int| nodes[i]@)
}

/// Appending a node appends its value.
pub proof fn lemma_trees_push(nodes: Seq<Node>, node: Node)
    ensures
        trees(nodes.push(node)) == trees(nodes).push(node@),
{
    assert(trees(nodes.push(node)) =~= trees(nodes).push(node@));
}

/// The attributes of an element: at most one value for each name.
///
/// The entries are kept in a vector in which no name occurs twice.
#[derive(Debug)]
pub struct AttrMap {
    entries: Vec<(String, String)>,
}

/// The names of the first `n` entries.
pub open spec fn names_of(entries: Seq<(String, String)>, n: int) -> Set<Seq<char>>
    decreases n,
{
    if n <= 0 {
        Set::empty()
    } else {
        names_of(entries, n - 1).insert(entries[n - 1].0@)
    }
}

proof fn lemma_names_of(entries: Seq<(String, String)>, n: int)
    requires
        0 <= n <= entries.len(),
        forall|i: int, j: int| 0 <= i < j < entries.len() ==> entries[i].0@ != entries[j].0@,
    ensures
        names_of(entries, n).finite(),
        names_of(entries, n).len() == n,
        forall|k: Seq<char>|
            names_of(entries, n).contains(k) <==> exists|i: int|
                0 <= i < n && #[trigger] entries[i].0@ == k,
    decreases n,
{
    if n > 0 {
        lemma_names_of(entries, n - 1);
        let k = entries[n - 1].0@;
        assert(!names_of(entries, n - 1).contains(k));
    }
}

impl AttrMap {
    #[verifier::type_invariant]
    spec fn distinct_names(&self) -> bool {
        forall|i: int, j: int|
            0 <= i < j < self.entries.len() ==> self.entries[i].0@ != self.entries[j].0@
    }

    spec fn holds(&self, name: Seq<char>) -> bool {
        exists|i: int| 0 <= i < self.entries.len() && #[trigger] self.entries[i].0@ == name
    }

    spec fn index_of(&self, name: Seq<char>) -> int {
        choose|i: int| 0 <= i < self.entries.len() && #[trigger] self.entries[i].0@ == name
    }

    /// A map without entries.
    pub fn new() -> (m: AttrMap)
        ensures
            m@ == Map::<Seq<char>, Seq<char>>::empty(),
    {
        let m = AttrMap { entries: Vec::new() };
        assert(m@ =~= Map::<Seq<char>, Seq<char>>::empty());
        m
    }

    /// The position of the entry for `name`, if there is one.
    fn find(&self, name: &String) -> (r: Option<usize>)
        ensures
            match r {
                Some(i) => i < self.entries.len() && self.entries[i as int].0@ == name@,
                None => !self.holds(name@),
            },
    {
        let mut i: usize = 0;
        while i < self.entries.len()
            invariant
                i <= self.entries.len(),
                forall|j: int| 0 <= j < i ==> self.entries[j].0@ != name@,
            decreases self.entries.len() - i,
        {
            if self.entries[i].0 == *name {
                return Some(i);
            }
            i += 1;
        }
        None
    }

    /// Gives `name` the value `value`; an earlier value for the same name is
    /// replaced.
    pub fn insert(&mut self, name: String, value: String)
        ensures
            final(self)@ == old(self)@.insert(name@, value@),
    {
        proof {
            use_type_invariant(&*self);
        }
        let ghost before = *self;
        let found = self.find(&name);
        let mut entries: Vec<(String, String)> = Vec::new();
        std::mem::swap(&mut self.entries, &mut entries);
        match found {
            Some(i) => {
                entries.set(i, (name, value));
            },
            None => {
                entries.push((name, value));
            },
        }
        std::mem::swap(&mut self.entries, &mut entries);
        proof {
            let last = before.entries.len() as int;
            assert forall|k: Seq<char>| self.holds(k) <==> (before.holds(k) || k == name@) by {
                if self.holds(k) {
                    let j = self.index_of(k);
                    if j < last && k != name@ {
                        assert(before.entries[j].0@ == k);
                    }
                }
                if before.holds(k) {
                    let j = before.index_of(k);
                    assert(self.entries[j].0@ == k);
                }
                if k == name@ {
                    match found {
                        Some(i) => {
                            assert(self.entries[i as int].0@ == k);
                        },
                        None => {
                            assert(self.entries[last].0@ == k);
                        },
                    }
                }
            }
            assert forall|a: int, b: int| 0 <= a < b < self.entries.len() implies self.entries[a].0@
                != self.entries[b].0@ by {
                if b < last {
                    assert(before.entries[a].0@ != before.entries[b].0@);
                } else {
                    assert(before.entries[a].0@ == self.entries[a].0@);
                }
            }
            assert forall|k: Seq<char>| self.holds(k) implies #[trigger] self@[k] == before@.insert(
                name@,
                value@,
            )[k] by {
                let j = self.index_of(k);
                if k != name@ {
                    assert(before.entries[j].0@ == k);
                    assert(before.index_of(k) == j);
                } else {
                    match found {
                        Some(i) => {
                            assert(self.entries[i as int].0@ == k);
                            assert(j == i);
                        },
                        None => {
                            assert(self.entries[last].0@ == k);
                            assert(j == last);
                        },
                    }
                }
            }
            assert forall|k: Seq<char>| self@.dom().contains(k) <==> before@.insert(
                name@,
                value@,
            ).dom().contains(k) by {
                assert(self@.dom().contains(k) <==> self.holds(k));
                assert(before@.dom().contains(k) <==> before.holds(k));
            }
            assert(self@.dom() =~= before@.insert(name@, value@).dom());
            assert(self@ =~= before@.insert(name@, value@));
        }
    }

    /// The value that `name` has, if it has one.
    pub fn get(&self, name: &str) -> (r: Option<&String>)
        ensures
            match r {
                Some(value) => self@.contains_key(name@) && self@[name@] == value@,
                None => !self@.contains_key(name@),
            },
    {
        proof {
            use_type_invariant(self);
        }
        let key = String::from_str(name);
        match self.find(&key) {
            Some(i) => {
                assert(self.holds(name@));
                Some(&self.entries[i].1)
            },
            None => None,
        }
    }

    /// The number of names that have a value.
    pub fn len(&self) -> (n: usize)
        ensures
            self@.dom().finite(),
            n == self@.len(),
    {
        proof {
            use_type_invariant(self);
            lemma_names_of(self.entries@, self.entries.len() as int);
            assert(self@.dom() =~= names_of(self.entries@, self.entries.len() as int));
        }
        self.entries.len()
    }

    /// Whether no name has a value.
    pub fn is_empty(&self) -> (b: bool)
        ensures
            b == (self@ == Map::<Seq<char>, Seq<char>>::empty()),
    {
        if self.entries.len() == 0 {
            assert(self@ =~= Map::<Seq<char>, Seq<char>>::empty());
            true
        } else {
            assert(self.holds(self.entries[0].0@));
            assert(self@.contains_key(self.entries[0].0@));
            false
        }
    }
}

impl View for AttrMap {
    type V = Map<Seq<char>, Seq<char>>;

    closed spec fn view(&self) -> Map<Seq<char>, Seq<char>> {
        Map::new(|name: Seq<char>| self.holds(name), |name: Seq<char>| self.entries[self.index_of(name)].1@)
    }
}

/// A node of the tree. A text or comment node has no children.
#[derive(Debug)]
pub struct Node {
    children: Vec<Node>,
    node_type: NodeType,
}

/// What kind of node a node is, with the data of that kind.
#[derive(Debug)]
pub enum NodeType {
    Text(String),
    Element(ElementData),
    Comment(String),
}

/// The tag name and the attributes of an element.
#[derive(Debug)]
pub struct ElementData {
    tag_name: String,
    attributes: AttrMap,
}

impl ElementData {
    /// The tag name, as a sequence of characters.
    pub closed spec fn name(&self) -> Seq<char> {
        self.tag_name@
    }

    /// The attributes, as a map from names to values.
    pub closed spec fn attrs(&self) -> Map<Seq<char>, Seq<char>> {
        self.attributes@
    }

    /// The tag name.
    pub fn tag_name(&self) -> (name: &String)
        ensures
            name@ == self.name(),
    {
        &self.tag_name
    }

    /// The attributes.
    pub fn attributes(&self) -> (attrs: &AttrMap)
        ensures
            attrs@ == self.attrs(),
    {
        &self.attributes
    }
}

impl NodeType {
    /// The value of a node of this kind that has the given children.
    pub open spec fn with_children(&self, children: Seq<Tree>) -> Tree {
        match self {
            NodeType::Text(data) => Tree::Text(data@),
            NodeType::Comment(data) => Tree::Comment(data@),
            NodeType::Element(data) => Tree::Element {
                tag_name: data.name(),
                attributes: data.attrs(),
                children,
            },
        }
    }
}

impl View for Node {
    type V = Tree;

    closed spec fn view(&self) -> Tree
        decreases self,
    {
        self.node_type.with_children(
            Seq::new(
                self.children.len() as nat,
                |i: int|
                    if 0 <= i < self.children.len() {
                        self.children[i]@
                    } else {
                        Tree::Text(Seq::empty())
                    },
            ),
        )
    }
}

impl Node {
    #[verifier::type_invariant]
    spec fn leaves_have_no_children(&self) -> bool {
        self.node_type is Element || self.children.len() == 0
    }

    /// The kind of the node and its data.
    pub fn node_type(&self) -> (kind: &NodeType)
        ensures
            self@ == kind.with_children(self@.children()),
    {
        &self.node_type
    }

    /// The children, in document order.
    pub fn children(&self) -> (children: &Vec<Node>)
        ensures
            trees(children@) == self@.children(),
    {
        proof {
            use_type_invariant(self);
            assert(trees(self.children@) =~= self@.children());
        }
        &self.children
    }
}

/// A text node that holds `data`.
pub fn text(data: String) -> (node: Node)
    ensures
        node@ == Tree::Text(data@),
{
    Node { children: Vec::new(), node_type: NodeType::Text(data) }
}

/// A comment node whose body is `data`.
pub fn comment(data: String) -> (node: Node)
    ensures
        node@ == Tree::Comment(data@),
{
    Node { children: Vec::new(), node_type: NodeType::Comment(data) }
}

/// An element node with the given tag name, attributes and children.
pub fn elem(name: String, attrs: AttrMap, children: Vec<Node>) -> (node: Node)
    ensures
        node@ == (Tree::Element {
            tag_name: name@,
            attributes: attrs@,
            children: trees(children@),
        }),
{
    let ghost kids = trees(children@);
    let node = Node {
        children: children,
        node_type: NodeType::Element(ElementData { tag_name: name, attributes: attrs }),
    };
    assert(node@.children() =~= kids);
    node
}

} // verus!
