//! The document tree: an arena of nodes in document (pre-)order.
//!
//! Node 0 is the synthetic document root.  Every node records its parent
//! (always an earlier node) and `end`, one past the last node of its
//! subtree, so that the subtree of `i` is the index range `i .. end`.
//! Removal and unwrapping are recorded as flags, never by moving nodes.
use vstd::prelude::*;

verus! {

#[derive(Clone, Copy, Debug, PartialEq, Eq, Structural)]
pub enum NodeKind {
    Element,
    Text,
    Comment,
}

#[derive(Clone, Debug)]
pub struct Attr {
    /// Lower-cased attribute name.
    pub name: Vec<char>,
    /// Entity-decoded attribute value.
    pub value: Vec<char>,
}

#[derive(Clone, Debug)]
pub struct Node {
    pub kind: NodeKind,
    /// Lower-cased tag name; empty for text and comments.
    pub tag: Vec<char>,
    pub attrs: Vec<Attr>,
    /// Decoded content of a text or comment node.
    pub text: Vec<char>,
}

/// An attribute as a pair of character sequences.
pub ghost struct AttrView {
    pub name: Seq<char>,
    pub value: Seq<char>,
}

/// A node as plain sequences.
pub ghost struct NodeView {
    pub kind: NodeKind,
    pub tag: Seq<char>,
    pub attrs: Seq<AttrView>,
    pub text: Seq<char>,
}

/// The tree of a document: its nodes, parents and subtree ends.
pub ghost struct Tree {
    pub nodes: Seq<NodeView>,
    pub parent: Seq<usize>,
    pub end: Seq<usize>,
}

pub open spec fn attr_view(a: Attr) -> AttrView {
    AttrView { name: a.name@, value: a.value@ }
}

pub open spec fn attrs_view(a: Seq<Attr>) -> Seq<AttrView> {
    a.map_values(|x: Attr| attr_view(x))
}

pub open spec fn node_view(n: Node) -> NodeView {
    NodeView { kind: n.kind, tag: n.tag@, attrs: attrs_view(n.attrs@), text: n.text@ }
}

/// The tree holding the root alone.
pub open spec fn root_tree() -> Tree {
    Tree {
        nodes: seq![NodeView { kind: NodeKind::Element, tag: Seq::empty(), attrs: Seq::empty(), text: Seq::empty() }],
        parent: seq![0usize],
        end: seq![1usize],
    }
}

/// `t` with `n` appended as the last child of `p`.
pub open spec fn add_tree(t: Tree, n: NodeView, p: usize) -> Tree {
    Tree {
        nodes: t.nodes.push(n),
        parent: t.parent.push(p),
        end: t.end.push((t.nodes.len() + 1) as usize),
    }
}

/// `t` with the subtree of `e` ending at the end of the arena.
pub open spec fn close_tree(t: Tree, e: int) -> Tree {
    Tree { nodes: t.nodes, parent: t.parent, end: t.end.update(e, t.nodes.len() as usize) }
}

/// Nodes with their structure held in parallel vectors, indexed alike.
#[derive(Clone, Debug)]
pub struct Document {
    pub nodes: Vec<Node>,
    pub parent: Vec<usize>,
    /// One past the last node of each subtree.
    pub end: Vec<usize>,
    /// A removed node is dropped with its whole subtree.
    pub removed: Vec<bool>,
    /// An unwrapped element is rendered through its children only.
    pub unwrapped: Vec<bool>,
}

impl Document {
    /// The shape that holds while the tree is being built.
    pub open spec fn shaped(&self) -> bool {
        let n = self.nodes@.len();
        &&& n > 0
        &&& self.parent@.len() == n
        &&& self.end@.len() == n
        &&& self.removed@.len() == n
        &&& self.unwrapped@.len() == n
        &&& self.nodes@[0].kind == NodeKind::Element
        &&& self.parent@[0] == 0
        &&& forall|i: int| 0 <= i < n ==> i < #[trigger] self.end@[i] <= n
        &&& forall|i: int| 0 < i < n ==> #[trigger] self.parent@[i] < i
        &&& forall|i: int|
            0 <= i < n && #[trigger] self.nodes@[i].kind != NodeKind::Element ==> self.end@[i]
                == i + 1
    }

    /// The shape every stage relies on: the root spans the whole arena.
    pub open spec fn wf(&self) -> bool {
        &&& self.shaped()
        &&& self.end@[0] == self.nodes@.len()
    }

    pub open spec fn tree(&self) -> Tree {
        Tree {
            nodes: self.nodes@.map_values(|n: Node| node_view(n)),
            parent: self.parent@,
            end: self.end@,
        }
    }

    /// No node is marked yet.
    pub open spec fn unmarked(&self) -> bool {
        &&& forall|i: int| 0 <= i < self.removed@.len() ==> !#[trigger] self.removed@[i]
        &&& forall|i: int| 0 <= i < self.unwrapped@.len() ==> !#[trigger] self.unwrapped@[i]
    }

    pub open spec fn len(&self) -> nat {
        self.nodes@.len()
    }

    pub open spec fn is_elem(&self, i: int) -> bool {
        self.nodes@[i].kind == NodeKind::Element
    }

    /// A document holding the root alone.
    pub fn new_root() -> (d: Document)
        ensures
            d.shaped(),
            d.len() == 1,
            d.tree() == root_tree(),
            d.unmarked(),
    {
        let root = Node {
            kind: NodeKind::Element,
            tag: Vec::new(),
            attrs: Vec::new(),
            text: Vec::new(),
        };
        let d = Document {
            nodes: vec![root],
            parent: vec![0],
            end: vec![1],
            removed: vec![false],
            unwrapped: vec![false],
        };
        assert(d.nodes@[0].attrs@ =~= Seq::<Attr>::empty());
        assert(attrs_view(d.nodes@[0].attrs@) =~= Seq::<AttrView>::empty());
        assert(d.nodes@[0].tag@ =~= Seq::<char>::empty());
        assert(d.nodes@[0].text@ =~= Seq::<char>::empty());
        assert(d.tree().nodes =~= root_tree().nodes);
        assert(d.tree().parent =~= root_tree().parent);
        assert(d.tree().end =~= root_tree().end);
        d
    }

    /// Appends `node` as the last child of `p`; returns its index.
    pub fn add_node(&mut self, node: Node, p: usize) -> (r: usize)
        requires
            old(self).shaped(),
            p < old(self).len(),
            old(self).len() + 1 < usize::MAX,
        ensures
            final(self).shaped(),
            r == old(self).len(),
            final(self).nodes@ == old(self).nodes@.push(node),
            final(self).parent@ == old(self).parent@.push(p),
            final(self).end@ == old(self).end@.push((r + 1) as usize),
            final(self).removed@ == old(self).removed@.push(false),
            final(self).unwrapped@ == old(self).unwrapped@.push(false),
            final(self).tree() == add_tree(old(self).tree(), node_view(node), p),
            old(self).unmarked() ==> final(self).unmarked(),
    {
        let r = self.nodes.len();
        self.nodes.push(node);
        self.parent.push(p);
        self.end.push(r + 1);
        self.removed.push(false);
        self.unwrapped.push(false);
        assert(self.tree().nodes =~= add_tree(old(self).tree(), node_view(node), p).nodes);
        r
    }

    /// Ends the subtree of element `e` at the current end of the arena.
    pub fn close_node(&mut self, e: usize)
        requires
            old(self).shaped(),
            e < old(self).len(),
            old(self).is_elem(e as int),
        ensures
            final(self).shaped(),
            final(self).nodes@ == old(self).nodes@,
            final(self).parent@ == old(self).parent@,
            final(self).end@ == old(self).end@.update(e as int, old(self).len() as usize),
            final(self).removed@ == old(self).removed@,
            final(self).unwrapped@ == old(self).unwrapped@,
            final(self).tree() == close_tree(old(self).tree(), e as int),
            old(self).unmarked() ==> final(self).unmarked(),
    {
        let n = self.nodes.len();
        self.end.set(e, n);
    }
}

/// The value of the first attribute of `attrs` named `name`, if any.
pub open spec fn attr_value(attrs: Seq<Attr>, name: Seq<char>) -> Option<Seq<char>>
    decreases attrs.len(),
{
    if attrs.len() == 0 {
        None
    } else if attrs[0].name@ == name {
        Some(attrs[0].value@)
    } else {
        attr_value(attrs.drop_first(), name)
    }
}

pub fn get_attr<'a>(attrs: &'a Vec<Attr>, name: &str) -> (r: Option<&'a Vec<char>>)
    ensures
        match r {
            Some(v) => attr_value(attrs@, name@) == Some(v@),
            None => attr_value(attrs@, name@).is_none(),
        },
{
    let mut i: usize = 0;
    assert(attrs@.skip(0) =~= attrs@);
    while i < attrs.len()
        invariant
            i <= attrs@.len(),
            attr_value(attrs@, name@) == attr_value(attrs@.skip(i as int), name@),
        decreases attrs@.len() - i,
    {
        assert(attrs@.skip(i as int).drop_first() =~= attrs@.skip(i + 1));
        if crate::text::eq_str(&attrs[i].name, name) {
            return Some(&attrs[i].value);
        }
        i = i + 1;
    }
    None
}

/// Whether node `i` and all of its ancestors are kept.
pub open spec fn live(d: Document, i: int) -> bool
    decreases i,
{
    if i <= 0 {
        !d.removed@[0]
    } else if d.parent@[i] >= i {
        false
    } else {
        !d.removed@[i] && live(d, d.parent@[i] as int)
    }
}

/// The liveness of every node, computed in one forward pass.
pub fn live_flags(d: &Document) -> (r: Vec<bool>)
    requires
        d.wf(),
    ensures
        r@.len() == d.len(),
        forall|i: int| 0 <= i < d.len() ==> r@[i] == live(*d, i),
{
    let n = d.nodes.len();
    let mut r: Vec<bool> = Vec::new();
    let mut i: usize = 0;
    while i < n
        invariant
            d.wf(),
            n == d.len(),
            i <= n,
            r@.len() == i,
            forall|k: int| 0 <= k < i ==> r@[k] == live(*d, k),
        decreases n - i,
    {
        if i == 0 {
            r.push(!d.removed[0]);
        } else {
            let p = d.parent[i];
            let v = !d.removed[i] && r[p];
            assert(live(*d, i as int) == (!d.removed@[i as int] && live(*d, p as int)));
            r.push(v);
        }
        i = i + 1;
    }
    r
}

} // verus!
