//! The preprocessor: marks boilerplate for removal and neutral wrappers for
//! unwrapping.  Every decision reads only the immutable part of the tree
//! (nodes, parents, extents), which is what makes the stage idempotent.
use vstd::prelude::*;
use crate::dom::{attr_value, get_attr, Document, Node, NodeKind};
use crate::parse::{find_from, occurs_at};
use crate::tags::{is_stripped_tag, is_wrapper_tag, stripped_tag, wrapper_tag};
use crate::text::{all_ws, chars_of, eq_str, is_all_ws};

verus! {

/// Whether `pat` occurs somewhere in `s`.
pub open spec fn contains(s: Seq<char>, pat: Seq<char>) -> bool {
    exists|j: int| 0 <= j < s.len() && occurs_at(s, j, pat)
}

pub fn contains_chars(s: &Vec<char>, pat: &Vec<char>) -> (r: bool)
    ensures
        r == contains(s@, pat@),
{
    let k = find_from(s, 0, pat);
    k < s.len()
}

/// An element hidden by attribute or inline style.
pub open spec fn hidden(n: Node) -> bool {
    ||| attr_value(n.attrs@, "hidden"@).is_some()
    ||| attr_value(n.attrs@, "aria-hidden"@) == Some("true"@)
    ||| match attr_value(n.attrs@, "style"@) {
        Some(v) => contains(v, "display:none"@) || contains(v, "display: none"@),
        None => false,
    }
}

pub fn is_hidden(n: &Node) -> (r: bool)
    ensures
        r == hidden(*n),
{
    if get_attr(&n.attrs, "hidden").is_some() {
        return true;
    }
    match get_attr(&n.attrs, "aria-hidden") {
        Some(v) => {
            if eq_str(v, "true") {
                return true;
            }
        },
        None => {},
    }
    match get_attr(&n.attrs, "style") {
        Some(v) => {
            let a = chars_of("display:none");
            let b = chars_of("display: none");
            contains_chars(v, &a) || contains_chars(v, &b)
        },
        None => false,
    }
}

/// Node `i` is removed outright: a comment, a boilerplate or a hidden element.
pub open spec fn strips(d: Document, i: int) -> bool {
    let n = d.nodes@[i];
    ||| n.kind == NodeKind::Comment
    ||| (n.kind == NodeKind::Element && i > 0 && (stripped_tag(n.tag@) || hidden(n)))
}

/// Text node `i` is whitespace and directly follows a whitespace sibling.
pub open spec fn collapses(d: Document, i: int) -> bool {
    &&& i > 0
    &&& d.nodes@[i].kind == NodeKind::Text
    &&& all_ws(d.nodes@[i].text@)
    &&& d.nodes@[i - 1].kind == NodeKind::Text
    &&& all_ws(d.nodes@[i - 1].text@)
    &&& d.parent@[i - 1] == d.parent@[i]
}

/// Element `i` is a bare `div` or `span` whose only child spans its subtree.
pub open spec fn unwraps(d: Document, i: int) -> bool {
    &&& i > 0
    &&& d.nodes@[i].kind == NodeKind::Element
    &&& wrapper_tag(d.nodes@[i].tag@)
    &&& d.nodes@[i].attrs@.len() == 0
    &&& i + 1 < d.end@[i]
    &&& d.end@[i + 1] == d.end@[i]
}

/// `r` is `d` after one preprocessing pass.
pub open spec fn cleaned_from(d: Document, r: Document) -> bool {
    &&& r.nodes@ == d.nodes@
    &&& r.parent@ == d.parent@
    &&& r.end@ == d.end@
    &&& r.removed@.len() == d.removed@.len()
    &&& r.unwrapped@.len() == d.unwrapped@.len()
    &&& forall|i: int|
        0 <= i < d.len() ==> #[trigger] r.removed@[i] == (d.removed@[i] || strips(d, i)
            || collapses(d, i))
    &&& forall|i: int|
        0 <= i < d.len() ==> #[trigger] r.unwrapped@[i] == (d.unwrapped@[i] || unwraps(d, i))
}

/// Whether two documents are the same tree with the same marks.
pub open spec fn same_doc(a: Document, b: Document) -> bool {
    &&& a.tree() == b.tree()
    &&& a.removed@ == b.removed@
    &&& a.unwrapped@ == b.unwrapped@
}

/// Preprocesses `d` in place.
pub fn preprocess(d: &mut Document)
    requires
        old(d).wf(),
    ensures
        final(d).wf(),
        cleaned_from(*old(d), *final(d)),
{
    let n = d.nodes.len();
    let mut i: usize = 0;
    while i < n
        invariant
            n == d.len(),
            i <= n,
            d.wf(),
            d.nodes@ == old(d).nodes@,
            d.parent@ == old(d).parent@,
            d.end@ == old(d).end@,
            d.removed@.len() == n,
            d.unwrapped@.len() == n,
            forall|k: int|
                0 <= k < i ==> #[trigger] d.removed@[k] == (old(d).removed@[k] || strips(
                    *old(d),
                    k,
                ) || collapses(*old(d), k)),
            forall|k: int|
                0 <= k < i ==> #[trigger] d.unwrapped@[k] == (old(d).unwrapped@[k] || unwraps(
                    *old(d),
                    k,
                )),
            forall|k: int| i <= k < n ==> #[trigger] d.removed@[k] == old(d).removed@[k],
            forall|k: int| i <= k < n ==> #[trigger] d.unwrapped@[k] == old(d).unwrapped@[k],
        decreases n - i,
    {
        let node = &d.nodes[i];
        let strip = match node.kind {
            NodeKind::Comment => true,
            NodeKind::Element => i > 0 && (is_stripped_tag(&node.tag) || is_hidden(node)),
            NodeKind::Text => false,
        };
        let collapse = i > 0 && node.kind == NodeKind::Text && is_all_ws(&node.text)
            && d.nodes[i - 1].kind == NodeKind::Text && is_all_ws(&d.nodes[i - 1].text)
            && d.parent[i - 1] == d.parent[i];
        let unwrap = i > 0 && node.kind == NodeKind::Element && is_wrapper_tag(&node.tag)
            && node.attrs.len() == 0 && i + 1 < d.end[i] && d.end[i + 1] == d.end[i];
        if strip || collapse {
            d.removed.set(i, true);
        }
        if unwrap {
            d.unwrapped.set(i, true);
        }
        i = i + 1;
    }
}

/// Preprocessing a tree that was already preprocessed leaves it unchanged.
pub proof fn lemma_preprocess_idempotent(a: Document, b: Document, c: Document)
    requires
        a.wf(),
        cleaned_from(a, b),
        cleaned_from(b, c),
    ensures
        same_doc(b, c),
{
    assert forall|i: int| 0 <= i < b.len() implies c.removed@[i] == b.removed@[i] by {
        assert(strips(b, i) == strips(a, i));
        assert(collapses(b, i) == collapses(a, i));
    }
    assert forall|i: int| 0 <= i < b.len() implies c.unwrapped@[i] == b.unwrapped@[i] by {
        assert(unwraps(b, i) == unwraps(a, i));
    }
    assert(c.removed@ =~= b.removed@);
    assert(c.unwrapped@ =~= b.unwrapped@);
    assert(c.tree() == b.tree());
}

} // verus!
