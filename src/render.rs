//! The content set around the article root, and its plain-text rendering.
//!
//! The content set is a range of nodes: the root's subtree together with the
//! runs of similar siblings just before and after it.  Between merged
//! siblings only dropped nodes, comments and whitespace may stand.
use vstd::prelude::*;
use crate::dom::{attr_value, get_attr, live, live_flags, Document, NodeKind};
use crate::score::{owned_text, MIN_TEXT};
use crate::tags::{block_tag, is_block_tag};
use crate::text::{all_ws, eq_chars, is_all_ws, is_ws, is_ws_char};

verus! {

/// A sibling that neither joins nor ends a run.
pub open spec fn skippable(d: Document, c: int) -> bool {
    ||| !live(d, c)
    ||| d.nodes@[c].kind == NodeKind::Comment
    ||| (d.nodes@[c].kind == NodeKind::Text && all_ws(d.nodes@[c].text@))
}

/// A sibling similar enough to the root `r` to be merged with it.
pub open spec fn mergeable(d: Document, r: int, c: int) -> bool {
    &&& live(d, c)
    &&& d.nodes@[c].kind == NodeKind::Element
    &&& d.nodes@[c].tag@ == d.nodes@[r].tag@
    &&& attr_value(d.nodes@[c].attrs@, "class"@) == attr_value(d.nodes@[r].attrs@, "class"@)
    &&& owned_text(d, c, d.len() as int) >= MIN_TEXT
}

/// The end of the run of siblings of `r` starting at `c`.
pub open spec fn run_end(d: Document, r: int, c: int) -> int
    decreases d.len() - c,
{
    if c < 0 || c >= d.len() || d.end@[c] <= c || d.end@[c] > d.len() || d.parent@[c] != d.parent@[r] {
        c
    } else if skippable(d, c) || mergeable(d, r, c) {
        run_end(d, r, d.end@[c] as int)
    } else {
        c
    }
}

/// The start of the run of siblings that ends at `r`, walking the siblings
/// from `c`; `start` is where the current run began.
pub open spec fn run_start(d: Document, r: int, c: int, start: int) -> int
    decreases r - c,
{
    if c < 0 || c >= r || d.end@[c] <= c || d.end@[c] > r {
        if c == r {
            start
        } else {
            r
        }
    } else if d.parent@[c] == d.parent@[r] && (skippable(d, c) || mergeable(d, r, c)) {
        run_start(d, r, d.end@[c] as int, start)
    } else {
        run_start(d, r, d.end@[c] as int, d.end@[c] as int)
    }
}

/// The content set of root `r` as the node range `lo .. hi`.
pub open spec fn content_range(d: Document, r: int) -> (int, int) {
    let p = d.parent@[r] as int;
    (run_start(d, r, p + 1, p + 1), run_end(d, r, d.end@[r] as int))
}

fn is_skippable(d: &Document, lv: &Vec<bool>, c: usize) -> (r: bool)
    requires
        d.wf(),
        c < d.len(),
        lv@.len() == d.len(),
        forall|i: int| 0 <= i < d.len() ==> lv@[i] == live(*d, i),
    ensures
        r == skippable(*d, c as int),
{
    !lv[c] || d.nodes[c].kind == NodeKind::Comment || (d.nodes[c].kind == NodeKind::Text
        && is_all_ws(&d.nodes[c].text))
}

fn same_class(a: Option<&Vec<char>>, b: Option<&Vec<char>>) -> (r: bool)
    ensures
        r == (match a {
            Some(x) => Some(x@),
            None => None,
        } == match b {
            Some(x) => Some(x@),
            None => None,
        }),
{
    match (a, b) {
        (None, None) => true,
        (Some(x), Some(y)) => eq_chars(x, y),
        _ => false,
    }
}

fn is_mergeable(d: &Document, lv: &Vec<bool>, dt: &Vec<usize>, r: usize, c: usize) -> (res: bool)
    requires
        d.wf(),
        r < d.len(),
        c < d.len(),
        lv@.len() == d.len(),
        forall|i: int| 0 <= i < d.len() ==> lv@[i] == live(*d, i),
        dt@.len() == d.len(),
        forall|k: int| 0 <= k < d.len() ==> dt@[k] == owned_text(*d, k, d.len() as int),
    ensures
        res == mergeable(*d, r as int, c as int),
{
    lv[c] && d.nodes[c].kind == NodeKind::Element && eq_chars(&d.nodes[c].tag, &d.nodes[r].tag)
        && same_class(get_attr(&d.nodes[c].attrs, "class"), get_attr(&d.nodes[r].attrs, "class"))
        && dt[c] >= MIN_TEXT
}

/// The content set of root `r`.
pub fn content_range_of(d: &Document, r: usize) -> (res: (usize, usize))
    requires
        d.wf(),
        0 < r < d.len(),
    ensures
        res.0 == content_range(*d, r as int).0,
        res.1 == content_range(*d, r as int).1,
        res.0 <= r < res.1 <= d.len(),
{
    let n = d.nodes.len();
    let lv = live_flags(d);
    let dt = crate::score::owned_texts(d, &lv);
    let p = d.parent[r];
    let mut c = d.end[r];
    while c < n && d.end[c] > c && d.end[c] <= n && d.parent[c] == p && (is_skippable(
        d,
        &lv,
        c,
    ) || is_mergeable(d, &lv, &dt, r, c))
        invariant
            d.wf(),
            n == d.len(),
            0 < r < n,
            p == d.parent@[r as int],
            r < c <= n,
            lv@.len() == n,
            forall|i: int| 0 <= i < n ==> lv@[i] == live(*d, i),
            dt@.len() == n,
            forall|k: int| 0 <= k < n ==> dt@[k] == owned_text(*d, k, n as int),
            run_end(*d, r as int, c as int) == run_end(*d, r as int, d.end@[r as int] as int),
        decreases n - c,
    {
        c = d.end[c];
    }
    let hi = c;
    let mut c = p + 1;
    let mut start = p + 1;
    while c < r && d.end[c] > c && d.end[c] <= r
        invariant
            d.wf(),
            n == d.len(),
            0 < r < n,
            p == d.parent@[r as int],
            p < r,
            c <= r,
            start <= r,
            lv@.len() == n,
            forall|i: int| 0 <= i < n ==> lv@[i] == live(*d, i),
            dt@.len() == n,
            forall|k: int| 0 <= k < n ==> dt@[k] == owned_text(*d, k, n as int),
            run_start(*d, r as int, c as int, start as int) == run_start(
                *d,
                r as int,
                p + 1,
                p + 1,
            ),
        decreases r - c,
    {
        if d.parent[c] == p && (is_skippable(d, &lv, c) || is_mergeable(d, &lv, &dt, r, c)) {
            c = d.end[c];
        } else {
            c = d.end[c];
            start = c;
        }
    }
    let lo = if c == r { start } else { r };
    (lo, hi)
}

/// The running state of the plain-text rendering: the text so far and the
/// pending separator (0: none, 1: a space, 2: a line break).
pub open spec fn step_char(st: (Seq<char>, int), c: char) -> (Seq<char>, int) {
    if is_ws(c) {
        (st.0, if st.1 == 2 { 2 } else { 1 })
    } else {
        let out = if st.1 > 0 && st.0.len() > 0 {
            st.0.push(if st.1 == 2 { '\n' } else { ' ' })
        } else {
            st.0
        };
        (out.push(c), 0)
    }
}

pub open spec fn fold_chars(st: (Seq<char>, int), s: Seq<char>) -> (Seq<char>, int)
    decreases s.len(),
{
    if s.len() == 0 {
        st
    } else {
        step_char(fold_chars(st, s.drop_last()), s.last())
    }
}

/// What node `j` does to the rendering state.
pub open spec fn node_step(d: Document, st: (Seq<char>, int), j: int) -> (Seq<char>, int) {
    if !live(d, j) {
        st
    } else if d.nodes@[j].kind == NodeKind::Text {
        fold_chars(st, d.nodes@[j].text@)
    } else if d.nodes@[j].kind == NodeKind::Element && block_tag(d.nodes@[j].tag@) {
        (st.0, 2)
    } else {
        st
    }
}

pub open spec fn text_upto(d: Document, lo: int, j: int) -> (Seq<char>, int)
    decreases j - lo,
{
    if j <= lo {
        (Seq::empty(), 0)
    } else {
        node_step(d, text_upto(d, lo, j - 1), j - 1)
    }
}

/// The plain text of the nodes `lo .. hi`: text in document order, each run
/// of whitespace turned into one space, or one line break where a block
/// element starts within it, with none at either end.
pub open spec fn plain_text(d: Document, lo: int, hi: int) -> Seq<char> {
    text_upto(d, lo, hi).0
}

/// Renders the plain text of the nodes `lo .. hi`.
pub fn plain_text_of(d: &Document, lo: usize, hi: usize) -> (r: Vec<char>)
    requires
        d.wf(),
        lo <= hi <= d.len(),
    ensures
        r@ == plain_text(*d, lo as int, hi as int),
{
    let lv = live_flags(d);
    let mut out: Vec<char> = Vec::new();
    let mut pending: u8 = 0;
    let mut j = lo;
    while j < hi
        invariant
            d.wf(),
            lo <= j <= hi,
            hi <= d.len(),
            lv@.len() == d.len(),
            forall|i: int| 0 <= i < d.len() ==> lv@[i] == live(*d, i),
            (out@, pending as int) == text_upto(*d, lo as int, j as int),
            pending <= 2,
        decreases hi - j,
    {
        if lv[j] {
            let node = &d.nodes[j];
            if node.kind == NodeKind::Text {
                let ghost st0 = (out@, pending as int);
                let mut i: usize = 0;
                while i < node.text.len()
                    invariant
                        i <= node.text@.len(),
                        (out@, pending as int) == fold_chars(st0, node.text@.subrange(0, i as int)),
                        pending <= 2,
                    decreases node.text@.len() - i,
                {
                    let c = node.text[i];
                    proof {
                        assert(node.text@.subrange(0, i + 1).drop_last() =~= node.text@.subrange(0, i as int));
                    }
                    if is_ws_char(c) {
                        pending = if pending == 2 { 2 } else { 1 };
                    } else {
                        if pending > 0 && out.len() > 0 {
                            out.push(if pending == 2 { '\n' } else { ' ' });
                        }
                        out.push(c);
                        pending = 0;
                    }
                    i = i + 1;
                }
                proof {
                    assert(node.text@.subrange(0, node.text@.len() as int) =~= node.text@);
                }
            } else if node.kind == NodeKind::Element && is_block_tag(&node.tag) {
                pending = 2;
            }
        }
        j = j + 1;
    }
    out
}

} // verus!
