//! Every stage reads a document only through the views of its vectors:
//! two documents with the same tree and marks give the same scores,
//! selection, text, metadata and HTML.
use vstd::prelude::*;
use crate::clean::same_doc;
use crate::dom::{attr_value, attr_view, attrs_view, live, Attr, Document};
use crate::html::{attrs_html, next_content, node_html, seq_html};
use crate::meta::{first_from, Query};
use crate::render::{run_end, run_start, text_upto};
use crate::score::{acc_upto, owned_text};

verus! {

proof fn lemma_attr_value_view(x: Seq<Attr>, y: Seq<Attr>, n: Seq<char>)
    requires
        attrs_view(x) == attrs_view(y),
    ensures
        attr_value(x, n) == attr_value(y, n),
    decreases x.len(),
{
    assert(attrs_view(x).len() == x.len());
    assert(attrs_view(y).len() == y.len());
    if x.len() > 0 {
        assert(attrs_view(x)[0] == attr_view(x[0]));
        assert(attrs_view(y)[0] == attr_view(y[0]));
        assert(attrs_view(x.drop_first()) =~= attrs_view(x).drop_first());
        assert(attrs_view(y.drop_first()) =~= attrs_view(y).drop_first());
        lemma_attr_value_view(x.drop_first(), y.drop_first(), n);
    }
}

proof fn lemma_attrs_html_view(x: Seq<Attr>, y: Seq<Attr>, base: Option<Seq<char>>)
    requires
        attrs_view(x) == attrs_view(y),
    ensures
        attrs_html(x, base) == attrs_html(y, base),
    decreases x.len(),
{
    assert(attrs_view(x).len() == x.len());
    assert(attrs_view(y).len() == y.len());
    if x.len() > 0 {
        assert(attrs_view(x)[x.len() - 1] == attr_view(x.last()));
        assert(attrs_view(y)[y.len() - 1] == attr_view(y.last()));
        assert(attrs_view(x.drop_last()) =~= attrs_view(x).drop_last());
        assert(attrs_view(y.drop_last()) =~= attrs_view(y).drop_last());
        lemma_attrs_html_view(x.drop_last(), y.drop_last(), base);
    }
}

/// Two documents with the same tree have nodes that read alike.
pub proof fn lemma_same_node(a: Document, b: Document, i: int)
    requires
        same_doc(a, b),
        0 <= i < a.len(),
    ensures
        a.len() == b.len(),
        a.nodes@[i].kind == b.nodes@[i].kind,
        a.nodes@[i].tag@ == b.nodes@[i].tag@,
        a.nodes@[i].text@ == b.nodes@[i].text@,
        a.nodes@[i].attrs@.len() == b.nodes@[i].attrs@.len(),
        forall|n: Seq<char>|
            attr_value(a.nodes@[i].attrs@, n) == #[trigger] attr_value(b.nodes@[i].attrs@, n),
        forall|base: Option<Seq<char>>|
            attrs_html(a.nodes@[i].attrs@, base) == #[trigger] attrs_html(b.nodes@[i].attrs@, base),
{
    assert(a.tree().nodes.len() == a.len());
    assert(b.tree().nodes.len() == b.len());
    assert(a.tree().nodes[i] == b.tree().nodes[i]);
    assert(attrs_view(a.nodes@[i].attrs@).len() == a.nodes@[i].attrs@.len());
    assert(attrs_view(b.nodes@[i].attrs@).len() == b.nodes@[i].attrs@.len());
    assert forall|n: Seq<char>|
        attr_value(a.nodes@[i].attrs@, n) == #[trigger] attr_value(b.nodes@[i].attrs@, n) by {
        lemma_attr_value_view(a.nodes@[i].attrs@, b.nodes@[i].attrs@, n);
    }
    assert forall|base: Option<Seq<char>>|
        attrs_html(a.nodes@[i].attrs@, base) == #[trigger] attrs_html(b.nodes@[i].attrs@, base) by {
        lemma_attrs_html_view(a.nodes@[i].attrs@, b.nodes@[i].attrs@, base);
    }
}

pub proof fn lemma_same_live(a: Document, b: Document, i: int)
    requires
        same_doc(a, b),
    ensures
        live(a, i) == live(b, i),
    decreases i,
{
    if i > 0 && a.parent@[i] < i {
        lemma_same_live(a, b, a.parent@[i] as int);
    }
}

pub proof fn lemma_same_owner(a: Document, b: Document, j: int)
    requires
        same_doc(a, b),
        j < a.len(),
    ensures
        crate::score::owner(a, j) == crate::score::owner(b, j),
    decreases j,
{
    if j > 0 && a.parent@[j] < j {
        let p = a.parent@[j] as int;
        lemma_same_node(a, b, p);
        lemma_same_owner(a, b, p);
    }
}

pub proof fn lemma_same_owned_text(a: Document, b: Document, k: int, n: int)
    requires
        same_doc(a, b),
        n <= a.len(),
    ensures
        owned_text(a, k, n) == owned_text(b, k, n),
    decreases n,
{
    if n > 0 {
        lemma_same_owned_text(a, b, k, n - 1);
        lemma_same_live(a, b, n - 1);
        lemma_same_node(a, b, n - 1);
        lemma_same_owner(a, b, n - 1);
    }
}

pub proof fn lemma_same_base(a: Document, b: Document, k: int)
    requires
        same_doc(a, b),
    ensures
        crate::score::base(a, k) == crate::score::base(b, k),
        crate::score::scored(a, k) == crate::score::scored(b, k),
{
    assert(a.tree().nodes.len() == a.len() && b.tree().nodes.len() == b.len());
    lemma_same_live(a, b, k);
    lemma_same_owned_text(a, b, k, a.len() as int);
    if 0 < k < a.len() {
        lemma_same_node(a, b, k);
    }
}

pub proof fn lemma_same_acc(a: Document, b: Document, k: int, n: int)
    requires
        same_doc(a, b),
    ensures
        acc_upto(a, k, n) == acc_upto(b, k, n),
    decreases n,
{
    if n > 0 {
        lemma_same_acc(a, b, k, n - 1);
        lemma_same_base(a, b, n - 1);
    }
}

pub proof fn lemma_same_score(a: Document, b: Document, k: int)
    requires
        same_doc(a, b),
    ensures
        crate::score::score(a, k) == crate::score::score(b, k),
        crate::score::selectable(a, k) == crate::score::selectable(b, k),
{
    assert(a.tree().nodes.len() == a.len() && b.tree().nodes.len() == b.len());
    lemma_same_acc(a, b, k, a.len() as int);
    lemma_same_base(a, b, k);
    lemma_same_live(a, b, k);
    if 0 < k < a.len() {
        lemma_same_node(a, b, k);
    }
}

pub proof fn lemma_same_run_end(a: Document, b: Document, r: int, c: int)
    requires
        same_doc(a, b),
        0 <= r < a.len(),
    ensures
        run_end(a, r, c) == run_end(b, r, c),
    decreases a.len() - c,
{
    assert(a.tree().nodes.len() == a.len() && b.tree().nodes.len() == b.len());
    lemma_same_node(a, b, r);
    if 0 <= c < a.len() {
        lemma_same_live(a, b, c);
        lemma_same_node(a, b, c);
        lemma_same_owned_text(a, b, c, a.len() as int);
        if a.end@[c] > c && a.end@[c] <= a.len() {
            lemma_same_run_end(a, b, r, a.end@[c] as int);
        }
    }
}

pub proof fn lemma_same_run_start(a: Document, b: Document, r: int, c: int, s: int)
    requires
        same_doc(a, b),
        0 <= r < a.len(),
    ensures
        run_start(a, r, c, s) == run_start(b, r, c, s),
    decreases r - c,
{
    assert(a.tree().nodes.len() == a.len() && b.tree().nodes.len() == b.len());
    lemma_same_node(a, b, r);
    if 0 <= c < r {
        lemma_same_live(a, b, c);
        lemma_same_node(a, b, c);
        lemma_same_owned_text(a, b, c, a.len() as int);
        if a.end@[c] > c && a.end@[c] <= r {
            lemma_same_run_start(a, b, r, a.end@[c] as int, s);
            lemma_same_run_start(a, b, r, a.end@[c] as int, a.end@[c] as int);
        }
    }
}

pub proof fn lemma_same_text(a: Document, b: Document, lo: int, j: int)
    requires
        same_doc(a, b),
        0 <= lo,
        j <= a.len(),
    ensures
        text_upto(a, lo, j) == text_upto(b, lo, j),
    decreases j - lo,
{
    if j > lo {
        lemma_same_text(a, b, lo, j - 1);
        lemma_same_live(a, b, j - 1);
        lemma_same_node(a, b, j - 1);
    }
}

pub proof fn lemma_same_first(a: Document, b: Document, q: Query, i: int, hi: int)
    requires
        same_doc(a, b),
        0 <= i,
        hi <= a.len(),
    ensures
        first_from(a, q, i, hi) == first_from(b, q, i, hi),
    decreases hi - i,
{
    if i < hi {
        lemma_same_live(a, b, i);
        lemma_same_node(a, b, i);
        lemma_same_first(a, b, q, i + 1, hi);
    }
}

pub proof fn lemma_same_next_content(a: Document, b: Document, j: int)
    requires
        same_doc(a, b),
    ensures
        next_content(a, j) == next_content(b, j),
    decreases a.len() - j,
{
    assert(a.tree().nodes.len() == a.len() && b.tree().nodes.len() == b.len());
    if 0 <= j < a.len() {
        lemma_same_live(a, b, j);
        lemma_same_node(a, b, j);
        lemma_same_next_content(a, b, j + 1);
    }
}

pub proof fn lemma_same_node_html(a: Document, b: Document, base: Option<Seq<char>>, k: int)
    requires
        same_doc(a, b),
    ensures
        node_html(a, base, k) == node_html(b, base, k),
    decreases 2 * (a.end@[k] - k),
{
    assert(a.tree().nodes.len() == a.len() && b.tree().nodes.len() == b.len());
    if 0 <= k < a.len() && a.end@[k] > k && a.end@[k] <= a.len() {
        lemma_same_live(a, b, k);
        lemma_same_node(a, b, k);
        lemma_same_next_content(a, b, k);
        lemma_same_seq_html(a, b, base, k + 1, a.end@[k] as int);
    }
}

pub proof fn lemma_same_seq_html(a: Document, b: Document, base: Option<Seq<char>>, c: int, stop: int)
    requires
        same_doc(a, b),
    ensures
        seq_html(a, base, c, stop) == seq_html(b, base, c, stop),
    decreases 2 * (stop - c) + 1,
{
    assert(a.tree().nodes.len() == a.len() && b.tree().nodes.len() == b.len());
    if 0 <= c < stop && stop <= a.len() && a.end@[c] > c && a.end@[c] <= stop {
        lemma_same_node_html(a, b, base, c);
        lemma_same_seq_html(a, b, base, a.end@[c] as int, stop);
    }
}

} // verus!
