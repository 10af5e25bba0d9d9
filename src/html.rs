//! Serialization of the content nodes back to an HTML fragment.
//!
//! Dropped nodes, comments, unwrapped wrappers and elements without text
//! (images aside) are left out; `style`, `on*` and `data-*` attributes are
//! dropped, and `href`/`src` are resolved against the base URL when given.
use vstd::prelude::*;
use crate::dom::{live, live_flags, Attr, Document, NodeKind};
use crate::parse::{matches_at, occurs_at};
use crate::tags::{is_void_tag, void_tag};
use crate::text::{all_ws, chars_of, eq_str, is_all_ws};
use crate::url::{resolve, resolved};

verus! {

fn push_all(out: &mut Vec<char>, s: &Vec<char>)
    ensures
        final(out)@ == old(out)@ + s@,
{
    let mut i: usize = 0;
    while i < s.len()
        invariant
            i <= s@.len(),
            out@ == old(out)@ + s@.subrange(0, i as int),
        decreases s@.len() - i,
    {
        out.push(s[i]);
        i = i + 1;
        assert(out@ =~= old(out)@ + s@.subrange(0, i as int));
    }
    assert(s@.subrange(0, s@.len() as int) =~= s@);
}

fn push_lit(out: &mut Vec<char>, s: &str)
    ensures
        final(out)@ == old(out)@ + s@,
{
    push_all(out, &chars_of(s));
}

/// The escaped form of one character.
pub open spec fn escape_char(c: char) -> Seq<char> {
    if c == '&' {
        "&amp;"@
    } else if c == '<' {
        "&lt;"@
    } else if c == '>' {
        "&gt;"@
    } else if c == '"' {
        "&quot;"@
    } else {
        seq![c]
    }
}

/// `s` with `&`, `<`, `>` and `"` escaped.
pub open spec fn escaped(s: Seq<char>) -> Seq<char>
    decreases s.len(),
{
    if s.len() == 0 {
        Seq::empty()
    } else {
        escaped(s.drop_last()) + escape_char(s.last())
    }
}

fn push_escaped(out: &mut Vec<char>, s: &Vec<char>)
    ensures
        final(out)@ == old(out)@ + escaped(s@),
{
    let mut i: usize = 0;
    while i < s.len()
        invariant
            i <= s@.len(),
            out@ == old(out)@ + escaped(s@.subrange(0, i as int)),
        decreases s@.len() - i,
    {
        let c = s[i];
        proof {
            assert(s@.subrange(0, i + 1).drop_last() =~= s@.subrange(0, i as int));
        }
        if c == '&' {
            push_lit(out, "&amp;");
        } else if c == '<' {
            push_lit(out, "&lt;");
        } else if c == '>' {
            push_lit(out, "&gt;");
        } else if c == '"' {
            push_lit(out, "&quot;");
        } else {
            out.push(c);
        }
        i = i + 1;
        assert(out@ =~= old(out)@ + escaped(s@.subrange(0, i as int)));
    }
    assert(s@.subrange(0, s@.len() as int) =~= s@);
}

/// Attributes that carry presentation or tracking rather than content.
pub open spec fn noise_attr(name: Seq<char>) -> bool {
    name == "style"@ || occurs_at(name, 0, "on"@) || occurs_at(name, 0, "data-"@)
}

pub fn is_noise_attr(name: &Vec<char>) -> (r: bool)
    ensures
        r == noise_attr(name@),
{
    eq_str(name, "style") || matches_at(name, 0, &chars_of("on")) || matches_at(
        name,
        0,
        &chars_of("data-"),
    )
}

/// The value an attribute is written with: links resolved when a base is given.
pub open spec fn attr_out(a: Attr, base: Option<Seq<char>>) -> Seq<char> {
    match base {
        Some(b) => if a.name@ == "href"@ || a.name@ == "src"@ {
            resolved(b, a.value@)
        } else {
            a.value@
        },
        None => a.value@,
    }
}

/// The attributes as written in an open tag.
pub open spec fn attrs_html(attrs: Seq<Attr>, base: Option<Seq<char>>) -> Seq<char>
    decreases attrs.len(),
{
    if attrs.len() == 0 {
        Seq::empty()
    } else {
        let a = attrs.last();
        attrs_html(attrs.drop_last(), base) + if noise_attr(a.name@) {
            Seq::empty()
        } else {
            " "@ + a.name@ + "=\""@ + escaped(attr_out(a, base)) + "\""@
        }
    }
}

pub open spec fn open_tag(tag: Seq<char>, attrs: Seq<Attr>, base: Option<Seq<char>>) -> Seq<char> {
    "<"@ + tag + attrs_html(attrs, base) + ">"@
}

fn push_open_tag(out: &mut Vec<char>, tag: &Vec<char>, attrs: &Vec<Attr>, base: Option<&Vec<char>>)
    ensures
        final(out)@ == old(out)@ + open_tag(
            tag@,
            attrs@,
            match base {
                Some(b) => Some(b@),
                None => None,
            },
        ),
{
    let ghost bv = match base {
        Some(b) => Some(b@),
        None => None,
    };
    push_lit(out, "<");
    push_all(out, tag);
    let ghost start = out@;
    let mut i: usize = 0;
    while i < attrs.len()
        invariant
            i <= attrs@.len(),
            out@ == start + attrs_html(attrs@.subrange(0, i as int), bv),
            bv == match base {
                Some(b) => Some(b@),
                None => None::<Seq<char>>,
            },
        decreases attrs@.len() - i,
    {
        let a = &attrs[i];
        proof {
            assert(attrs@.subrange(0, i + 1).drop_last() =~= attrs@.subrange(0, i as int));
        }
        if !is_noise_attr(&a.name) {
            push_lit(out, " ");
            push_all(out, &a.name);
            push_lit(out, "=\"");
            let is_link = eq_str(&a.name, "href") || eq_str(&a.name, "src");
            match base {
                Some(b) => {
                    if is_link {
                        push_escaped(out, &resolve(b, &a.value));
                    } else {
                        push_escaped(out, &a.value);
                    }
                },
                None => push_escaped(out, &a.value),
            }
            push_lit(out, "\"");
        }
        i = i + 1;
        assert(out@ =~= start + attrs_html(attrs@.subrange(0, i as int), bv));
    }
    assert(attrs@.subrange(0, attrs@.len() as int) =~= attrs@);
    push_lit(out, ">");
}

/// Whether node `j` is content of its own: live text that is not all
/// whitespace, or a live image.
pub open spec fn own_content(d: Document, j: int) -> bool {
    &&& live(d, j)
    &&& ((d.nodes@[j].kind == NodeKind::Text && !all_ws(d.nodes@[j].text@)) || (
    d.nodes@[j].kind == NodeKind::Element && d.nodes@[j].tag@ == "img"@))
}

/// The first node at or after `j` that is content of its own, or `d.len()`.
pub open spec fn next_content(d: Document, j: int) -> int
    decreases d.len() - j,
{
    if j < 0 || j >= d.len() {
        d.len() as int
    } else if own_content(d, j) {
        j
    } else {
        next_content(d, j + 1)
    }
}

fn next_contents(d: &Document, lv: &Vec<bool>) -> (r: Vec<usize>)
    requires
        d.wf(),
        lv@.len() == d.len(),
        forall|i: int| 0 <= i < d.len() ==> lv@[i] == live(*d, i),
    ensures
        r@.len() == d.len(),
        forall|j: int| 0 <= j < d.len() ==> #[trigger] r@[j] == next_content(*d, j),
{
    let n = d.nodes.len();
    let mut r: Vec<usize> = Vec::new();
    let mut k: usize = 0;
    while k < n
        invariant
            r@.len() == k,
            k <= n,
        decreases n - k,
    {
        r.push(n);
        k = k + 1;
    }
    let mut j = n;
    while j > 0
        invariant
            d.wf(),
            n == d.len(),
            j <= n,
            r@.len() == n,
            lv@.len() == n,
            forall|i: int| 0 <= i < n ==> lv@[i] == live(*d, i),
            forall|i: int| j <= i < n ==> #[trigger] r@[i] == next_content(*d, i),
        decreases j,
    {
        j = j - 1;
        let node = &d.nodes[j];
        let own = lv[j] && ((node.kind == NodeKind::Text && !is_all_ws(&node.text)) || (node.kind
            == NodeKind::Element && eq_str(&node.tag, "img")));
        assert(own == own_content(*d, j as int));
        assert(next_content(*d, n as int) == n);
        if j + 1 < n {
            assert(r@[j + 1] == next_content(*d, j + 1));
        }
        let v = if own {
            j
        } else if j + 1 < n {
            r[j + 1]
        } else {
            n
        };
        assert(v == next_content(*d, j as int));
        r.set(j, v);
    }
    r
}

/// The HTML of node `k` and its subtree.
pub open spec fn node_html(d: Document, base: Option<Seq<char>>, k: int) -> Seq<char>
    decreases 2 * (d.end@[k] - k),
{
    if k < 0 || k >= d.len() || d.end@[k] <= k || d.end@[k] > d.len() || !live(d, k) {
        Seq::empty()
    } else if d.nodes@[k].kind == NodeKind::Text {
        escaped(d.nodes@[k].text@)
    } else if d.nodes@[k].kind == NodeKind::Comment {
        Seq::empty()
    } else if d.unwrapped@[k] {
        seq_html(d, base, k + 1, d.end@[k] as int)
    } else if next_content(d, k) >= d.end@[k] {
        Seq::empty()
    } else if void_tag(d.nodes@[k].tag@) {
        open_tag(d.nodes@[k].tag@, d.nodes@[k].attrs@, base)
    } else {
        open_tag(d.nodes@[k].tag@, d.nodes@[k].attrs@, base) + seq_html(
            d,
            base,
            k + 1,
            d.end@[k] as int,
        ) + "</"@ + d.nodes@[k].tag@ + ">"@
    }
}

/// The HTML of the sibling subtrees from `c` up to `stop`.
pub open spec fn seq_html(d: Document, base: Option<Seq<char>>, c: int, stop: int) -> Seq<char>
    decreases 2 * (stop - c) + 1,
{
    if c < 0 || c >= stop || stop > d.len() || d.end@[c] <= c || d.end@[c] > stop {
        Seq::empty()
    } else {
        node_html(d, base, c) + seq_html(d, base, d.end@[c] as int, stop)
    }
}

fn render_node(
    d: &Document,
    lv: &Vec<bool>,
    nc: &Vec<usize>,
    base: Option<&Vec<char>>,
    k: usize,
    out: &mut Vec<char>,
)
    requires
        d.wf(),
        k < d.len(),
        lv@.len() == d.len(),
        forall|i: int| 0 <= i < d.len() ==> lv@[i] == live(*d, i),
        nc@.len() == d.len(),
        forall|j: int| 0 <= j < d.len() ==> #[trigger] nc@[j] == next_content(*d, j),
    ensures
        final(out)@ == old(out)@ + node_html(
            *d,
            match base {
                Some(b) => Some(b@),
                None => None,
            },
            k as int,
        ),
    decreases 2 * (d.end@[k as int] - k),
{
    let node = &d.nodes[k];
    let e = d.end[k];
    if !lv[k] {
        assert(out@ =~= old(out)@ + Seq::<char>::empty());
    } else if node.kind == NodeKind::Text {
        push_escaped(out, &node.text);
    } else if node.kind == NodeKind::Comment {
        assert(out@ =~= old(out)@ + Seq::<char>::empty());
    } else if d.unwrapped[k] {
        render_seq(d, lv, nc, base, k + 1, e, out);
    } else if nc[k] >= e {
        assert(out@ =~= old(out)@ + Seq::<char>::empty());
    } else if is_void_tag(&node.tag) {
        push_open_tag(out, &node.tag, &node.attrs, base);
    } else {
        push_open_tag(out, &node.tag, &node.attrs, base);
        render_seq(d, lv, nc, base, k + 1, e, out);
        push_lit(out, "</");
        push_all(out, &node.tag);
        push_lit(out, ">");
        assert(out@ =~= old(out)@ + node_html(
            *d,
            match base {
                Some(b) => Some(b@),
                None => None,
            },
            k as int,
        ));
    }
}

fn render_seq(
    d: &Document,
    lv: &Vec<bool>,
    nc: &Vec<usize>,
    base: Option<&Vec<char>>,
    c: usize,
    stop: usize,
    out: &mut Vec<char>,
)
    requires
        d.wf(),
        stop <= d.len(),
        lv@.len() == d.len(),
        forall|i: int| 0 <= i < d.len() ==> lv@[i] == live(*d, i),
        nc@.len() == d.len(),
        forall|j: int| 0 <= j < d.len() ==> #[trigger] nc@[j] == next_content(*d, j),
    ensures
        final(out)@ == old(out)@ + seq_html(
            *d,
            match base {
                Some(b) => Some(b@),
                None => None,
            },
            c as int,
            stop as int,
        ),
    decreases 2 * (stop - c) + 1,
{
    if c >= stop || d.end[c] > stop {
        assert(out@ =~= old(out)@ + Seq::<char>::empty());
        return;
    }
    render_node(d, lv, nc, base, c, out);
    render_seq(d, lv, nc, base, d.end[c], stop, out);
    assert(out@ =~= old(out)@ + seq_html(
        *d,
        match base {
            Some(b) => Some(b@),
            None => None,
        },
        c as int,
        stop as int,
    ));
}

/// Renders the sibling subtrees from `lo` up to `hi` as an HTML fragment.
pub fn render_html(d: &Document, lo: usize, hi: usize, base: Option<&Vec<char>>) -> (r: Vec<char>)
    requires
        d.wf(),
        lo <= hi <= d.len(),
    ensures
        r@ == seq_html(
            *d,
            match base {
                Some(b) => Some(b@),
                None => None,
            },
            lo as int,
            hi as int,
        ),
{
    let lv = live_flags(d);
    let nc = next_contents(d, &lv);
    let mut out: Vec<char> = Vec::new();
    render_seq(d, &lv, &nc, base, lo, hi, &mut out);
    assert(out@ =~= seq_html(
        *d,
        match base {
            Some(b) => Some(b@),
            None => None,
        },
        lo as int,
        hi as int,
    ));
    out
}

} // verus!
