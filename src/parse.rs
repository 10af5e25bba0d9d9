//! A tolerant HTML parser producing a pre-order arena.
use vstd::prelude::*;
use crate::dom::{
    add_tree, attrs_view, close_tree, root_tree, Attr, AttrView, Document, Node, NodeKind,
    NodeView, Tree,
};
use crate::tags::{
    closes_paragraph, is_closing_paragraph, is_raw_text_tag, is_void_tag, raw_text_tag, void_tag,
};
use crate::text::{chars_of, eq_chars, eq_str, is_ws, is_ws_char, lower, lower_char, lower_seq};
use crate::url::index_of;

verus! {

/// Inputs longer than this many characters are refused.
pub const MAX_INPUT_CHARS: usize = 1073741824;

#[derive(Clone, Copy, Debug, PartialEq, Eq, Structural)]
pub enum ParseError {
    TooLarge,
}

/// Whether `pat` occurs in `s` at `i`.
pub open spec fn occurs_at(s: Seq<char>, i: int, pat: Seq<char>) -> bool {
    0 <= i && i + pat.len() <= s.len() && s.subrange(i, i + pat.len()) == pat
}

pub fn matches_at(s: &Vec<char>, i: usize, pat: &Vec<char>) -> (r: bool)
    ensures
        r == occurs_at(s@, i as int, pat@),
{
    let n = pat.len();
    if i > s.len() || n > s.len() - i {
        return false;
    }
    let slen = s.len();
    let mut k: usize = 0;
    while k < n
        invariant
            k <= n,
            slen == s@.len(),
            n == pat@.len(),
            i + n <= s@.len(),
            forall|j: int| 0 <= j < k ==> s@[i + j] == pat@[j],
        decreases n - k,
    {
        assert(i + k < s@.len());
        if s[i + k] != pat[k] {
            assert(s@.subrange(i as int, i + n)[k as int] != pat@[k as int]);
            return false;
        }
        k = k + 1;
    }
    assert(s@.subrange(i as int, i + n) =~= pat@);
    true
}

/// The first occurrence of `pat` at or after `from`, or `s.len()` when none.
pub fn find_from(s: &Vec<char>, from: usize, pat: &Vec<char>) -> (r: usize)
    requires
        from <= s@.len(),
    ensures
        from <= r <= s@.len(),
        r < s@.len() ==> occurs_at(s@, r as int, pat@),
        forall|j: int| from <= j < r ==> !occurs_at(s@, j, pat@),
        r == crate::url::occurrence(s@, pat@, from as int),
{
    let mut i = from;
    while i < s.len()
        invariant
            from <= i <= s@.len(),
            forall|j: int| from <= j < i ==> !occurs_at(s@, j, pat@),
            crate::url::occurrence(s@, pat@, i as int) == crate::url::occurrence(
                s@,
                pat@,
                from as int,
            ),
        decreases s@.len() - i,
    {
        if matches_at(s, i, pat) {
            return i;
        }
        i = i + 1;
    }
    i
}

/// The first index at or after `from` holding `c`, or `s.len()`.
pub fn find_char(s: &Vec<char>, from: usize, c: char) -> (r: usize)
    requires
        from <= s@.len(),
    ensures
        from <= r <= s@.len(),
        r < s@.len() ==> s@[r as int] == c,
        forall|j: int| from <= j < r ==> s@[j] != c,
        r == index_of(s@, c, from as int),
{
    let mut i = from;
    while i < s.len()
        invariant
            from <= i <= s@.len(),
            forall|j: int| from <= j < i ==> s@[j] != c,
            index_of(s@, c, i as int) == index_of(s@, c, from as int),
        decreases s@.len() - i,
    {
        if s[i] == c {
            return i;
        }
        i = i + 1;
    }
    i
}

pub open spec fn name_char(c: char) -> bool {
    ('a' <= c && c <= 'z') || ('A' <= c && c <= 'Z') || ('0' <= c && c <= '9') || c == '-'
        || c == '_' || c == ':'
}

fn is_name_char(c: char) -> (r: bool)
    ensures
        r == name_char(c),
{
    ('a' <= c && c <= 'z') || ('A' <= c && c <= 'Z') || ('0' <= c && c <= '9') || c == '-'
        || c == '_' || c == ':'
}

/// The end of the name starting at `i`.
pub open spec fn name_end(s: Seq<char>, i: int) -> int
    decreases s.len() - i,
{
    if 0 <= i < s.len() && name_char(s[i]) {
        name_end(s, i + 1)
    } else {
        i
    }
}

/// The end of the whitespace starting at `i`.
pub open spec fn ws_end(s: Seq<char>, i: int) -> int
    decreases s.len() - i,
{
    if 0 <= i < s.len() && is_ws(s[i]) {
        ws_end(s, i + 1)
    } else {
        i
    }
}

/// The end of an unquoted attribute value starting at `i`.
pub open spec fn value_end(s: Seq<char>, i: int) -> int
    decreases s.len() - i,
{
    if 0 <= i < s.len() && !is_ws(s[i]) && s[i] != '>' {
        value_end(s, i + 1)
    } else {
        i
    }
}

/// Reads a lower-cased name starting at `i`; returns it and the index after it.
fn read_name(s: &Vec<char>, i: usize) -> (r: (Vec<char>, usize))
    requires
        i <= s@.len(),
    ensures
        i <= r.1 <= s@.len(),
        r.0@.len() == r.1 - i,
        i < s@.len() && name_char(s@[i as int]) ==> r.1 > i,
        r.1 == name_end(s@, i as int),
        r.0@ == lower_seq(s@.subrange(i as int, r.1 as int)),
{
    let mut j = i;
    let mut name: Vec<char> = Vec::new();
    while j < s.len() && is_name_char(s[j])
        invariant
            i <= j <= s@.len(),
            name@.len() == j - i,
            name_end(s@, j as int) == name_end(s@, i as int),
            name@ == lower_seq(s@.subrange(i as int, j as int)),
        decreases s@.len() - j,
    {
        name.push(lower_char(s[j]));
        j = j + 1;
        assert(name@ =~= lower_seq(s@.subrange(i as int, j as int)));
    }
    (name, j)
}

fn skip_ws(s: &Vec<char>, i: usize) -> (r: usize)
    requires
        i <= s@.len(),
    ensures
        i <= r <= s@.len(),
        r == ws_end(s@, i as int),
{
    let mut j = i;
    while j < s.len() && is_ws_char(s[j])
        invariant
            i <= j <= s@.len(),
            ws_end(s@, j as int) == ws_end(s@, i as int),
        decreases s@.len() - j,
    {
        j = j + 1;
    }
    j
}

/// The character an entity reference at `i` stands for, and its length.
pub open spec fn entity(s: Seq<char>, i: int) -> Option<(char, int)> {
    if occurs_at(s, i, "&amp;"@) {
        Some(('&', 5))
    } else if occurs_at(s, i, "&lt;"@) {
        Some(('<', 4))
    } else if occurs_at(s, i, "&gt;"@) {
        Some(('>', 4))
    } else if occurs_at(s, i, "&quot;"@) {
        Some(('"', 6))
    } else if occurs_at(s, i, "&#39;"@) {
        Some(('\'', 5))
    } else if occurs_at(s, i, "&apos;"@) {
        Some(('\'', 6))
    } else if occurs_at(s, i, "&nbsp;"@) {
        Some((' ', 6))
    } else {
        None
    }
}

fn entity_at(s: &Vec<char>, i: usize) -> (r: Option<(char, usize)>)
    ensures
        match r {
            Some((c, k)) => entity(s@, i as int) == Some((c, k as int)) && 0 < k,
            None => entity(s@, i as int).is_none(),
        },
{
    if matches_at(s, i, &chars_of("&amp;")) {
        Some(('&', 5))
    } else if matches_at(s, i, &chars_of("&lt;")) {
        Some(('<', 4))
    } else if matches_at(s, i, &chars_of("&gt;")) {
        Some(('>', 4))
    } else if matches_at(s, i, &chars_of("&quot;")) {
        Some(('"', 6))
    } else if matches_at(s, i, &chars_of("&#39;")) {
        Some(('\'', 5))
    } else if matches_at(s, i, &chars_of("&apos;")) {
        Some(('\'', 6))
    } else if matches_at(s, i, &chars_of("&nbsp;")) {
        Some((' ', 6))
    } else {
        None
    }
}

/// The characters of `s[i..b]` with entity references decoded; a reference
/// that would run past `b`, or an unknown one, is kept as written.
pub open spec fn decoded(s: Seq<char>, i: int, b: int) -> Seq<char>
    decreases b - i,
{
    if i >= b {
        Seq::empty()
    } else {
        match entity(s, i) {
            Some((c, k)) => if s[i] == '&' && 0 < k <= b - i {
                seq![c] + decoded(s, i + k, b)
            } else {
                seq![s[i]] + decoded(s, i + 1, b)
            },
            None => seq![s[i]] + decoded(s, i + 1, b),
        }
    }
}

/// The characters of `s[a..b]` with entity references decoded.
pub fn decode(s: &Vec<char>, a: usize, b: usize) -> (r: Vec<char>)
    requires
        a <= b <= s@.len(),
    ensures
        r@ == decoded(s@, a as int, b as int),
        r@.len() <= b - a,
{
    let mut out: Vec<char> = Vec::new();
    let mut i = a;
    while i < b
        invariant
            a <= i <= b,
            b <= s@.len(),
            out@.len() <= i - a,
            out@ + decoded(s@, i as int, b as int) == decoded(s@, a as int, b as int),
        decreases b - i,
    {
        if s[i] == '&' {
            match entity_at(s, i) {
                Some((c, k)) => {
                    if k <= b - i {
                        out.push(c);
                        i = i + k;
                    } else {
                        out.push('&');
                        i = i + 1;
                    }
                },
                None => {
                    out.push('&');
                    i = i + 1;
                },
            }
        } else {
            out.push(s[i]);
            i = i + 1;
        }
    }
    assert(out@ + decoded(s@, b as int, b as int) =~= out@);
    out
}

/// The attribute `name` with `value` as a view.
pub open spec fn attr_of(name: Seq<char>, value: Seq<char>) -> AttrView {
    AttrView { name, value }
}

/// The value starting after the `=` at `m0`, and the index after it.
pub open spec fn value_at(s: Seq<char>, m0: int) -> (Seq<char>, int) {
    let m1 = ws_end(s, m0 + 1);
    if m1 < s.len() && (s[m1] == '"' || s[m1] == '\'') {
        let q = index_of(s, s[m1], m1 + 1);
        (decoded(s, m1 + 1, q), if q < s.len() {
            q + 1
        } else {
            q
        })
    } else {
        let e = value_end(s, m1);
        (decoded(s, m1, e), e)
    }
}

/// The attributes read from `j` to the end of the tag, after `acc`; the
/// index after the tag; whether the tag closed itself.
pub open spec fn attrs_from(s: Seq<char>, j: int, acc: Seq<AttrView>, sc: bool) -> (
    Seq<AttrView>,
    int,
    bool,
)
    decreases s.len() - j,
{
    if j < 0 || j >= s.len() {
        (acc, j, sc)
    } else {
        let j1 = ws_end(s, j);
        if j1 < j || j1 >= s.len() {
            (acc, j1, sc)
        } else if s[j1] == '>' {
            (acc, j1 + 1, sc)
        } else if s[j1] == '/' {
            attrs_from(s, j1 + 1, acc, true)
        } else {
            let k = name_end(s, j1);
            if k <= j1 {
                attrs_from(s, j1 + 1, acc, sc)
            } else {
                let name = lower_seq(s.subrange(j1, k));
                let m0 = ws_end(s, k);
                let (value, m) = if m0 < s.len() && s[m0] == '=' {
                    value_at(s, m0)
                } else {
                    (Seq::empty(), k)
                };
                if m <= j || m > s.len() {
                    (acc, j, sc)
                } else {
                    attrs_from(s, m, acc.push(attr_of(name, value)), false)
                }
            }
        }
    }
}

proof fn lemma_scan_bounds(s: Seq<char>, i: int)
    requires
        0 <= i <= s.len(),
    ensures
        i <= ws_end(s, i) <= s.len(),
        i <= name_end(s, i) <= s.len(),
        i <= value_end(s, i) <= s.len(),
    decreases s.len() - i,
{
    if i < s.len() {
        lemma_scan_bounds(s, i + 1);
    }
}

/// Reads attributes from `i` up to the end of the tag; returns them, the index
/// after the tag and whether the tag closed itself.
fn read_attrs(s: &Vec<char>, i: usize) -> (r: (Vec<Attr>, usize, bool))
    requires
        i <= s@.len(),
    ensures
        i <= r.1 <= s@.len(),
        (attrs_view(r.0@), r.1 as int, r.2) == attrs_from(s@, i as int, Seq::empty(), false),
{
    let mut attrs: Vec<Attr> = Vec::new();
    let mut j = i;
    let mut self_closing = false;
    assert(attrs_view(attrs@) =~= Seq::<AttrView>::empty());
    while j < s.len()
        invariant
            i <= j <= s@.len(),
            attrs_from(s@, j as int, attrs_view(attrs@), self_closing) == attrs_from(
                s@,
                i as int,
                Seq::empty(),
                false,
            ),
        decreases s@.len() - j,
    {
        let j1 = skip_ws(s, j);
        if j1 >= s.len() {
            return (attrs, j1, self_closing);
        }
        if s[j1] == '>' {
            return (attrs, j1 + 1, self_closing);
        }
        if s[j1] == '/' {
            self_closing = true;
            j = j1 + 1;
        } else {
            let (name, k) = read_name(s, j1);
            if k == j1 {
                j = j1 + 1;
            } else {
                let m0 = skip_ws(s, k);
                let mut value: Vec<char> = Vec::new();
                let mut m = k;
                if m0 < s.len() && s[m0] == '=' {
                    let m1 = skip_ws(s, m0 + 1);
                    if m1 < s.len() && (s[m1] == '"' || s[m1] == '\'') {
                        let q = find_char(s, m1 + 1, s[m1]);
                        value = decode(s, m1 + 1, q);
                        m = if q < s.len() { q + 1 } else { q };
                    } else {
                        let mut e = m1;
                        while e < s.len() && !is_ws_char(s[e]) && s[e] != '>'
                            invariant
                                m1 <= e <= s@.len(),
                                value_end(s@, e as int) == value_end(s@, m1 as int),
                            decreases s@.len() - e,
                        {
                            e = e + 1;
                        }
                        value = decode(s, m1, e);
                        m = e;
                    }
                    assert((value@, m as int) == value_at(s@, m0 as int));
                }
                let ghost before = attrs@;
                let ghost nv = attr_of(name@, value@);
                attrs.push(Attr { name, value });
                assert(attrs_view(attrs@) =~= attrs_view(before).push(nv));
                self_closing = false;
                j = m;
            }
        }
    }
    (attrs, j, self_closing)
}

/// Closes the open elements above position `keep` of the stack `st`.
pub open spec fn close_to_spec(t: Tree, st: Seq<usize>, keep: int) -> (Tree, Seq<usize>)
    decreases st.len(),
{
    if st.len() <= keep || st.len() == 0 {
        (t, st)
    } else {
        close_to_spec(close_tree(t, st.last() as int), st.drop_last(), keep)
    }
}

/// The highest position below `m` (and above the root's) of an open element
/// named `name`, or 0.
pub open spec fn find_open(t: Tree, st: Seq<usize>, name: Seq<char>, m: int) -> int
    decreases m,
{
    if m <= 1 {
        0
    } else if t.nodes[st[m - 1] as int].tag == name {
        m - 1
    } else {
        find_open(t, st, name, m - 1)
    }
}

pub open spec fn leaf(kind: NodeKind, text: Seq<char>) -> NodeView {
    NodeView { kind, tag: Seq::empty(), attrs: Seq::empty(), text }
}

pub open spec fn element(tag: Seq<char>, attrs: Seq<AttrView>) -> NodeView {
    NodeView { kind: NodeKind::Element, tag, attrs, text: Seq::empty() }
}

/// One step of the parser at `i`: the new tree, stack and position.
pub open spec fn step(s: Seq<char>, t: Tree, st: Seq<usize>, i: int) -> (Tree, Seq<usize>, int) {
    let n = s.len() as int;
    let top = st.last();
    if s[i] == '<' && occurs_at(s, i, "<!--"@) {
        let from = if i + 4 <= n {
            i + 4
        } else {
            n
        };
        let k = crate::url::occurrence(s, "-->"@, from);
        (
            add_tree(t, leaf(NodeKind::Comment, decoded(s, from, k)), top),
            st,
            if k + 3 <= n {
                k + 3
            } else {
                n
            },
        )
    } else if s[i] == '<' && i + 1 < n && (s[i + 1] == '!' || s[i + 1] == '?') {
        let k = index_of(s, '>', i);
        (t, st, if k < n {
            k + 1
        } else {
            n
        })
    } else if s[i] == '<' && i + 1 < n && s[i + 1] == '/' {
        let k = name_end(s, i + 2);
        let name = lower_seq(s.subrange(i + 2, k));
        let g = index_of(s, '>', k);
        let i2 = if g < n {
            g + 1
        } else {
            n
        };
        let f = find_open(t, st, name, st.len() as int);
        if name.len() > 0 && f >= 1 {
            let (t2, st2) = close_to_spec(t, st, f);
            (t2, st2, i2)
        } else {
            (t, st, i2)
        }
    } else if s[i] == '<' && i + 1 < n && name_char(s[i + 1]) {
        let k = name_end(s, i + 1);
        let tag = lower_seq(s.subrange(i + 1, k));
        let (attrs, j, sc) = attrs_from(s, k, Seq::empty(), false);
        let (t1, st1) = if t.nodes[top as int].tag == "p"@ && st.len() > 1 && closes_paragraph(
            tag,
        ) {
            close_to_spec(t, st, st.len() - 1)
        } else {
            (t, st)
        };
        let e = t1.nodes.len();
        let t2 = add_tree(t1, element(tag, attrs), st1.last());
        if raw_text_tag(tag) {
            let rc = crate::url::occurrence(s, "</"@ + tag, j);
            let text = if tag == "script"@ || tag == "style"@ {
                s.subrange(j, rc)
            } else {
                decoded(s, j, rc)
            };
            let t3 = if text.len() > 0 {
                add_tree(t2, leaf(NodeKind::Text, text), e as usize)
            } else {
                t2
            };
            (close_tree(t3, e as int), st1, rc)
        } else {
            (t2, if !void_tag(tag) && !sc {
                st1.push(e as usize)
            } else {
                st1
            }, j)
        }
    } else {
        let k = if s[i] == '<' {
            index_of(s, '<', i + 1)
        } else {
            index_of(s, '<', i)
        };
        (add_tree(t, leaf(NodeKind::Text, decoded(s, i, k)), top), st, k)
    }
}

/// The parser run from position `i` with tree `t` and open elements `st`.
pub open spec fn run(s: Seq<char>, t: Tree, st: Seq<usize>, i: int) -> (Tree, Seq<usize>)
    decreases s.len() - i,
{
    if i < 0 || i >= s.len() || st.len() == 0 {
        (t, st)
    } else {
        let (t2, st2, i2) = step(s, t, st, i);
        if i2 <= i || i2 > s.len() {
            (t2, st2)
        } else {
            run(s, t2, st2, i2)
        }
    }
}

/// The tree that parsing `s` builds: the steps from the start, then every
/// element still open closed at the end.
pub open spec fn parsed(s: Seq<char>) -> Tree {
    let (t, st) = run(s, root_tree(), seq![0usize], 0);
    close_tree(close_to_spec(t, st, 1).0, 0)
}

/// The invariant of the parse loop.
pub open spec fn parsing(d: Document, stack: Seq<usize>) -> bool {
    &&& d.shaped()
    &&& d.unmarked()
    &&& stack.len() >= 1
    &&& stack[0] == 0
    &&& forall|k: int| 0 <= k < stack.len() ==> #[trigger] stack[k] < d.len()
    &&& forall|k: int| 0 <= k < stack.len() ==> d.is_elem(#[trigger] stack[k] as int)
}

/// Closes the open elements above position `keep` of the stack.
fn close_to(d: &mut Document, stack: &mut Vec<usize>, keep: usize)
    requires
        parsing(*old(d), old(stack)@),
        1 <= keep <= old(stack)@.len(),
    ensures
        parsing(*final(d), final(stack)@),
        final(stack)@.len() == keep,
        final(d).nodes@ == old(d).nodes@,
        final(d).parent@ == old(d).parent@,
        (final(d).tree(), final(stack)@) == close_to_spec(old(d).tree(), old(stack)@, keep as int),
{
    while stack.len() > keep
        invariant
            parsing(*d, stack@),
            1 <= keep <= stack@.len(),
            d.nodes@ == old(d).nodes@,
            d.parent@ == old(d).parent@,
            close_to_spec(d.tree(), stack@, keep as int) == close_to_spec(
                old(d).tree(),
                old(stack)@,
                keep as int,
            ),
        decreases stack@.len(),
    {
        let ghost st = stack@;
        let top = stack.pop().unwrap();
        assert(stack@ == st.drop_last());
        d.close_node(top);
    }
}

/// The parse loop over the characters of a document.
#[verifier::rlimit(100)]
pub fn parse_chars(s: &Vec<char>) -> (d: Document)
    requires
        s@.len() <= MAX_INPUT_CHARS,
    ensures
        d.wf(),
        d.unmarked(),
        d.tree() == parsed(s@),
{
    let n = s.len();
    let mut d = Document::new_root();
    let mut stack: Vec<usize> = vec![0];
    let mut i: usize = 0;
    assert(stack@ =~= seq![0usize]);
    while i < n
        invariant
            n == s@.len(),
            n <= MAX_INPUT_CHARS,
            i <= n,
            d.len() <= i + 1,
            parsing(d, stack@),
            run(s@, d.tree(), stack@, i as int) == run(s@, root_tree(), seq![0usize], 0),
        decreases n - i,
    {
        let ghost t0 = d.tree();
        let ghost st0 = stack@;
        let ghost i0 = i as int;
        let top = stack[stack.len() - 1];
        if s[i] == '<' && matches_at(s, i, &chars_of("<!--")) {
            let from = if i + 4 <= n { i + 4 } else { n };
            let k = find_from(s, from, &chars_of("-->"));
            let text = decode(s, from, k);
            let node = Node { kind: NodeKind::Comment, tag: Vec::new(), attrs: Vec::new(), text };
            proof {
                assert(node.tag@ =~= Seq::<char>::empty());
                assert(attrs_view(node.attrs@) =~= Seq::<AttrView>::empty());
            }
            d.add_node(node, top);
            i = if k + 3 <= n { k + 3 } else { n };
        } else if s[i] == '<' && i + 1 < n && (s[i + 1] == '!' || s[i + 1] == '?') {
            let k = find_char(s, i, '>');
            i = if k < n { k + 1 } else { n };
        } else if s[i] == '<' && i + 1 < n && s[i + 1] == '/' {
            let (name, k) = read_name(s, i + 2);
            let g = find_char(s, k, '>');
            i = if g < n { g + 1 } else { n };
            let mut m = stack.len();
            while m > 1 && !eq_chars(&d.nodes[stack[m - 1]].tag, &name)
                invariant
                    1 <= m <= stack@.len(),
                    parsing(d, stack@),
                    find_open(d.tree(), stack@, name@, m as int) == find_open(
                        d.tree(),
                        stack@,
                        name@,
                        stack@.len() as int,
                    ),
                decreases m,
            {
                m = m - 1;
            }
            if name.len() > 0 && m > 1 {
                close_to(&mut d, &mut stack, m - 1);
            }
        } else if s[i] == '<' && i + 1 < n && is_name_char(s[i + 1]) {
            let (tag, k) = read_name(s, i + 1);
            let (attrs, j, self_closing) = read_attrs(s, k);
            if eq_str(&d.nodes[top].tag, "p") && stack.len() > 1 && is_closing_paragraph(&tag) {
                let keep = stack.len() - 1;
                close_to(&mut d, &mut stack, keep);
            }
            let parent = stack[stack.len() - 1];
            let is_void = is_void_tag(&tag);
            let is_raw = is_raw_text_tag(&tag);
            let raw_close = if is_raw {
                let mut pat = chars_of("</");
                let mut t: usize = 0;
                while t < tag.len()
                    invariant
                        t <= tag@.len(),
                        pat@ == "</"@ + tag@.subrange(0, t as int),
                    decreases tag@.len() - t,
                {
                    pat.push(tag[t]);
                    t = t + 1;
                    assert(pat@ =~= "</"@ + tag@.subrange(0, t as int));
                }
                assert(tag@.subrange(0, tag@.len() as int) =~= tag@);
                find_from(s, j, &pat)
            } else {
                j
            };
            let is_script = eq_str(&tag, "script") || eq_str(&tag, "style");
            let ghost tagv = tag@;
            let ghost attrsv = attrs_view(attrs@);
            let node = Node { kind: NodeKind::Element, tag, attrs, text: Vec::new() };
            proof {
                assert(node.text@ =~= Seq::<char>::empty());
                assert(crate::dom::node_view(node) == element(tagv, attrsv));
            }
            let e = d.add_node(node, parent);
            if is_raw {
                let text = if is_script {
                    let mut raw: Vec<char> = Vec::new();
                    let mut t = j;
                    while t < raw_close
                        invariant
                            j <= t <= raw_close,
                            raw_close <= n,
                            n == s@.len(),
                            raw@ == s@.subrange(j as int, t as int),
                        decreases raw_close - t,
                    {
                        raw.push(s[t]);
                        t = t + 1;
                        assert(raw@ =~= s@.subrange(j as int, t as int));
                    }
                    raw
                } else {
                    decode(s, j, raw_close)
                };
                if text.len() > 0 {
                    let tn = Node { kind: NodeKind::Text, tag: Vec::new(), attrs: Vec::new(), text };
                    proof {
                        assert(tn.tag@ =~= Seq::<char>::empty());
                        assert(attrs_view(tn.attrs@) =~= Seq::<AttrView>::empty());
                    }
                    d.add_node(tn, e);
                }
                d.close_node(e);
                i = raw_close;
            } else {
                if !is_void && !self_closing {
                    stack.push(e);
                }
                i = j;
            }
        } else {
            let k = if s[i] == '<' { find_char(s, i + 1, '<') } else { find_char(s, i, '<') };
            let text = decode(s, i, k);
            let node = Node { kind: NodeKind::Text, tag: Vec::new(), attrs: Vec::new(), text };
            proof {
                assert(node.tag@ =~= Seq::<char>::empty());
                assert(attrs_view(node.attrs@) =~= Seq::<AttrView>::empty());
            }
            d.add_node(node, top);
            i = k;
        }
        proof {
            assert(step(s@, t0, st0, i0) == (d.tree(), stack@, i as int));
        }
    }
    close_to(&mut d, &mut stack, 1);
    d.close_node(0);
    d
}

/// Parses `html` into a document tree, refusing oversized input.
pub fn parse(html: &str) -> (r: Result<Document, ParseError>)
    ensures
        html@.len() > MAX_INPUT_CHARS <==> r is Err,
        r matches Ok(d) ==> d.wf() && d.unmarked() && d.tree() == parsed(html@),
{
    let s = chars_of(html);
    if s.len() > MAX_INPUT_CHARS {
        Err(ParseError::TooLarge)
    } else {
        Ok(parse_chars(&s))
    }
}

} // verus!
