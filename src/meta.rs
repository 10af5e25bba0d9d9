//! Title and byline extraction.
use vstd::prelude::*;
use crate::clean::{contains, contains_chars};
use crate::dom::{attr_value, get_attr, live, live_flags, Document, NodeKind};
use crate::render::{plain_text, plain_text_of};
use crate::text::{chars_of, eq_str, is_ws, is_ws_char, lower_seq};

verus! {

/// The kinds of node the metadata heuristics look for.
#[derive(Clone, Copy, Debug, PartialEq, Eq, Structural)]
pub enum Query {
    /// `<meta property="og:title" content=..>`
    OgTitle,
    /// `<meta name="author" content=..>`
    AuthorMeta,
    /// `<title>`
    TitleTag,
    /// A live `<h1>`.
    Heading,
    /// A live element with `rel="author"`.
    RelAuthor,
    /// A live element whose class or id mentions a byline or an author.
    BylineHint,
}

pub open spec fn meta_with(d: Document, k: int, key: Seq<char>, val: Seq<char>) -> bool {
    &&& d.nodes@[k].kind == NodeKind::Element
    &&& d.nodes@[k].tag@ == "meta"@
    &&& attr_value(d.nodes@[k].attrs@, key) == Some(val)
    &&& attr_value(d.nodes@[k].attrs@, "content"@).is_some()
}

pub open spec fn byline_hint(v: Option<Seq<char>>) -> bool {
    match v {
        Some(s) => contains(lower_seq(s), "byline"@) || contains(lower_seq(s), "author"@),
        None => false,
    }
}

/// Whether node `k` answers query `q`.
pub open spec fn picks(d: Document, q: Query, k: int) -> bool {
    let n = d.nodes@[k];
    match q {
        Query::OgTitle => meta_with(d, k, "property"@, "og:title"@),
        Query::AuthorMeta => meta_with(d, k, "name"@, "author"@),
        Query::TitleTag => n.kind == NodeKind::Element && n.tag@ == "title"@,
        Query::Heading => n.kind == NodeKind::Element && n.tag@ == "h1"@ && live(d, k),
        Query::RelAuthor => n.kind == NodeKind::Element && live(d, k) && attr_value(n.attrs@, "rel"@)
            == Some("author"@),
        Query::BylineHint => n.kind == NodeKind::Element && live(d, k) && (byline_hint(
            attr_value(n.attrs@, "class"@),
        ) || byline_hint(attr_value(n.attrs@, "id"@))),
    }
}

/// The first node of `i .. hi` answering `q`, or `hi`.
pub open spec fn first_from(d: Document, q: Query, i: int, hi: int) -> int
    decreases hi - i,
{
    if i >= hi {
        hi
    } else if picks(d, q, i) {
        i
    } else {
        first_from(d, q, i + 1, hi)
    }
}

fn hint_of(v: Option<&Vec<char>>) -> (r: bool)
    ensures
        r == byline_hint(
            match v {
                Some(s) => Some(s@),
                None => None,
            },
        ),
{
    match v {
        Some(s) => {
            let l = crate::score::lowered(s);
            contains_chars(&l, &chars_of("byline")) || contains_chars(&l, &chars_of("author"))
        },
        None => false,
    }
}

fn meta_with_exec(d: &Document, k: usize, key: &str, val: &str) -> (r: bool)
    requires
        k < d.len(),
    ensures
        r == meta_with(*d, k as int, key@, val@),
{
    let n = &d.nodes[k];
    if n.kind != NodeKind::Element || !eq_str(&n.tag, "meta") {
        return false;
    }
    let has_key = match get_attr(&n.attrs, key) {
        Some(v) => eq_str(v, val),
        None => false,
    };
    has_key && get_attr(&n.attrs, "content").is_some()
}

fn picks_exec(d: &Document, lv: &Vec<bool>, q: Query, k: usize) -> (r: bool)
    requires
        d.wf(),
        k < d.len(),
        lv@.len() == d.len(),
        forall|i: int| 0 <= i < d.len() ==> lv@[i] == live(*d, i),
    ensures
        r == picks(*d, q, k as int),
{
    let n = &d.nodes[k];
    let is_elem = n.kind == NodeKind::Element;
    match q {
        Query::OgTitle => meta_with_exec(d, k, "property", "og:title"),
        Query::AuthorMeta => meta_with_exec(d, k, "name", "author"),
        Query::TitleTag => is_elem && eq_str(&n.tag, "title"),
        Query::Heading => is_elem && eq_str(&n.tag, "h1") && lv[k],
        Query::RelAuthor => is_elem && lv[k] && match get_attr(&n.attrs, "rel") {
            Some(v) => eq_str(v, "author"),
            None => false,
        },
        Query::BylineHint => is_elem && lv[k] && (hint_of(get_attr(&n.attrs, "class")) || hint_of(
            get_attr(&n.attrs, "id"),
        )),
    }
}

fn find_first(d: &Document, lv: &Vec<bool>, q: Query, lo: usize, hi: usize) -> (r: usize)
    requires
        d.wf(),
        lo <= hi <= d.len(),
        lv@.len() == d.len(),
        forall|i: int| 0 <= i < d.len() ==> lv@[i] == live(*d, i),
    ensures
        r == first_from(*d, q, lo as int, hi as int),
        lo <= r <= hi,
{
    let mut i = lo;
    while i < hi && !picks_exec(d, lv, q, i)
        invariant
            d.wf(),
            lo <= i <= hi,
            hi <= d.len(),
            lv@.len() == d.len(),
            forall|k: int| 0 <= k < d.len() ==> lv@[k] == live(*d, k),
            first_from(*d, q, i as int, hi as int) == first_from(*d, q, lo as int, hi as int),
        decreases hi - i,
    {
        i = i + 1;
    }
    i
}

/// The first index at or after `i` not holding whitespace, or `s.len()`.
pub open spec fn trim_lo(s: Seq<char>, i: int) -> int
    decreases s.len() - i,
{
    if 0 <= i < s.len() && is_ws(s[i]) {
        trim_lo(s, i + 1)
    } else {
        i
    }
}

/// One past the last index below `j` and not below `lo` not holding whitespace.
pub open spec fn trim_hi(s: Seq<char>, lo: int, j: int) -> int
    decreases j - lo,
{
    if lo < j && j <= s.len() && is_ws(s[j - 1]) {
        trim_hi(s, lo, j - 1)
    } else {
        j
    }
}

/// `s` without leading and trailing whitespace.
pub open spec fn trimmed(s: Seq<char>) -> Seq<char> {
    let lo = trim_lo(s, 0);
    s.subrange(lo, trim_hi(s, lo, s.len() as int))
}

proof fn lemma_trim_bounds(s: Seq<char>, i: int, j: int)
    requires
        0 <= i <= s.len(),
        i <= j <= s.len(),
    ensures
        i <= trim_lo(s, i) <= s.len(),
        i <= trim_hi(s, i, j) <= j,
    decreases s.len() - i + j - i,
{
    if i < s.len() && is_ws(s[i]) {
        lemma_trim_bounds(s, i + 1, if j < i + 1 { i + 1 } else { j });
    }
    if i < j && is_ws(s[j - 1]) {
        lemma_trim_bounds(s, i, j - 1);
    }
}

fn copy_range(s: &Vec<char>, a: usize, b: usize) -> (r: Vec<char>)
    requires
        a <= b <= s@.len(),
    ensures
        r@ == s@.subrange(a as int, b as int),
{
    let mut r: Vec<char> = Vec::new();
    let mut i = a;
    while i < b
        invariant
            a <= i <= b,
            b <= s@.len(),
            r@ == s@.subrange(a as int, i as int),
        decreases b - i,
    {
        r.push(s[i]);
        i = i + 1;
        assert(r@ =~= s@.subrange(a as int, i as int));
    }
    r
}

/// Removes leading and trailing whitespace.
pub fn trim(s: &Vec<char>) -> (r: Vec<char>)
    ensures
        r@ == trimmed(s@),
{
    let mut lo: usize = 0;
    while lo < s.len() && is_ws_char(s[lo])
        invariant
            lo <= s@.len(),
            trim_lo(s@, lo as int) == trim_lo(s@, 0),
        decreases s@.len() - lo,
    {
        lo = lo + 1;
    }
    let mut hi = s.len();
    while lo < hi && is_ws_char(s[hi - 1])
        invariant
            lo <= hi <= s@.len(),
            lo == trim_lo(s@, 0),
            trim_hi(s@, lo as int, hi as int) == trim_hi(s@, lo as int, s@.len() as int),
        decreases hi,
    {
        hi = hi - 1;
    }
    copy_range(s, lo, hi)
}

pub open spec fn is_separator(t: Seq<char>, i: int) -> bool {
    &&& 1 <= i
    &&& i + 1 < t.len()
    &&& (t[i] == '|' || t[i] == '-' || t[i] == ':')
    &&& t[i - 1] == ' '
    &&& t[i + 1] == ' '
}

/// The first separator at or after `i`, or `t.len()`.
pub open spec fn separator_from(t: Seq<char>, i: int) -> int
    decreases t.len() - i,
{
    if i < 0 || i >= t.len() {
        t.len() as int
    } else if is_separator(t, i) {
        i
    } else {
        separator_from(t, i + 1)
    }
}

/// A page title without its site name: split at the first separator set off
/// by spaces, the longer side is kept (the left one when both are as long).
pub open spec fn site_stripped(t: Seq<char>) -> Seq<char> {
    let k = separator_from(t, 0);
    if k >= t.len() {
        trimmed(t)
    } else {
        let l = trimmed(t.subrange(0, k));
        let r = trimmed(t.subrange(k + 1, t.len() as int));
        if l.len() >= r.len() {
            l
        } else {
            r
        }
    }
}

pub fn strip_site_name(t: &Vec<char>) -> (r: Vec<char>)
    ensures
        r@ == site_stripped(t@),
{
    let mut k: usize = 0;
    while k < t.len() && !(k >= 1 && k + 1 < t.len() && (t[k] == '|' || t[k] == '-' || t[k]
        == ':') && t[k - 1] == ' ' && t[k + 1] == ' ')
        invariant
            k <= t@.len(),
            separator_from(t@, k as int) == separator_from(t@, 0),
        decreases t@.len() - k,
    {
        k = k + 1;
    }
    if k >= t.len() {
        trim(t)
    } else {
        let l = trim(&copy_range(t, 0, k));
        let r = trim(&copy_range(t, k + 1, t.len()));
        if l.len() >= r.len() {
            l
        } else {
            r
        }
    }
}

/// The text inside node `k`, or nothing when `k` is past the end.
pub open spec fn inner_text(d: Document, k: int) -> Seq<char> {
    if 0 <= k < d.len() {
        plain_text(d, k + 1, d.end@[k] as int)
    } else {
        Seq::empty()
    }
}

/// The trimmed `content` of meta node `k`, or nothing.
pub open spec fn meta_content(d: Document, k: int) -> Seq<char> {
    if 0 <= k < d.len() {
        match attr_value(d.nodes@[k].attrs@, "content"@) {
            Some(v) => trimmed(v),
            None => Seq::empty(),
        }
    } else {
        Seq::empty()
    }
}

/// The first non-empty candidate of a fallback chain.
pub open spec fn first_non_empty(a: Seq<char>, b: Seq<char>, c: Seq<char>) -> Option<Seq<char>> {
    if a.len() > 0 {
        Some(a)
    } else if b.len() > 0 {
        Some(b)
    } else if c.len() > 0 {
        Some(c)
    } else {
        None
    }
}

/// The title: `og:title`, else the `<title>` without its site name, else the
/// first heading within the content nodes `lo .. hi`.
pub open spec fn title_of(d: Document, lo: int, hi: int) -> Option<Seq<char>> {
    let n = d.len() as int;
    first_non_empty(
        meta_content(d, first_from(d, Query::OgTitle, 0, n)),
        site_stripped(inner_text(d, first_from(d, Query::TitleTag, 0, n))),
        inner_text(d, first_from(d, Query::Heading, lo, hi)),
    )
}

/// The byline: `<meta name="author">`, else a `rel="author"` element, else an
/// element of the content nodes `lo .. hi` hinted as a byline.
pub open spec fn byline_of(d: Document, lo: int, hi: int) -> Option<Seq<char>> {
    let n = d.len() as int;
    first_non_empty(
        meta_content(d, first_from(d, Query::AuthorMeta, 0, n)),
        inner_text(d, first_from(d, Query::RelAuthor, 0, n)),
        inner_text(d, first_from(d, Query::BylineHint, lo, hi)),
    )
}

fn inner_text_exec(d: &Document, k: usize) -> (r: Vec<char>)
    requires
        d.wf(),
    ensures
        r@ == inner_text(*d, k as int),
{
    if k < d.nodes.len() {
        plain_text_of(d, k + 1, d.end[k])
    } else {
        Vec::new()
    }
}

fn meta_content_exec(d: &Document, k: usize) -> (r: Vec<char>)
    requires
        d.wf(),
    ensures
        r@ == meta_content(*d, k as int),
{
    if k < d.nodes.len() {
        match get_attr(&d.nodes[k].attrs, "content") {
            Some(v) => trim(v),
            None => Vec::new(),
        }
    } else {
        Vec::new()
    }
}

fn first_non_empty_exec(a: Vec<char>, b: Vec<char>, c: Vec<char>) -> (r: Option<Vec<char>>)
    ensures
        match r {
            Some(v) => first_non_empty(a@, b@, c@) == Some(v@),
            None => first_non_empty(a@, b@, c@).is_none(),
        },
{
    if a.len() > 0 {
        Some(a)
    } else if b.len() > 0 {
        Some(b)
    } else if c.len() > 0 {
        Some(c)
    } else {
        None
    }
}

pub fn title(d: &Document, lo: usize, hi: usize) -> (r: Option<Vec<char>>)
    requires
        d.wf(),
        lo <= hi <= d.len(),
    ensures
        match r {
            Some(v) => title_of(*d, lo as int, hi as int) == Some(v@),
            None => title_of(*d, lo as int, hi as int).is_none(),
        },
{
    let n = d.nodes.len();
    let lv = live_flags(d);
    let og = meta_content_exec(d, find_first(d, &lv, Query::OgTitle, 0, n));
    let tt = strip_site_name(&inner_text_exec(d, find_first(d, &lv, Query::TitleTag, 0, n)));
    let h1 = inner_text_exec(d, find_first(d, &lv, Query::Heading, lo, hi));
    first_non_empty_exec(og, tt, h1)
}

pub fn byline(d: &Document, lo: usize, hi: usize) -> (r: Option<Vec<char>>)
    requires
        d.wf(),
        lo <= hi <= d.len(),
    ensures
        match r {
            Some(v) => byline_of(*d, lo as int, hi as int) == Some(v@),
            None => byline_of(*d, lo as int, hi as int).is_none(),
        },
{
    let n = d.nodes.len();
    let lv = live_flags(d);
    let m = meta_content_exec(d, find_first(d, &lv, Query::AuthorMeta, 0, n));
    let ra = inner_text_exec(d, find_first(d, &lv, Query::RelAuthor, 0, n));
    let bh = inner_text_exec(d, find_first(d, &lv, Query::BylineHint, lo, hi));
    first_non_empty_exec(m, ra, bh)
}

} // verus!
