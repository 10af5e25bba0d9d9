//! Scoring of candidate containers and selection of the article root.
//!
//! A scored element is a live candidate container owning at least `MIN_TEXT`
//! characters of text: text within it that no nested container holds.  Its
//! base score is a tag weight, a class/id weight and one point per hundred
//! characters of owned text (at most three).
//! A scored element passes its base to itself and to its parent in full and
//! to its grandparent at half; scores are kept doubled so that they stay
//! whole numbers.  Containers count their own tag and hint weight as well,
//! but only one that gathers a positive score from scored text within it may
//! be chosen; ties go to the earliest node, so a container beats its only
//! paragraph.
use vstd::prelude::*;
use crate::clean::{contains, contains_chars};
use crate::dom::{attr_value, get_attr, live, live_flags, Document, NodeKind};
use crate::tags::{candidate_tag, is_candidate_tag};
use crate::text::{chars_of, lower_char, lower_seq};

verus! {

/// Owned text needed for an element to be scored.
pub const MIN_TEXT: usize = 25;

/// Owned text is counted up to this many characters.
pub const TEXT_CAP: usize = 400;

/// Weight of a class or id hint.
pub const HINT_WEIGHT: i64 = 25;

/// Class or id words that mark article content.
pub open spec fn positive_hint(s: Seq<char>) -> bool {
    contains(s, "article"@)
        || contains(s, "content"@)
        || contains(s, "main"@)
        || contains(s, "entry"@)
        || contains(s, "post"@)
        || contains(s, "story"@)
        || contains(s, "body"@)
        || contains(s, "text"@)
}

pub fn has_positive_hint(s: &Vec<char>) -> (r: bool)
    ensures
        r == positive_hint(s@),
{
    contains_chars(s, &chars_of("article"))
        || contains_chars(s, &chars_of("content"))
        || contains_chars(s, &chars_of("main"))
        || contains_chars(s, &chars_of("entry"))
        || contains_chars(s, &chars_of("post"))
        || contains_chars(s, &chars_of("story"))
        || contains_chars(s, &chars_of("body"))
        || contains_chars(s, &chars_of("text"))
}

/// Class or id words that mark boilerplate.
pub open spec fn negative_hint(s: Seq<char>) -> bool {
    contains(s, "comment"@)
        || contains(s, "sidebar"@)
        || contains(s, "footer"@)
        || contains(s, "nav"@)
        || contains(s, "menu"@)
        || contains(s, "related"@)
        || contains(s, "share"@)
        || contains(s, "promo"@)
        || contains(s, "advert"@)
        || contains(s, "banner"@)
        || contains(s, "widget"@)
}

pub fn has_negative_hint(s: &Vec<char>) -> (r: bool)
    ensures
        r == negative_hint(s@),
{
    contains_chars(s, &chars_of("comment"))
        || contains_chars(s, &chars_of("sidebar"))
        || contains_chars(s, &chars_of("footer"))
        || contains_chars(s, &chars_of("nav"))
        || contains_chars(s, &chars_of("menu"))
        || contains_chars(s, &chars_of("related"))
        || contains_chars(s, &chars_of("share"))
        || contains_chars(s, &chars_of("promo"))
        || contains_chars(s, &chars_of("advert"))
        || contains_chars(s, &chars_of("banner"))
        || contains_chars(s, &chars_of("widget"))
}

pub open spec fn tag_weight(t: Seq<char>) -> int {
    if t == "article"@ {
        10
    } else if t == "main"@ {
        8
    } else if t == "section"@ {
        5
    } else if t == "p"@ || t == "pre"@ || t == "blockquote"@ || t == "td"@ {
        3
    } else {
        1
    }
}

pub fn tag_weight_of(t: &Vec<char>) -> (r: i64)
    ensures
        r == tag_weight(t@),
{
    if crate::text::eq_str(t, "article") {
        10
    } else if crate::text::eq_str(t, "main") {
        8
    } else if crate::text::eq_str(t, "section") {
        5
    } else if crate::text::eq_str(t, "p") || crate::text::eq_str(t, "pre")
        || crate::text::eq_str(t, "blockquote") || crate::text::eq_str(t, "td") {
        3
    } else {
        1
    }
}

/// The weight of one class or id value, matched without regard to ASCII case.
pub open spec fn hint_weight(v: Option<Seq<char>>) -> int {
    match v {
        Some(s) => (if positive_hint(lower_seq(s)) {
            HINT_WEIGHT as int
        } else {
            0
        }) - (if negative_hint(lower_seq(s)) {
            HINT_WEIGHT as int
        } else {
            0
        }),
        None => 0,
    }
}

pub(crate) fn lowered(s: &Vec<char>) -> (r: Vec<char>)
    ensures
        r@ == lower_seq(s@),
{
    let mut r: Vec<char> = Vec::new();
    let mut i: usize = 0;
    while i < s.len()
        invariant
            i <= s@.len(),
            r@ =~= lower_seq(s@.subrange(0, i as int)),
        decreases s@.len() - i,
    {
        r.push(lower_char(s[i]));
        i = i + 1;
        assert(lower_seq(s@.subrange(0, i as int)) =~= lower_seq(s@.subrange(0, i - 1)).push(
            crate::text::lower(s@[i - 1]),
        ));
    }
    assert(s@.subrange(0, s@.len() as int) =~= s@);
    r
}

fn hint_weight_of(v: Option<&Vec<char>>) -> (r: i64)
    ensures
        r == hint_weight(
            match v {
                Some(s) => Some(s@),
                None => None,
            },
        ),
{
    match v {
        Some(s) => {
            let l = lowered(s);
            let p: i64 = if has_positive_hint(&l) { HINT_WEIGHT } else { 0 };
            let n: i64 = if has_negative_hint(&l) { HINT_WEIGHT } else { 0 };
            p - n
        },
        None => 0,
    }
}

/// The nearest candidate container strictly above node `j`, or the root.
pub open spec fn owner(d: Document, j: int) -> int
    decreases j,
{
    if j <= 0 || d.parent@[j] >= j {
        0
    } else {
        let p = d.parent@[j] as int;
        if p > 0 && d.nodes@[p].kind == NodeKind::Element && candidate_tag(d.nodes@[p].tag@) {
            p
        } else {
            owner(d, p)
        }
    }
}

/// The owner of every node, in one forward pass.
pub(crate) fn owners(d: &Document) -> (r: Vec<usize>)
    requires
        d.wf(),
    ensures
        r@.len() == d.len(),
        forall|j: int| 0 <= j < d.len() ==> #[trigger] r@[j] == owner(*d, j) && 0 <= r@[j] <= j,
{
    let n = d.nodes.len();
    let mut r: Vec<usize> = Vec::new();
    let mut j: usize = 0;
    while j < n
        invariant
            d.wf(),
            n == d.len(),
            j <= n,
            r@.len() == j,
            forall|i: int| 0 <= i < j ==> #[trigger] r@[i] == owner(*d, i) && 0 <= r@[i] <= i,
        decreases n - j,
    {
        if j == 0 {
            r.push(0);
        } else {
            let p = d.parent[j];
            let v = if p > 0 && d.nodes[p].kind == NodeKind::Element && is_candidate_tag(
                &d.nodes[p].tag,
            ) {
                p
            } else {
                r[p]
            };
            r.push(v);
        }
        j = j + 1;
    }
    r
}

/// Text owned by element `k` over the first `n` nodes, capped at `TEXT_CAP`:
/// the live text nodes whose nearest candidate container is `k`.
pub open spec fn owned_text(d: Document, k: int, n: int) -> int
    decreases n,
{
    if n <= 0 {
        0
    } else {
        let j = n - 1;
        let prev = owned_text(d, k, j);
        if j > 0 && owner(d, j) == k && d.nodes@[j].kind == NodeKind::Text && live(d, j) {
            let s = prev + d.nodes@[j].text@.len();
            if s > TEXT_CAP {
                TEXT_CAP as int
            } else {
                s
            }
        } else {
            prev
        }
    }
}

/// Whether element `k` gets a score of its own.
pub open spec fn scored(d: Document, k: int) -> bool {
    &&& 0 < k < d.len()
    &&& d.nodes@[k].kind == NodeKind::Element
    &&& live(d, k)
    &&& candidate_tag(d.nodes@[k].tag@)
    &&& owned_text(d, k, d.len() as int) >= MIN_TEXT
}

pub open spec fn base(d: Document, k: int) -> int {
    if scored(d, k) {
        let t = owned_text(d, k, d.len() as int) / 100;
        own_weight(d, k) + if t > 3 {
            3
        } else {
            t
        }
    } else {
        0
    }
}

/// What node `j` adds to the accumulated score of node `k`.
pub open spec fn contribution(d: Document, j: int, k: int) -> int {
    let p = d.parent@[j] as int;
    (if j == k {
        2 * base(d, j)
    } else {
        0
    }) + (if j > 0 && p == k {
        2 * base(d, j)
    } else {
        0
    }) + (if j > 0 && p > 0 && d.parent@[p] == k {
        base(d, j)
    } else {
        0
    })
}

/// The accumulated score of `k` from the first `n` nodes.
pub open spec fn acc_upto(d: Document, k: int, n: int) -> int
    decreases n,
{
    if n <= 0 {
        0
    } else {
        acc_upto(d, k, n - 1) + contribution(d, n - 1, k)
    }
}

/// The score that node `k` gathers from the scored elements: twice its own
/// base, twice the bases of its children and once those of its grandchildren.
pub open spec fn propagated(d: Document, k: int) -> int {
    acc_upto(d, k, d.len() as int)
}

/// A live candidate container other than the root.
pub open spec fn candidate(d: Document, k: int) -> bool {
    &&& 0 < k < d.len()
    &&& d.nodes@[k].kind == NodeKind::Element
    &&& live(d, k)
    &&& candidate_tag(d.nodes@[k].tag@)
}

/// The weight a container has of its own: its tag and its class and id hints.
pub open spec fn own_weight(d: Document, k: int) -> int {
    tag_weight(d.nodes@[k].tag@) + hint_weight(attr_value(d.nodes@[k].attrs@, "class"@))
        + hint_weight(attr_value(d.nodes@[k].attrs@, "id"@))
}

/// The score of node `k`.  A candidate that is not scored itself counts its
/// own weight on top of what it gathers from below.
pub open spec fn score(d: Document, k: int) -> int {
    propagated(d, k) + if candidate(d, k) && !scored(d, k) {
        2 * own_weight(d, k)
    } else {
        0
    }
}

/// Whether `k` may be chosen as the article root: a live container that
/// gathers a positive score from scored text within it (itself, a child or
/// a grandchild), and whose own score is positive.
pub open spec fn selectable(d: Document, k: int) -> bool {
    &&& 0 < k < d.len()
    &&& d.nodes@[k].kind == NodeKind::Element
    &&& live(d, k)
    &&& candidate_tag(d.nodes@[k].tag@)
    &&& propagated(d, k) > 0
    &&& score(d, k) > 0
}

proof fn lemma_base_bound(d: Document, k: int)
    ensures
        -63 <= base(d, k) <= 63,
{
}

proof fn lemma_acc_bound(d: Document, k: int, n: int)
    requires
        0 <= n,
    ensures
        -441 * n <= acc_upto(d, k, n) <= 441 * n,
    decreases n,
{
    if n > 0 {
        lemma_acc_bound(d, k, n - 1);
        lemma_base_bound(d, n - 1);
    }
}

fn zeros_usize(n: usize) -> (r: Vec<usize>)
    ensures
        r@.len() == n,
        forall|k: int| 0 <= k < n ==> r@[k] == 0,
{
    let mut r: Vec<usize> = Vec::new();
    while r.len() < n
        invariant
            r@.len() <= n,
            forall|k: int| 0 <= k < r@.len() ==> r@[k] == 0,
        decreases n - r@.len(),
    {
        r.push(0);
    }
    r
}

fn zeros_i128(n: usize) -> (r: Vec<i128>)
    ensures
        r@.len() == n,
        forall|k: int| 0 <= k < n ==> r@[k] == 0,
{
    let mut r: Vec<i128> = Vec::new();
    while r.len() < n
        invariant
            r@.len() <= n,
            forall|k: int| 0 <= k < r@.len() ==> r@[k] == 0,
        decreases n - r@.len(),
    {
        r.push(0);
    }
    r
}

/// The capped owned text of every node.
pub(crate) fn owned_texts(d: &Document, lv: &Vec<bool>) -> (r: Vec<usize>)
    requires
        d.wf(),
        lv@.len() == d.len(),
        forall|i: int| 0 <= i < d.len() ==> lv@[i] == live(*d, i),
    ensures
        r@.len() == d.len(),
        forall|k: int| 0 <= k < d.len() ==> r@[k] == owned_text(*d, k, d.len() as int),
{
    let n = d.nodes.len();
    let ow = owners(d);
    let mut dt = zeros_usize(n);
    let mut j: usize = 0;
    while j < n
        invariant
            d.wf(),
            n == d.len(),
            j <= n,
            ow@.len() == n,
            forall|i: int| 0 <= i < n ==> #[trigger] ow@[i] == owner(*d, i) && 0 <= ow@[i] <= i,
            lv@.len() == n,
            forall|i: int| 0 <= i < n ==> lv@[i] == live(*d, i),
            dt@.len() == n,
            forall|k: int| 0 <= k < n ==> #[trigger] dt@[k] == owned_text(*d, k, j as int),
            forall|k: int| 0 <= k < n ==> #[trigger] dt@[k] <= TEXT_CAP,
        decreases n - j,
    {
        if j > 0 && d.nodes[j].kind == NodeKind::Text && lv[j] {
            let p = ow[j];
            let len = d.nodes[j].text.len();
            let cur = dt[p];
            let v = if len >= TEXT_CAP || cur + len > TEXT_CAP {
                TEXT_CAP
            } else {
                cur + len
            };
            dt.set(p, v);
        }
        assert forall|k: int| 0 <= k < n implies #[trigger] dt@[k] == owned_text(
            *d,
            k,
            j + 1,
        ) by {}
        j = j + 1;
    }
    dt
}

/// The base score of every node.
fn bases(d: &Document, lv: &Vec<bool>, dt: &Vec<usize>) -> (r: Vec<i64>)
    requires
        d.wf(),
        lv@.len() == d.len(),
        forall|i: int| 0 <= i < d.len() ==> lv@[i] == live(*d, i),
        dt@.len() == d.len(),
        forall|k: int| 0 <= k < d.len() ==> dt@[k] == owned_text(*d, k, d.len() as int),
    ensures
        r@.len() == d.len(),
        forall|k: int| 0 <= k < d.len() ==> r@[k] == base(*d, k),
{
    let n = d.nodes.len();
    let mut r: Vec<i64> = Vec::new();
    let mut k: usize = 0;
    while k < n
        invariant
            d.wf(),
            n == d.len(),
            k <= n,
            lv@.len() == n,
            forall|i: int| 0 <= i < n ==> lv@[i] == live(*d, i),
            dt@.len() == n,
            forall|i: int| 0 <= i < n ==> dt@[i] == owned_text(*d, i, n as int),
            r@.len() == k,
            forall|i: int| 0 <= i < k ==> r@[i] == base(*d, i),
        decreases n - k,
    {
        let node = &d.nodes[k];
        let b: i64 = if k > 0 && node.kind == NodeKind::Element && lv[k] && is_candidate_tag(
            &node.tag,
        ) && dt[k] >= MIN_TEXT {
            let t = dt[k] / 100;
            let t: i64 = if t > 3 { 3 } else { t as i64 };
            tag_weight_of(&node.tag) + hint_weight_of(get_attr(&node.attrs, "class"))
                + hint_weight_of(get_attr(&node.attrs, "id")) + t
        } else {
            0
        };
        r.push(b);
        k = k + 1;
    }
    r
}

/// The propagated score of every node.
pub fn scores(d: &Document) -> (r: Vec<i128>)
    requires
        d.wf(),
    ensures
        r@.len() == d.len(),
        forall|k: int| 0 <= k < d.len() ==> r@[k] == propagated(*d, k),
        forall|k: int| 0 <= k < d.len() ==> -441 * d.len() <= #[trigger] r@[k] <= 441 * d.len(),
{
    let n = d.nodes.len();
    let lv = live_flags(d);
    let dt = owned_texts(d, &lv);
    let b = bases(d, &lv, &dt);
    let mut acc = zeros_i128(n);
    let mut j: usize = 0;
    while j < n
        invariant
            d.wf(),
            n == d.len(),
            j <= n,
            b@.len() == n,
            forall|k: int| 0 <= k < n ==> b@[k] == base(*d, k),
            acc@.len() == n,
            forall|k: int| 0 <= k < n ==> #[trigger] acc@[k] == acc_upto(*d, k, j as int),
        decreases n - j,
    {
        let bj = b[j] as i128;
        proof {
            lemma_base_bound(*d, j as int);
            lemma_acc_bound(*d, j as int, j as int);
        }
        let v = acc[j] + 2 * bj;
        acc.set(j, v);
        if j > 0 {
            let p = d.parent[j];
            proof {
                lemma_acc_bound(*d, p as int, j as int);
            }
            let v = acc[p] + 2 * bj;
            acc.set(p, v);
            if p > 0 {
                let g = d.parent[p];
                proof {
                    lemma_acc_bound(*d, g as int, j as int);
                }
                let v = acc[g] + bj;
                acc.set(g, v);
            }
        }
        assert forall|k: int| 0 <= k < n implies #[trigger] acc@[k] == acc_upto(
            *d,
            k,
            j + 1,
        ) by {}
        j = j + 1;
    }
    proof {
        assert forall|k: int| 0 <= k < n implies -441 * d.len() <= #[trigger] acc@[k] <= 441
            * d.len() by {
            lemma_acc_bound(*d, k, n as int);
        }
    }
    acc
}

fn own_weight_of(d: &Document, k: usize) -> (r: i64)
    requires
        k < d.len(),
    ensures
        r == own_weight(*d, k as int),
{
    let node = &d.nodes[k];
    tag_weight_of(&node.tag) + hint_weight_of(get_attr(&node.attrs, "class")) + hint_weight_of(
        get_attr(&node.attrs, "id"),
    )
}

/// Picks the selectable node of highest score, the earliest among equals.
pub fn select(d: &Document) -> (r: Option<usize>)
    requires
        d.wf(),
    ensures
        match r {
            None => forall|k: int| 0 <= k < d.len() ==> !selectable(*d, k),
            Some(b) => {
                &&& selectable(*d, b as int)
                &&& forall|k: int|
                    0 <= k < d.len() && selectable(*d, k) ==> score(*d, k) <= score(*d, b as int)
                &&& forall|k: int|
                    0 <= k < b && selectable(*d, k) ==> score(*d, k) < score(*d, b as int)
            },
        },
{
    let n = d.nodes.len();
    let lv = live_flags(d);
    let dt = owned_texts(d, &lv);
    let pr = scores(d);
    let mut sc: Vec<i128> = Vec::new();
    let mut k: usize = 0;
    while k < n
        invariant
            d.wf(),
            n == d.len(),
            k <= n,
            lv@.len() == n,
            forall|i: int| 0 <= i < n ==> lv@[i] == live(*d, i),
            dt@.len() == n,
            forall|i: int| 0 <= i < n ==> dt@[i] == owned_text(*d, i, n as int),
            pr@.len() == n,
            forall|i: int| 0 <= i < n ==> pr@[i] == propagated(*d, i),
            forall|i: int| 0 <= i < n ==> -441 * n <= #[trigger] pr@[i] <= 441 * n,
            sc@.len() == k,
            forall|i: int| 0 <= i < k ==> sc@[i] == score(*d, i),
        decreases n - k,
    {
        let node = &d.nodes[k];
        let cand = k > 0 && node.kind == NodeKind::Element && lv[k] && is_candidate_tag(&node.tag);
        let is_scored = cand && dt[k] >= MIN_TEXT;
        let extra: i128 = if cand && !is_scored {
            2 * (own_weight_of(d, k) as i128)
        } else {
            0
        };
        sc.push(pr[k] + extra);
        k = k + 1;
    }
    let mut best: Option<usize> = None;
    let mut k: usize = 0;
    while k < n
        invariant
            d.wf(),
            n == d.len(),
            k <= n,
            lv@.len() == n,
            forall|i: int| 0 <= i < n ==> lv@[i] == live(*d, i),
            sc@.len() == n,
            forall|i: int| 0 <= i < n ==> sc@[i] == score(*d, i),
            pr@.len() == n,
            forall|i: int| 0 <= i < n ==> pr@[i] == propagated(*d, i),
            match best {
                None => forall|i: int| 0 <= i < k ==> !selectable(*d, i),
                Some(b) => {
                    &&& b < k
                    &&& selectable(*d, b as int)
                    &&& forall|i: int|
                        0 <= i < k && selectable(*d, i) ==> score(*d, i) <= score(*d, b as int)
                    &&& forall|i: int|
                        0 <= i < b && selectable(*d, i) ==> score(*d, i) < score(*d, b as int)
                },
            },
        decreases n - k,
    {
        let node = &d.nodes[k];
        if k > 0 && node.kind == NodeKind::Element && lv[k] && is_candidate_tag(&node.tag)
            && pr[k] > 0 && sc[k] > 0 {
            match best {
                None => {
                    best = Some(k);
                },
                Some(b) => {
                    if sc[k] > sc[b] {
                        best = Some(k);
                    }
                },
            }
        }
        k = k + 1;
    }
    best
}

} // verus!
