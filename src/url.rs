//! Resolution of link targets against a base URL.
//!
//! Supported forms: targets with a scheme (or a fragment) are kept,
//! scheme-relative targets (`//host/x`) take the base's scheme,
//! root-relative targets (`/x`) take the base's origin, and other targets
//! are appended to the base's directory.  Dot segments are kept as written.
use vstd::prelude::*;
use crate::clean::{contains, contains_chars};
use crate::parse::{matches_at, occurs_at};
use crate::text::chars_of;

verus! {

/// The first index at or after `i` holding `c`, or `s.len()`.
pub open spec fn index_of(s: Seq<char>, c: char, i: int) -> int
    decreases s.len() - i,
{
    if i < 0 || i >= s.len() {
        s.len() as int
    } else if s[i] == c {
        i
    } else {
        index_of(s, c, i + 1)
    }
}

/// The last index below `n` holding `c`, or -1.
pub open spec fn last_index_of(s: Seq<char>, c: char, n: int) -> int
    decreases n,
{
    if n <= 0 {
        -1
    } else if s[n - 1] == c {
        n - 1
    } else {
        last_index_of(s, c, n - 1)
    }
}

/// The first index at or after `i` where `pat` occurs, or `s.len()`.
pub open spec fn occurrence(s: Seq<char>, pat: Seq<char>, i: int) -> int
    decreases s.len() - i,
{
    if i < 0 || i >= s.len() {
        s.len() as int
    } else if occurs_at(s, i, pat) {
        i
    } else {
        occurrence(s, pat, i + 1)
    }
}

proof fn lemma_occurrence(s: Seq<char>, pat: Seq<char>, i: int)
    requires
        0 <= i,
    ensures
        occurrence(s, pat, i) < s.len() ==> occurs_at(s, occurrence(s, pat, i), pat),
    decreases s.len() - i,
{
    if i < s.len() && !occurs_at(s, i, pat) {
        lemma_occurrence(s, pat, i + 1);
    }
}

/// A target that needs no base.
pub open spec fn is_absolute(h: Seq<char>) -> bool {
    ||| contains(h, "://"@)
    ||| occurs_at(h, 0, "#"@)
    ||| occurs_at(h, 0, "mailto:"@)
    ||| occurs_at(h, 0, "data:"@)
    ||| occurs_at(h, 0, "javascript:"@)
}

/// `h` resolved against `base`.
pub open spec fn resolved(base: Seq<char>, h: Seq<char>) -> Seq<char> {
    let colon = index_of(base, ':', 0);
    let sep = occurrence(base, "://"@, 0);
    let origin_end = index_of(base, '/', sep + 3);
    let last = last_index_of(base, '/', base.len() as int);
    if is_absolute(h) || sep >= base.len() {
        h
    } else if occurs_at(h, 0, "//"@) {
        if colon < base.len() {
            base.subrange(0, colon + 1) + h
        } else {
            h
        }
    } else if occurs_at(h, 0, "/"@) {
        base.subrange(0, origin_end) + h
    } else if last >= origin_end {
        base.subrange(0, last + 1) + h
    } else {
        base + "/"@ + h
    }
}

fn index_of_exec(s: &Vec<char>, c: char, from: usize) -> (r: usize)
    requires
        from <= s@.len(),
    ensures
        r == index_of(s@, c, from as int),
        r <= s@.len(),
{
    let mut i = from;
    while i < s.len() && s[i] != c
        invariant
            from <= i <= s@.len(),
            index_of(s@, c, i as int) == index_of(s@, c, from as int),
        decreases s@.len() - i,
    {
        i = i + 1;
    }
    i
}

fn last_index_of_exec(s: &Vec<char>, c: char) -> (r: Option<usize>)
    ensures
        match r {
            Some(k) => k == last_index_of(s@, c, s@.len() as int) && k < s@.len(),
            None => last_index_of(s@, c, s@.len() as int) == -1,
        },
{
    let mut n = s.len();
    while n > 0 && s[n - 1] != c
        invariant
            n <= s@.len(),
            last_index_of(s@, c, n as int) == last_index_of(s@, c, s@.len() as int),
        decreases n,
    {
        n = n - 1;
    }
    if n == 0 {
        None
    } else {
        Some(n - 1)
    }
}

fn occurrence_exec(s: &Vec<char>, pat: &Vec<char>) -> (r: usize)
    ensures
        r == occurrence(s@, pat@, 0),
        r <= s@.len(),
{
    let mut i: usize = 0;
    while i < s.len() && !matches_at(s, i, pat)
        invariant
            i <= s@.len(),
            occurrence(s@, pat@, i as int) == occurrence(s@, pat@, 0),
        decreases s@.len() - i,
    {
        i = i + 1;
    }
    i
}

fn prefix_then(s: &Vec<char>, k: usize, h: &Vec<char>) -> (r: Vec<char>)
    requires
        k <= s@.len(),
    ensures
        r@ == s@.subrange(0, k as int) + h@,
{
    let mut r: Vec<char> = Vec::new();
    let mut i: usize = 0;
    while i < k
        invariant
            i <= k,
            k <= s@.len(),
            r@ == s@.subrange(0, i as int),
        decreases k - i,
    {
        r.push(s[i]);
        i = i + 1;
        assert(r@ =~= s@.subrange(0, i as int));
    }
    let mut j: usize = 0;
    while j < h.len()
        invariant
            j <= h@.len(),
            r@ == s@.subrange(0, k as int) + h@.subrange(0, j as int),
        decreases h@.len() - j,
    {
        r.push(h[j]);
        j = j + 1;
        assert(r@ =~= s@.subrange(0, k as int) + h@.subrange(0, j as int));
    }
    assert(h@.subrange(0, h@.len() as int) =~= h@);
    r
}

/// Resolves the link target `h` against `base`.
pub fn resolve(base: &Vec<char>, h: &Vec<char>) -> (r: Vec<char>)
    ensures
        r@ == resolved(base@, h@),
{
    let absolute = contains_chars(h, &chars_of("://")) || matches_at(h, 0, &chars_of("#"))
        || matches_at(h, 0, &chars_of("mailto:")) || matches_at(h, 0, &chars_of("data:"))
        || matches_at(h, 0, &chars_of("javascript:"));
    let sep = occurrence_exec(base, &chars_of("://"));
    if absolute || sep >= base.len() {
        let empty: Vec<char> = Vec::new();
        let r = prefix_then(h, h.len(), &empty);
        assert(r@ =~= h@);
        return r;
    }
    proof {
        reveal_strlit("://");
        lemma_occurrence(base@, "://"@, 0);
        assert(occurs_at(base@, sep as int, "://"@));
        assert(base@.subrange(sep as int, sep + 3)[0] == ':');
    }
    let origin_from = sep + 3;
    let origin_end = index_of_exec(base, '/', origin_from);
    if matches_at(h, 0, &chars_of("//")) {
        let colon = index_of_exec(base, ':', 0);
        if colon < base.len() {
            prefix_then(base, colon + 1, h)
        } else {
            let empty: Vec<char> = Vec::new();
            let r = prefix_then(h, h.len(), &empty);
            assert(r@ =~= h@);
            r
        }
    } else if matches_at(h, 0, &chars_of("/")) {
        prefix_then(base, origin_end, h)
    } else {
        match last_index_of_exec(base, '/') {
            Some(last) => {
                if last >= origin_end {
                    prefix_then(base, last + 1, h)
                } else {
                    let b2 = prefix_then(base, base.len(), &chars_of("/"));
                    assert(base@.subrange(0, base@.len() as int) =~= base@);
                    let r = prefix_then(&b2, b2.len(), h);
                    assert(b2@.subrange(0, b2@.len() as int) =~= b2@);
                    r
                }
            },
            None => {
                let b2 = prefix_then(base, base.len(), &chars_of("/"));
                assert(base@.subrange(0, base@.len() as int) =~= base@);
                let r = prefix_then(&b2, b2.len(), h);
                assert(b2@.subrange(0, b2@.len() as int) =~= b2@);
                r
            },
        }
    }
}

} // verus!
