//! The extraction pipeline: parse, preprocess, select, check and render.
use vstd::prelude::*;
use crate::clean::{cleaned_from, collapses, preprocess, same_doc, strips, unwraps};
use crate::dom::Document;
use crate::html::{render_html, seq_html};
use crate::meta::{byline, byline_of, inner_text, meta_content, title, title_of, Query};
use crate::same::{
    lemma_same_first, lemma_same_run_end, lemma_same_run_start, lemma_same_score,
    lemma_same_node, lemma_same_seq_html, lemma_same_text,
};
use crate::render::{run_end, run_start};
use crate::parse::{parse, parsed, ParseError, MAX_INPUT_CHARS};
use crate::render::{content_range, content_range_of, plain_text, plain_text_of};
use crate::score::{score, select, selectable};
use crate::text::{chars_of, string_of};

verus! {

/// The acceptance threshold of the hosting service.
pub const DEFAULT_CHAR_THRESHOLD: usize = 100;

/// Per-call settings.
pub struct Options {
    /// Minimum plain-text length of the content for it to be accepted.
    pub char_threshold: usize,
    /// Base against which relative `href` and `src` are resolved.
    pub base_url: Option<String>,
}

impl Options {
    pub fn new() -> (r: Options)
        ensures
            r.char_threshold == DEFAULT_CHAR_THRESHOLD,
            r.base_url.is_none(),
    {
        Options { char_threshold: DEFAULT_CHAR_THRESHOLD, base_url: None }
    }

    pub fn char_threshold(self, n: usize) -> (r: Options)
        ensures
            r.char_threshold == n,
            r.base_url == self.base_url,
    {
        Options { char_threshold: n, base_url: self.base_url }
    }

    pub fn base_url(self, url: Option<String>) -> (r: Options)
        ensures
            r.char_threshold == self.char_threshold,
            r.base_url == url,
    {
        Options { char_threshold: self.char_threshold, base_url: url }
    }
}

/// The extracted article.
pub struct Article {
    pub title: Option<String>,
    pub byline: Option<String>,
    /// The content as an HTML fragment.
    pub content: String,
    /// The content as plain text.
    pub text_content: String,
}

#[derive(Clone, Copy, Debug, PartialEq, Eq, Structural)]
pub enum ExtractError {
    /// The input could not be parsed.
    Parse(ParseError),
    /// No content met the acceptance threshold: the page is not an article.
    ReadabilityCheckFailed,
}

impl ExtractError {
    /// A human-readable message.
    pub fn message(&self) -> (r: String)
        ensures
            *self == ExtractError::ReadabilityCheckFailed ==> r@ == "Failed to make readable text"@,
            *self == ExtractError::Parse(ParseError::TooLarge) ==> r@ == "Input too large to parse"@,
    {
        match self {
            ExtractError::Parse(_) => "Input too large to parse".to_string(),
            ExtractError::ReadabilityCheckFailed => "Failed to make readable text".to_string(),
        }
    }
}

/// `b` is the root that selection picks.
pub open spec fn is_best(d: Document, b: int) -> bool {
    &&& selectable(d, b)
    &&& forall|k: int| 0 <= k < d.len() && selectable(d, k) ==> score(d, k) <= score(d, b)
    &&& forall|k: int| 0 <= k < b && selectable(d, k) ==> score(d, k) < score(d, b)
}

/// The plain text of the content set of root `b`.
pub open spec fn content_text(d: Document, b: int) -> Seq<char> {
    plain_text(d, content_range(d, b).0, content_range(d, b).1)
}

/// Whether the preprocessed document `d` yields an article at threshold `t`.
pub open spec fn accepts(d: Document, t: int) -> bool {
    exists|b: int| is_best(d, b) && content_text(d, b).len() >= t
}

/// At most one root is the best.
pub proof fn lemma_best_unique(d: Document, a: int, b: int)
    requires
        is_best(d, a),
        is_best(d, b),
    ensures
        a == b,
{
    if a < b {
        assert(score(d, a) < score(d, b));
    } else if b < a {
        assert(score(d, b) < score(d, a));
    }
}

/// The acceptance check has a single boundary: when a best root exists, the
/// content is accepted exactly when its text reaches the threshold, and a
/// lower threshold accepts whatever a higher one does.
pub proof fn lemma_threshold_law(d: Document, b: int, t1: int, t2: int)
    requires
        is_best(d, b),
        t1 <= t2,
    ensures
        accepts(d, t1) <==> content_text(d, b).len() >= t1,
        accepts(d, t2) ==> accepts(d, t1),
{
    if accepts(d, t1) {
        let c = choose|c: int| is_best(d, c) && content_text(d, c).len() >= t1;
        lemma_best_unique(d, b, c);
    }
}

pub open spec fn opt_view(s: Option<String>) -> Option<Seq<char>> {
    match s {
        Some(v) => Some(v@),
        None => None,
    }
}

/// `r` is what extraction gives on the preprocessed document `d` at threshold
/// `t`: an article exactly when the best root's content reaches `t`, with the
/// HTML, text, title and byline of that content (links resolved against
/// `base`); otherwise the check fails.
pub open spec fn extracted(
    d: Document,
    t: int,
    base: Option<Seq<char>>,
    r: Result<Article, ExtractError>,
) -> bool {
    &&& r is Ok <==> accepts(d, t)
    &&& r is Err ==> r == Err::<Article, ExtractError>(ExtractError::ReadabilityCheckFailed)
    &&& r matches Ok(a) ==> exists|b: int|
        {
            let (lo, hi) = content_range(d, b);
            &&& #[trigger] is_best(d, b)
            &&& a.content@ == seq_html(d, base, lo, hi)
            &&& a.text_content@ == content_text(d, b)
            &&& opt_view(a.title) == title_of(d, lo, hi)
            &&& opt_view(a.byline) == byline_of(d, lo, hi)
        }
}

/// Two documents with the same tree and marks agree on the best root, its
/// content and its text, and so on acceptance at every threshold.
pub proof fn lemma_same_outcome(d1: Document, d2: Document)
    requires
        d1.wf(),
        same_doc(d1, d2),
    ensures
        forall|b: int| #[trigger] is_best(d1, b) == is_best(d2, b),
        forall|b: int|
            is_best(d1, b) ==> #[trigger] content_range(d1, b) == content_range(d2, b)
                && content_text(d1, b) == content_text(d2, b),
        forall|t: int| #[trigger] accepts(d1, t) == accepts(d2, t),
{
    assert(d1.tree().nodes.len() == d1.len() && d2.tree().nodes.len() == d2.len());
    assert forall|b: int| #[trigger] is_best(d1, b) == is_best(d2, b) by {
        assert forall|k: int| true implies score(d1, k) == score(d2, k) && selectable(d1, k)
            == selectable(d2, k) by {
            lemma_same_score(d1, d2, k);
        }
    }
    assert forall|b: int| is_best(d1, b) implies #[trigger] content_range(d1, b) == content_range(
        d2,
        b,
    ) && content_text(d1, b) == content_text(d2, b) by {
        let p = d1.parent@[b] as int;
        lemma_same_run_start(d1, d2, b, p + 1, p + 1);
        lemma_same_run_end(d1, d2, b, d1.end@[b] as int);
        lemma_run_bounds(d1, b);
        let (lo, hi) = content_range(d1, b);
        lemma_same_text(d1, d2, lo, hi);
    }
    assert forall|t: int| #[trigger] accepts(d1, t) == accepts(d2, t) by {
        if accepts(d1, t) {
            let b = choose|b: int| is_best(d1, b) && content_text(d1, b).len() >= t;
            assert(is_best(d2, b) && content_text(d2, b).len() >= t);
        }
        if accepts(d2, t) {
            let b = choose|b: int| is_best(d2, b) && content_text(d2, b).len() >= t;
            assert(is_best(d1, b) && content_text(d1, b).len() >= t);
        }
    }
}

proof fn lemma_run_bounds(d: Document, b: int)
    requires
        d.wf(),
        0 < b < d.len(),
    ensures
        0 <= content_range(d, b).0,
        content_range(d, b).1 <= d.len(),
{
    lemma_run_end_bound(d, b, d.end@[b] as int);
    lemma_run_start_bound(d, b, d.parent@[b] + 1, d.parent@[b] + 1);
}

proof fn lemma_run_end_bound(d: Document, r: int, c: int)
    requires
        c <= d.len(),
    ensures
        run_end(d, r, c) <= d.len(),
    decreases d.len() - c,
{
    if 0 <= c < d.len() && d.end@[c] > c && d.end@[c] <= d.len() {
        lemma_run_end_bound(d, r, d.end@[c] as int);
    }
}

proof fn lemma_run_start_bound(d: Document, r: int, c: int, s: int)
    requires
        0 <= c,
        0 <= s,
        0 <= r,
    ensures
        run_start(d, r, c, s) >= 0,
    decreases r - c,
{
    if c < r && d.end@[c] > c && d.end@[c] <= r {
        lemma_run_start_bound(d, r, d.end@[c] as int, s);
        lemma_run_start_bound(d, r, d.end@[c] as int, d.end@[c] as int);
    }
}

/// Extraction is deterministic: two runs on documents with the same tree and
/// marks, at the same threshold and base, agree on the outcome and on every
/// field of the article.
pub proof fn lemma_deterministic(
    d1: Document,
    d2: Document,
    t: int,
    base: Option<Seq<char>>,
    r1: Result<Article, ExtractError>,
    r2: Result<Article, ExtractError>,
)
    requires
        d1.wf(),
        same_doc(d1, d2),
        extracted(d1, t, base, r1),
        extracted(d2, t, base, r2),
    ensures
        r1 is Ok <==> r2 is Ok,
        r1 is Err ==> r1 == r2,
        r1 matches Ok(a1) ==> r2 matches Ok(a2) && a1.content@ == a2.content@
            && a1.text_content@ == a2.text_content@ && opt_view(a1.title) == opt_view(a2.title)
            && opt_view(a1.byline) == opt_view(a2.byline),
{
    lemma_same_outcome(d1, d2);
    assert(accepts(d1, t) == accepts(d2, t));
    if let (Ok(a1), Ok(a2)) = (r1, r2) {
        let b1 = choose|b: int| #[trigger] is_best(d1, b) && {
            let (lo, hi) = content_range(d1, b);
            &&& a1.content@ == seq_html(d1, base, lo, hi)
            &&& a1.text_content@ == content_text(d1, b)
            &&& opt_view(a1.title) == title_of(d1, lo, hi)
            &&& opt_view(a1.byline) == byline_of(d1, lo, hi)
        };
        let b2 = choose|b: int| #[trigger] is_best(d2, b) && {
            let (lo, hi) = content_range(d2, b);
            &&& a2.content@ == seq_html(d2, base, lo, hi)
            &&& a2.text_content@ == content_text(d2, b)
            &&& opt_view(a2.title) == title_of(d2, lo, hi)
            &&& opt_view(a2.byline) == byline_of(d2, lo, hi)
        };
        assert(is_best(d2, b1));
        lemma_best_unique(d2, b1, b2);
        lemma_run_bounds(d1, b1);
        let (lo, hi) = content_range(d1, b1);
        let n = d1.len() as int;
        assert(d1.tree().nodes.len() == d1.len() && d2.tree().nodes.len() == d2.len());
        lemma_same_first(d1, d2, Query::OgTitle, 0, n);
        lemma_same_first(d1, d2, Query::TitleTag, 0, n);
        lemma_same_first(d1, d2, Query::Heading, lo, hi);
        lemma_same_first(d1, d2, Query::AuthorMeta, 0, n);
        lemma_same_first(d1, d2, Query::RelAuthor, 0, n);
        lemma_same_first(d1, d2, Query::BylineHint, lo, hi);
        lemma_same_seq_html(d1, d2, base, lo, hi);
        assert forall|k: int| true implies #[trigger] inner_text(d1, k) == inner_text(d2, k) by {
            if 0 <= k < d1.len() {
                lemma_same_text(d1, d2, k + 1, d1.end@[k] as int);
            }
        }
        assert forall|k: int| true implies #[trigger] meta_content(d1, k) == meta_content(d2, k) by {
            if 0 <= k < d1.len() {
                lemma_same_node(d1, d2, k);
            }
        }
        assert(title_of(d1, lo, hi) == title_of(d2, lo, hi));
        assert(byline_of(d1, lo, hi) == byline_of(d2, lo, hi));
    }
}

/// Preprocessing a document a second time changes nothing that extraction
/// reads: the result on the twice-preprocessed document is the result on the
/// once-preprocessed one.
pub proof fn lemma_second_pass_unchanged(
    d0: Document,
    d1: Document,
    d2: Document,
    t: int,
    base: Option<Seq<char>>,
    r1: Result<Article, ExtractError>,
    r2: Result<Article, ExtractError>,
)
    requires
        d0.wf(),
        cleaned_from(d0, d1),
        cleaned_from(d1, d2),
        extracted(d1, t, base, r1),
        extracted(d2, t, base, r2),
    ensures
        r1 is Ok <==> r2 is Ok,
        r1 is Err ==> r1 == r2,
        r1 matches Ok(a1) ==> r2 matches Ok(a2) && a1.content@ == a2.content@
            && a1.text_content@ == a2.text_content@ && opt_view(a1.title) == opt_view(a2.title)
            && opt_view(a1.byline) == opt_view(a2.byline),
{
    crate::clean::lemma_preprocess_idempotent(d0, d1, d2);
    assert(d1.wf());
    lemma_deterministic(d1, d2, t, base, r1, r2);
}

/// Preprocessing two parses of the same input gives documents with the same
/// tree and marks.
proof fn lemma_same_cleaned(a0: Document, a1: Document, b0: Document, b1: Document)
    requires
        a0.wf(),
        b0.wf(),
        a0.unmarked(),
        b0.unmarked(),
        a0.tree() == b0.tree(),
        cleaned_from(a0, a1),
        cleaned_from(b0, b1),
    ensures
        a1.wf(),
        same_doc(a1, b1),
{
    assert(a0.tree().nodes.len() == a0.len() && b0.tree().nodes.len() == b0.len());
    assert(a0.removed@ =~= b0.removed@);
    assert(a0.unwrapped@ =~= b0.unwrapped@);
    assert(same_doc(a0, b0));
    assert forall|i: int| 0 <= i < a0.len() implies #[trigger] a1.removed@[i] == b1.removed@[i]
        && a1.unwrapped@[i] == b1.unwrapped@[i] by {
        lemma_same_node(a0, b0, i);
        if i > 0 {
            lemma_same_node(a0, b0, i - 1);
        }
        if i + 1 < a0.len() {
            lemma_same_node(a0, b0, i + 1);
        }
        assert(strips(a0, i) == strips(b0, i));
        assert(collapses(a0, i) == collapses(b0, i));
        assert(unwraps(a0, i) == unwraps(b0, i));
    }
    assert(a1.removed@ =~= b1.removed@);
    assert forall|i: int| 0 <= i < a0.len() implies #[trigger] a1.unwrapped@[i]
        == b1.unwrapped@[i] by {
        assert(a1.removed@[i] == b1.removed@[i]);
    }
    assert(a1.unwrapped@ =~= b1.unwrapped@);
    assert(a1.tree() == a0.tree());
    assert(b1.tree() == b0.tree());
}

/// Extraction of an input is deterministic: two calls on the same input, at
/// the same threshold and base, agree on the outcome and on every field.
pub proof fn lemma_extraction_deterministic(
    s: Seq<char>,
    t: int,
    base: Option<Seq<char>>,
    r1: Result<Article, ExtractError>,
    r2: Result<Article, ExtractError>,
)
    requires
        extraction_of(s, t, base, r1),
        extraction_of(s, t, base, r2),
    ensures
        r1 is Ok <==> r2 is Ok,
        r1 is Err ==> r1 == r2,
        r1 matches Ok(a1) ==> r2 matches Ok(a2) && a1.content@ == a2.content@
            && a1.text_content@ == a2.text_content@ && opt_view(a1.title) == opt_view(a2.title)
            && opt_view(a1.byline) == opt_view(a2.byline),
{
    let (a0, a1) = choose|d0: Document, d1: Document|
        #![trigger cleaned_from(d0, d1)]
        d0.wf() && d0.unmarked() && d0.tree() == parsed(s) && cleaned_from(d0, d1) && extracted(
            d1,
            t,
            base,
            r1,
        );
    let (b0, b1) = choose|d0: Document, d1: Document|
        #![trigger cleaned_from(d0, d1)]
        d0.wf() && d0.unmarked() && d0.tree() == parsed(s) && cleaned_from(d0, d1) && extracted(
            d1,
            t,
            base,
            r2,
        );
    lemma_same_cleaned(a0, a1, b0, b1);
    lemma_deterministic(a1, b1, t, base, r1, r2);
}

/// The threshold law on an input: extraction succeeds exactly when the text
/// of the best content reaches the threshold, so a lower threshold succeeds
/// wherever a higher one does.
pub proof fn lemma_extraction_threshold(
    s: Seq<char>,
    t1: int,
    t2: int,
    base: Option<Seq<char>>,
    r1: Result<Article, ExtractError>,
    r2: Result<Article, ExtractError>,
)
    requires
        t1 <= t2,
        extraction_of(s, t1, base, r1),
        extraction_of(s, t2, base, r2),
    ensures
        r2 is Ok ==> r1 is Ok,
        r1 is Err ==> r2 == Err::<Article, ExtractError>(ExtractError::ReadabilityCheckFailed),
{
    let (a0, a1) = choose|d0: Document, d1: Document|
        #![trigger cleaned_from(d0, d1)]
        d0.wf() && d0.unmarked() && d0.tree() == parsed(s) && cleaned_from(d0, d1) && extracted(
            d1,
            t1,
            base,
            r1,
        );
    let (b0, b1) = choose|d0: Document, d1: Document|
        #![trigger cleaned_from(d0, d1)]
        d0.wf() && d0.unmarked() && d0.tree() == parsed(s) && cleaned_from(d0, d1) && extracted(
            d1,
            t2,
            base,
            r2,
        );
    lemma_same_cleaned(a0, a1, b0, b1);
    lemma_same_outcome(a1, b1);
    if accepts(b1, t2) {
        let b = choose|b: int| is_best(b1, b) && content_text(b1, b).len() >= t2;
        assert(is_best(a1, b) && content_text(a1, b).len() >= t1);
    }
}

/// Extracts the article from a parsed document, preprocessing it in place.
pub fn extract_document(d: &mut Document, options: &Options) -> (r: Result<Article, ExtractError>)
    requires
        old(d).wf(),
    ensures
        final(d).wf(),
        cleaned_from(*old(d), *final(d)),
        extracted(*final(d), options.char_threshold as int, opt_view(options.base_url), r),
{
    preprocess(d);
    let dd: &Document = d;
    match select(dd) {
        None => {
            proof {
                if accepts(*dd, options.char_threshold as int) {
                    let c = choose|c: int| is_best(*dd, c) && content_text(*dd, c).len() >= options.char_threshold;
                }
            }
            Err(ExtractError::ReadabilityCheckFailed)
        },
        Some(b) => {
            let (lo, hi) = content_range_of(dd, b);
            let text = plain_text_of(dd, lo, hi);
            proof {
                lemma_threshold_law(*dd, b as int, options.char_threshold as int, options.char_threshold as int);
            }
            if text.len() < options.char_threshold {
                return Err(ExtractError::ReadabilityCheckFailed);
            }
            let base = match &options.base_url {
                Some(u) => Some(chars_of(u.as_str())),
                None => None,
            };
            let content = match &base {
                Some(v) => render_html(dd, lo, hi, Some(v)),
                None => render_html(dd, lo, hi, None),
            };
            let t = match title(dd, lo, hi) {
                Some(v) => Some(string_of(&v)),
                None => None,
            };
            let by = match byline(dd, lo, hi) {
                Some(v) => Some(string_of(&v)),
                None => None,
            };
            Ok(Article {
                title: t,
                byline: by,
                content: string_of(&content),
                text_content: string_of(&text),
            })
        },
    }
}

/// `r` is what extraction gives for the input `s`: the parse of `s`,
/// preprocessed, yields `r` at threshold `t` with links resolved against `base`.
pub open spec fn extraction_of(
    s: Seq<char>,
    t: int,
    base: Option<Seq<char>>,
    r: Result<Article, ExtractError>,
) -> bool {
    exists|d0: Document, d1: Document|
        #![trigger cleaned_from(d0, d1)]
        {
            &&& d0.wf()
            &&& d0.unmarked()
            &&& d0.tree() == parsed(s)
            &&& cleaned_from(d0, d1)
            &&& extracted(d1, t, base, r)
        }
}

/// Extracts the readable article from `html`.
pub fn extract(html: &str, options: &Options) -> (r: Result<Article, ExtractError>)
    ensures
        html@.len() > MAX_INPUT_CHARS <==> r == Err::<Article, ExtractError>(
            ExtractError::Parse(ParseError::TooLarge),
        ),
        html@.len() <= MAX_INPUT_CHARS ==> extraction_of(
            html@,
            options.char_threshold as int,
            opt_view(options.base_url),
            r,
        ),
{
    match parse(html) {
        Err(e) => Err(ExtractError::Parse(e)),
        Ok(mut d) => {
            let ghost d0 = d;
            let r = extract_document(&mut d, options);
            assert(cleaned_from(d0, d) && extracted(
                d,
                options.char_threshold as int,
                opt_view(options.base_url),
                r,
            ));
            r
        },
    }
}

/// Cleans `html` into its readable article at the service's fixed threshold,
/// resolving links against `url` when given.
pub fn clean(html: &str, url: Option<String>) -> (r: Result<Article, ExtractError>)
    ensures
        html@.len() > MAX_INPUT_CHARS <==> r == Err::<Article, ExtractError>(
            ExtractError::Parse(ParseError::TooLarge),
        ),
        html@.len() <= MAX_INPUT_CHARS ==> extraction_of(
            html@,
            DEFAULT_CHAR_THRESHOLD as int,
            opt_view(url),
            r,
        ),
{
    let options = Options::new().base_url(url);
    extract(html, &options)
}

} // verus!
