//! Fixed tables of tag names and keywords.
use vstd::prelude::*;
use crate::text::eq_str;

verus! {

/// Elements that never have content.
pub open spec fn void_tag(s: Seq<char>) -> bool {
    s == "area"@
        || s == "base"@
        || s == "br"@
        || s == "col"@
        || s == "embed"@
        || s == "hr"@
        || s == "img"@
        || s == "input"@
        || s == "link"@
        || s == "meta"@
        || s == "source"@
        || s == "wbr"@
}

pub fn is_void_tag(s: &Vec<char>) -> (r: bool)
    ensures
        r == void_tag(s@),
{
    eq_str(s, "area")
        || eq_str(s, "base")
        || eq_str(s, "br")
        || eq_str(s, "col")
        || eq_str(s, "embed")
        || eq_str(s, "hr")
        || eq_str(s, "img")
        || eq_str(s, "input")
        || eq_str(s, "link")
        || eq_str(s, "meta")
        || eq_str(s, "source")
        || eq_str(s, "wbr")
}

/// Elements whose content runs up to their own closing tag.
pub open spec fn raw_text_tag(s: Seq<char>) -> bool {
    s == "script"@
        || s == "style"@
        || s == "textarea"@
        || s == "title"@
}

pub fn is_raw_text_tag(s: &Vec<char>) -> (r: bool)
    ensures
        r == raw_text_tag(s@),
{
    eq_str(s, "script")
        || eq_str(s, "style")
        || eq_str(s, "textarea")
        || eq_str(s, "title")
}

/// Elements whose start closes an open paragraph.
pub open spec fn closes_paragraph(s: Seq<char>) -> bool {
    s == "p"@
        || s == "div"@
        || s == "section"@
        || s == "article"@
        || s == "main"@
        || s == "aside"@
        || s == "header"@
        || s == "footer"@
        || s == "nav"@
        || s == "ul"@
        || s == "ol"@
        || s == "table"@
        || s == "pre"@
        || s == "blockquote"@
        || s == "form"@
        || s == "hr"@
        || s == "h1"@
        || s == "h2"@
        || s == "h3"@
        || s == "h4"@
        || s == "h5"@
        || s == "h6"@
}

pub fn is_closing_paragraph(s: &Vec<char>) -> (r: bool)
    ensures
        r == closes_paragraph(s@),
{
    eq_str(s, "p")
        || eq_str(s, "div")
        || eq_str(s, "section")
        || eq_str(s, "article")
        || eq_str(s, "main")
        || eq_str(s, "aside")
        || eq_str(s, "header")
        || eq_str(s, "footer")
        || eq_str(s, "nav")
        || eq_str(s, "ul")
        || eq_str(s, "ol")
        || eq_str(s, "table")
        || eq_str(s, "pre")
        || eq_str(s, "blockquote")
        || eq_str(s, "form")
        || eq_str(s, "hr")
        || eq_str(s, "h1")
        || eq_str(s, "h2")
        || eq_str(s, "h3")
        || eq_str(s, "h4")
        || eq_str(s, "h5")
        || eq_str(s, "h6")
}

/// Elements the preprocessor removes with their content.
pub open spec fn stripped_tag(s: Seq<char>) -> bool {
    s == "script"@
        || s == "style"@
        || s == "noscript"@
        || s == "nav"@
        || s == "footer"@
        || s == "aside"@
        || s == "iframe"@
        || s == "form"@
        || s == "template"@
}

pub fn is_stripped_tag(s: &Vec<char>) -> (r: bool)
    ensures
        r == stripped_tag(s@),
{
    eq_str(s, "script")
        || eq_str(s, "style")
        || eq_str(s, "noscript")
        || eq_str(s, "nav")
        || eq_str(s, "footer")
        || eq_str(s, "aside")
        || eq_str(s, "iframe")
        || eq_str(s, "form")
        || eq_str(s, "template")
}

/// Wrappers that may be unwrapped when they hold a single child.
pub open spec fn wrapper_tag(s: Seq<char>) -> bool {
    s == "div"@
        || s == "span"@
}

pub fn is_wrapper_tag(s: &Vec<char>) -> (r: bool)
    ensures
        r == wrapper_tag(s@),
{
    eq_str(s, "div")
        || eq_str(s, "span")
}

/// Elements that start a new line in plain text.
pub open spec fn block_tag(s: Seq<char>) -> bool {
    s == "p"@
        || s == "div"@
        || s == "section"@
        || s == "article"@
        || s == "main"@
        || s == "header"@
        || s == "ul"@
        || s == "ol"@
        || s == "li"@
        || s == "table"@
        || s == "tr"@
        || s == "td"@
        || s == "pre"@
        || s == "blockquote"@
        || s == "h1"@
        || s == "h2"@
        || s == "h3"@
        || s == "h4"@
        || s == "h5"@
        || s == "h6"@
        || s == "br"@
        || s == "hr"@
        || s == "figure"@
        || s == "figcaption"@
}

pub fn is_block_tag(s: &Vec<char>) -> (r: bool)
    ensures
        r == block_tag(s@),
{
    eq_str(s, "p")
        || eq_str(s, "div")
        || eq_str(s, "section")
        || eq_str(s, "article")
        || eq_str(s, "main")
        || eq_str(s, "header")
        || eq_str(s, "ul")
        || eq_str(s, "ol")
        || eq_str(s, "li")
        || eq_str(s, "table")
        || eq_str(s, "tr")
        || eq_str(s, "td")
        || eq_str(s, "pre")
        || eq_str(s, "blockquote")
        || eq_str(s, "h1")
        || eq_str(s, "h2")
        || eq_str(s, "h3")
        || eq_str(s, "h4")
        || eq_str(s, "h5")
        || eq_str(s, "h6")
        || eq_str(s, "br")
        || eq_str(s, "hr")
        || eq_str(s, "figure")
        || eq_str(s, "figcaption")
}

/// Containers that may be chosen as the article root.
pub open spec fn candidate_tag(s: Seq<char>) -> bool {
    s == "p"@
        || s == "div"@
        || s == "section"@
        || s == "article"@
        || s == "main"@
        || s == "td"@
        || s == "pre"@
        || s == "blockquote"@
}

pub fn is_candidate_tag(s: &Vec<char>) -> (r: bool)
    ensures
        r == candidate_tag(s@),
{
    eq_str(s, "p")
        || eq_str(s, "div")
        || eq_str(s, "section")
        || eq_str(s, "article")
        || eq_str(s, "main")
        || eq_str(s, "td")
        || eq_str(s, "pre")
        || eq_str(s, "blockquote")
}

} // verus!
