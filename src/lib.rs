//! Readable-article extraction over an arena-backed HTML document tree.
//!
//! The pipeline runs in four stages: parsing, preprocessing, scoring and
//! selection, and rendering.  Each stage is a verified function whose
//! contract is stated over the spec functions of its module.
pub mod text;
pub mod dom;
pub mod tags;
pub mod parse;
pub mod clean;
pub mod score;
pub mod render;
pub mod url;
pub mod meta;
pub mod html;
pub mod same;
pub mod extract;

pub use dom::Document;
pub use extract::{clean, extract, extract_document, Article, ExtractError, Options, DEFAULT_CHAR_THRESHOLD};
pub use parse::{parse, ParseError};
