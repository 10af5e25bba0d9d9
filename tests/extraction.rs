use readable::clean::preprocess;
use readable::meta::strip_site_name;
use readable::url::resolve;
use readable::{extract, parse, ExtractError, Options};

fn prose() -> String {
    "The quick brown fox jumps over the lazy dog. ".repeat(14)
}

fn chars(s: &str) -> Vec<char> {
    s.chars().collect()
}

fn text(v: &[char]) -> String {
    v.iter().collect()
}

fn article_page() -> String {
    format!(
        "<html><head><title>Article Name - SiteCo</title></head><body>\
         <nav><a href=\"/\">Home</a><a href=\"/about\">About</a></nav>\
         <div class=\"content\"><p>{}</p></div>\
         <footer>Copyright SiteCo</footer></body></html>",
        prose()
    )
}

#[test]
fn extractable_article() {
    let a = extract(&article_page(), &Options::new()).unwrap();
    assert!(a.text_content.len() >= 600);
    assert!(a.content.contains(prose().trim()));
    assert!(!a.content.contains("Home"));
    assert!(!a.content.contains("Copyright"));
    assert!(!a.text_content.contains("About"));
}

#[test]
fn non_article_page() {
    let html = "<nav><a href=\"/\">Home</a><a href=\"/x\">Products</a><a href=\"/y\">Contact</a></nav>";
    let r = extract(html, &Options::new());
    assert!(matches!(r, Err(ExtractError::ReadabilityCheckFailed)));
}

#[test]
fn title_fallback_strips_site_name() {
    let a = extract(&article_page(), &Options::new()).unwrap();
    assert_eq!(a.title, Some("Article Name".to_string()));
}

#[test]
fn og_title_wins() {
    let html = format!(
        "<head><meta property=\"og:title\" content=\" Open Graph Title \"><title>Other - Site</title></head>\
         <body><article><h1>Heading</h1><p>{}</p></article></body>",
        prose()
    );
    let a = extract(&html, &Options::new()).unwrap();
    assert_eq!(a.title, Some("Open Graph Title".to_string()));
}

#[test]
fn heading_is_last_title_fallback() {
    let html = format!("<body><article><h1>The Heading</h1><p>{}</p></article></body>", prose());
    let a = extract(&html, &Options::new()).unwrap();
    assert_eq!(a.title, Some("The Heading".to_string()));
}

#[test]
fn byline_from_meta_author() {
    let html = format!(
        "<head><meta name=\"author\" content=\"Jane Doe\"></head><body><div class=\"content\"><p>{}</p></div></body>",
        prose()
    );
    let a = extract(&html, &Options::new()).unwrap();
    assert_eq!(a.byline, Some("Jane Doe".to_string()));
}

#[test]
fn byline_from_hinted_element() {
    let html = format!(
        "<body><article><span class=\"byline\">By John Roe</span><p>{}</p></article></body>",
        prose()
    );
    let a = extract(&html, &Options::new()).unwrap();
    assert_eq!(a.byline, Some("By John Roe".to_string()));
}

#[test]
fn byline_absent() {
    let a = extract(&article_page(), &Options::new()).unwrap();
    assert_eq!(a.byline, None);
}

#[test]
fn link_rewriting() {
    let html = format!(
        "<div class=\"content\"><p>{} <a href=\"b.html\">more</a></p></div>",
        prose()
    );
    let opts = Options::new().base_url(Some("https://example.com/a/".to_string()));
    let a = extract(&html, &opts).unwrap();
    assert!(a.content.contains("href=\"https://example.com/a/b.html\""));
}

#[test]
fn links_kept_without_base() {
    let html = format!("<div class=\"content\"><p>{} <a href=\"b.html\">more</a></p></div>", prose());
    let a = extract(&html, &Options::new()).unwrap();
    assert!(a.content.contains("href=\"b.html\""));
}

#[test]
fn determinism() {
    let opts = Options::new().base_url(Some("https://example.com/a/".to_string()));
    let a = extract(&article_page(), &opts).unwrap();
    let b = extract(&article_page(), &opts).unwrap();
    assert_eq!(a.title, b.title);
    assert_eq!(a.byline, b.byline);
    assert_eq!(a.content, b.content);
    assert_eq!(a.text_content, b.text_content);
}

#[test]
fn threshold_boundary() {
    let body = "x".repeat(150);
    let html = format!("<div><p>{}</p></div>", body);
    assert!(extract(&html, &Options::new().char_threshold(150)).is_ok());
    let r = extract(&html, &Options::new().char_threshold(151));
    assert!(matches!(r, Err(ExtractError::ReadabilityCheckFailed)));
    assert!(extract(&html, &Options::new().char_threshold(0)).is_ok());
}

#[test]
fn default_threshold_rejects_short_text() {
    let html = "<div><p>Only a few words, not quite an article.</p></div>";
    let r = extract(html, &Options::new());
    assert!(matches!(r, Err(ExtractError::ReadabilityCheckFailed)));
    assert_eq!(ExtractError::ReadabilityCheckFailed.message(), "Failed to make readable text");
}

#[test]
fn preprocessing_is_idempotent() {
    let html = "<div><div><p>text  <!-- c --></p>\n \n<script>x()</script><span hidden>h</span></div></div>";
    let mut d = parse(html).unwrap();
    preprocess(&mut d);
    let removed = d.removed.clone();
    let unwrapped = d.unwrapped.clone();
    preprocess(&mut d);
    assert_eq!(d.removed, removed);
    assert_eq!(d.unwrapped, unwrapped);
    assert!(removed.iter().any(|b| *b));
}

#[test]
fn scripts_and_hidden_content_are_dropped() {
    let html = format!(
        "<div class=\"content\"><p>{}</p><script>var secret = 1;</script>\
         <p style=\"display:none\">Hidden words here</p><p aria-hidden=\"true\">Aria words</p></div>",
        prose()
    );
    let a = extract(&html, &Options::new()).unwrap();
    assert!(!a.text_content.contains("secret"));
    assert!(!a.text_content.contains("Hidden"));
    assert!(!a.text_content.contains("Aria"));
}

#[test]
fn positive_class_beats_sidebar() {
    let side = "Sidebar text that is long enough to count as a paragraph of prose here. ".repeat(3);
    let html = format!(
        "<div class=\"sidebar\"><p>{}</p></div><div class=\"content\"><p>{}</p></div>",
        side,
        prose()
    );
    let a = extract(&html, &Options::new()).unwrap();
    assert!(a.content.contains("quick brown fox"));
    assert!(!a.content.contains("Sidebar"));
}

#[test]
fn similar_siblings_are_merged() {
    let first = "First part of the story, long enough to be a paragraph. ".repeat(4);
    let second = "Second part of the story, long enough to be a paragraph. ".repeat(4);
    let html = format!("<div class=\"page\"><p>{}</p>\n<p>{}</p></div>", first, second);
    let a = extract(&html, &Options::new()).unwrap();
    assert!(a.text_content.contains("First part"));
    assert!(a.text_content.contains("Second part"));
}

#[test]
fn plain_text_breaks_blocks_and_squeezes_spaces() {
    let line = "word ".repeat(30);
    let html = format!("<div class=\"content\"><h2>Heading   one</h2><p>{}</p><p>a   b\n\tc {}</p></div>", line, line);
    let a = extract(&html, &Options::new()).unwrap();
    assert!(a.text_content.starts_with("Heading one\nword word"));
    assert!(a.text_content.contains("\na b c word"));
    assert!(!a.text_content.ends_with(' '));
}

#[test]
fn entities_are_decoded_and_escaped_again() {
    let html = format!("<div class=\"content\"><p>Fish &amp; chips &lt;3 {}</p></div>", prose());
    let a = extract(&html, &Options::new()).unwrap();
    assert!(a.text_content.starts_with("Fish & chips <3"));
    assert!(a.content.contains("Fish &amp; chips &lt;3"));
}

#[test]
fn noise_attributes_are_dropped() {
    let html = format!(
        "<div class=\"content\"><p style=\"color:red\" data-track=\"1\" onclick=\"x()\" title=\"t\">{}</p></div>",
        prose()
    );
    let a = extract(&html, &Options::new()).unwrap();
    assert!(!a.content.contains("style="));
    assert!(!a.content.contains("data-track"));
    assert!(!a.content.contains("onclick"));
    assert!(a.content.contains("title=\"t\""));
}

#[test]
fn resolve_forms() {
    let base = chars("https://example.com/a/page.html");
    assert_eq!(text(&resolve(&base, &chars("b.html"))), "https://example.com/a/b.html");
    assert_eq!(text(&resolve(&base, &chars("/root.png"))), "https://example.com/root.png");
    assert_eq!(text(&resolve(&base, &chars("//cdn.example.org/x.js"))), "https://cdn.example.org/x.js");
    assert_eq!(text(&resolve(&base, &chars("http://other.org/"))), "http://other.org/");
    assert_eq!(text(&resolve(&base, &chars("#top"))), "#top");
    let bare = chars("https://example.com");
    assert_eq!(text(&resolve(&bare, &chars("b.html"))), "https://example.com/b.html");
    assert_eq!(text(&resolve(&chars("not a url"), &chars("b.html"))), "b.html");
}

#[test]
fn site_name_stripping() {
    assert_eq!(text(&strip_site_name(&chars("Article Name - SiteCo"))), "Article Name");
    assert_eq!(text(&strip_site_name(&chars("Blog | A Much Longer Headline"))), "A Much Longer Headline");
    assert_eq!(text(&strip_site_name(&chars("  Well-known facts  "))), "Well-known facts");
    assert_eq!(text(&strip_site_name(&chars("Guide: Rust"))), "Guide: Rust");
}

#[test]
fn parser_recovers_from_unclosed_tags() {
    let d = parse("<div><p>one<p>two</div><b>tail").unwrap();
    let texts: Vec<String> = d
        .nodes
        .iter()
        .filter(|n| n.kind == readable::dom::NodeKind::Text)
        .map(|n| text(&n.text))
        .collect();
    assert_eq!(texts, vec!["one", "two", "tail"]);
    assert_eq!(d.end[0], d.nodes.len());
    for i in 1..d.nodes.len() {
        assert!(d.parent[i] < i);
        assert!(d.end[i] > i && d.end[i] <= d.end[d.parent[i]]);
    }
}

#[test]
fn bare_span_wrappers_are_unwrapped() {
    let html = format!("<div class=\"content\"><p><span>{}</span></p></div>", prose());
    let a = extract(&html, &Options::new()).unwrap();
    assert!(!a.content.contains("<span>"));
    assert!(a.content.contains("quick brown fox"));
}

#[test]
fn plain_input_is_one_text_node() {
    let d = parse("just words, no markup").unwrap();
    assert_eq!(d.nodes.len(), 2);
    assert_eq!(text(&d.nodes[1].text), "just words, no markup");
}

#[test]
fn attribute_entities_are_decoded() {
    let d = parse("<a title=\"Q&amp;A\" href=x.html>t</a>").unwrap();
    let a = &d.nodes[1];
    assert_eq!(text(&a.tag), "a");
    assert_eq!(text(&a.attrs[0].value), "Q&A");
    assert_eq!(text(&a.attrs[1].value), "x.html");
}

#[test]
fn empty_input_is_rejected_as_non_article() {
    let r = extract("", &Options::new());
    assert!(matches!(r, Err(ExtractError::ReadabilityCheckFailed)));
}

#[test]
fn empty_hinted_container_does_not_win() {
    let html = format!(
        "<body><div class=\"content\"></div><div id=\"main\"></div><article><p>{}</p></article></body>",
        prose()
    );
    let a = extract(&html, &Options::new()).unwrap();
    assert!(a.text_content.len() >= 600);
    assert!(a.content.starts_with("<article>"));
}
