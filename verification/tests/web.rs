use crabclaw::web::{extract_attr, normalize_url, strip_html_to_markdown, web_search};

#[test]
fn normalize_url_adds_https() {
    assert_eq!(normalize_url("example.com"), Some("https://example.com".to_string()));
}

#[test]
fn normalize_url_preserves_http() {
    assert_eq!(normalize_url("http://example.com"), Some("http://example.com".to_string()));
}

#[test]
fn normalize_url_preserves_https() {
    assert_eq!(normalize_url("https://example.com"), Some("https://example.com".to_string()));
}

#[test]
fn normalize_url_empty_returns_none() {
    assert_eq!(normalize_url(""), None);
    assert_eq!(normalize_url("   "), None);
}

#[test]
fn strip_html_headers() {
    let html = "<h1>Title</h1><h2>Subtitle</h2>";
    let md = strip_html_to_markdown(html);
    assert!(md.contains("# Title"), "h1: {md}");
    assert!(md.contains("## Subtitle"), "h2: {md}");
}

#[test]
fn strip_html_paragraphs() {
    let html = "<p>First paragraph.</p><p>Second paragraph.</p>";
    let md = strip_html_to_markdown(html);
    assert!(md.contains("First paragraph."), "p1: {md}");
    assert!(md.contains("Second paragraph."), "p2: {md}");
}

#[test]
fn strip_html_bold_italic() {
    let html = "<b>bold</b> and <i>italic</i>";
    let md = strip_html_to_markdown(html);
    assert!(md.contains("**bold**"), "bold: {md}");
    assert!(md.contains("*italic*"), "italic: {md}");
}

#[test]
fn strip_html_code() {
    let html = "Use <code>cargo test</code> to run";
    let md = strip_html_to_markdown(html);
    assert!(md.contains("`cargo test`"), "code: {md}");
}

#[test]
fn strip_html_list() {
    let html = "<ul><li>Item 1</li><li>Item 2</li></ul>";
    let md = strip_html_to_markdown(html);
    assert!(md.contains("- Item 1"), "li1: {md}");
    assert!(md.contains("- Item 2"), "li2: {md}");
}

#[test]
fn strip_html_removes_script_style() {
    let html = "<p>Keep</p><script>var x = 1;</script><style>.foo{}</style><p>Also keep</p>";
    let md = strip_html_to_markdown(html);
    assert!(md.contains("Keep"), "keep: {md}");
    assert!(md.contains("Also keep"), "also keep: {md}");
    assert!(!md.contains("var x"), "script removed: {md}");
    assert!(!md.contains(".foo"), "style removed: {md}");
}

#[test]
fn strip_html_entities() {
    let html = "&amp; &lt; &gt; &quot; &nbsp;";
    let md = strip_html_to_markdown(html);
    assert!(md.contains('&'), "amp: {md}");
    assert!(md.contains('<'), "lt: {md}");
    assert!(md.contains('>'), "gt: {md}");
}

#[test]
fn web_search_returns_duckduckgo_url() {
    let result = web_search("rust programming");
    assert!(result.contains("duckduckgo.com"), "has DDG URL: {result}");
    assert!(
        result.contains("rust+programming") || result.contains("rust%20programming"),
        "query encoded: {result}"
    );
}

#[test]
fn extract_attr_href() {
    let tag = r#"a href="https://example.com" class="link""#;
    assert_eq!(extract_attr(tag, "href"), Some("https://example.com".to_string()));
}

#[test]
fn extract_attr_missing() {
    let tag = "a class=\"link\"";
    assert_eq!(extract_attr(tag, "href"), None);
}

#[test]
fn extract_attr_single_quotes_and_case() {
    assert_eq!(extract_attr("A HREF='/x'", "href"), Some("/x".to_string()));
}

#[test]
fn web_search_encodes_reserved_and_non_ascii_bytes() {
    let result = web_search("a&b é~");
    assert!(result.starts_with("Search URL: https://duckduckgo.com/?q=a%26b%20%C3%A9~\n\n"));
}

#[test]
fn strip_html_exact_output() {
    assert_eq!(
        strip_html_to_markdown("<p>A &unknown; &;b</p>\n\n\n<br><br><br>C"),
        "A &unknown; b\n\nC"
    );
}

#[test]
fn strip_html_link_brackets() {
    assert_eq!(
        strip_html_to_markdown("<a href=\"https://x.y\">site</a>"),
        "[site]"
    );
}

#[test]
fn plain_text_passes_through_unchanged() {
    assert_eq!(strip_html_to_markdown("Plain-text_without.markup!"), "Plain-text_without.markup!");
}
