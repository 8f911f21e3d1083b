use crabclaw::telegram::{acl_allows, escape_html, markdown_to_telegram_html, split_message};

#[test]
fn telegram_split_short_message() {
    let chunks = split_message("hello", 4096);
    assert_eq!(chunks, vec!["hello"]);
}

#[test]
fn telegram_split_long_message() {
    let long = "a".repeat(5000);
    let chunks = split_message(&long, 4096);
    assert_eq!(chunks.len(), 2);
    assert_eq!(chunks[0].len(), 4096);
    assert_eq!(chunks[1].len(), 904);
}

#[test]
fn telegram_split_at_newline() {
    let text = format!("{}\n{}", "a".repeat(4000), "b".repeat(200));
    let chunks = split_message(&text, 4096);
    assert_eq!(chunks.len(), 2);
    assert_eq!(chunks[0].len(), 4000);
    assert_eq!(chunks[1].len(), 200);
}

#[test]
fn split_utf8_small_limit_no_empty_chunks() {
    let text = "你你你";
    let chunks = split_message(text, 1);
    assert_eq!(chunks, vec!["你", "你", "你"]);
}

#[test]
fn split_zero_limit_returns_empty() {
    let chunks = split_message("hello", 0);
    assert!(chunks.is_empty());
}

#[test]
fn split_utf8_preserves_valid_boundaries() {
    let text = "你好\n世界";
    let chunks = split_message(text, 2);
    assert_eq!(chunks, vec!["你", "好", "世", "界"]);
}

#[test]
fn split_empty_text_gives_one_empty_chunk() {
    assert_eq!(split_message("", 10), vec![""]);
}

#[test]
fn split_drops_newlines_between_chunks() {
    assert_eq!(split_message("ab\n\n\ncd", 3), vec!["ab", "cd"]);
}

#[test]
fn acl_allows_when_both_lists_empty() {
    assert!(acl_allows(&[], &[], "100", Some("alice"), "200"));
}

#[test]
fn acl_denies_when_chat_not_allowed() {
    let allow_from = vec!["100".to_string()];
    let allow_chats = vec!["300".to_string()];
    assert!(!acl_allows(&allow_from, &allow_chats, "100", Some("alice"), "200"));
}

#[test]
fn acl_allows_by_username() {
    let allow_from = vec!["alice".to_string()];
    assert!(acl_allows(&allow_from, &[], "100", Some("alice"), "200"));
}

#[test]
fn acl_denies_when_user_and_chat_mismatch() {
    let allow_from = vec!["999".to_string()];
    let allow_chats = vec!["300".to_string()];
    assert!(!acl_allows(&allow_from, &allow_chats, "100", Some("alice"), "200"));
}

#[test]
fn acl_empty_username_never_matches() {
    let allow_from = vec!["".to_string()];
    assert!(!acl_allows(&allow_from, &[], "100", Some(""), "200"));
    let allow_chats = vec!["200".to_string()];
    assert!(acl_allows(&[], &allow_chats, "100", None, "200"));
}

#[test]
fn html_escape_special_chars() {
    assert_eq!(escape_html("<b>&\"'"), "&lt;b&gt;&amp;&quot;&#39;");
}

#[test]
fn html_plain_text_passthrough() {
    assert_eq!(markdown_to_telegram_html("Hello, world!"), "Hello, world!");
}

#[test]
fn html_header_to_bold() {
    assert_eq!(markdown_to_telegram_html("## Title"), "<b>Title</b>");
    assert_eq!(markdown_to_telegram_html("### Sub"), "<b>Sub</b>");
}

#[test]
fn html_bold() {
    assert_eq!(
        markdown_to_telegram_html("This is **bold** text"),
        "This is <b>bold</b> text"
    );
}

#[test]
fn html_italic() {
    assert_eq!(
        markdown_to_telegram_html("This is *italic* text"),
        "This is <i>italic</i> text"
    );
}

#[test]
fn html_inline_code() {
    assert_eq!(
        markdown_to_telegram_html("Use `cargo test` to run"),
        "Use <code>cargo test</code> to run"
    );
}

#[test]
fn html_code_block() {
    let input = "Before\n```rust\nfn main() {}\n```\nAfter";
    let output = markdown_to_telegram_html(input);
    assert!(output.contains("<pre><code>"));
    assert!(output.contains("fn main() {}"));
    assert!(output.contains("</code></pre>"));
    assert!(output.contains("Before"));
    assert!(output.contains("After"));
}

#[test]
fn html_link() {
    assert_eq!(
        markdown_to_telegram_html("Visit [Rust](https://rust-lang.org) now"),
        "Visit <a href=\"https://rust-lang.org\">Rust</a> now"
    );
}

#[test]
fn html_strikethrough() {
    assert_eq!(
        markdown_to_telegram_html("This is ~~deleted~~ text"),
        "This is <s>deleted</s> text"
    );
}

#[test]
fn html_mixed_formatting() {
    let input = "## Summary\n\nThis is **bold** and *italic* with `code`.";
    let output = markdown_to_telegram_html(input);
    assert!(output.contains("<b>Summary</b>"));
    assert!(output.contains("<b>bold</b>"));
    assert!(output.contains("<i>italic</i>"));
    assert!(output.contains("<code>code</code>"));
}

#[test]
fn html_escapes_in_plain_text() {
    assert_eq!(
        markdown_to_telegram_html("a < b && c > d"),
        "a &lt; b &amp;&amp; c &gt; d"
    );
}

#[test]
fn html_code_block_exact_output() {
    assert_eq!(
        markdown_to_telegram_html("Before\n```rust\nfn main() {}\n```\nAfter"),
        "Before\n<pre><code>fn main() {}</code></pre>\nAfter"
    );
}

#[test]
fn html_unclosed_code_block_is_closed() {
    assert_eq!(
        markdown_to_telegram_html("```\nx < y\n"),
        "<pre><code>x &lt; y</code></pre>"
    );
}

#[test]
fn html_non_web_link_is_plain_text() {
    assert_eq!(
        markdown_to_telegram_html("[a](ftp://x)"),
        "[a](ftp://x)"
    );
}

#[test]
fn html_underscore_bold_and_lone_marker() {
    assert_eq!(markdown_to_telegram_html("__b__ a*"), "<b>b</b> a*");
}

use crabclaw::telegram::{inbound_text, outgoing_messages, session_id_for_chat, InboundMedia};

#[test]
fn inbound_text_by_media_kind() {
    assert_eq!(inbound_text(&InboundMedia::Text("hi".to_string())).as_deref(), Some("hi"));
    assert_eq!(inbound_text(&InboundMedia::Photo(None)).as_deref(), Some("[Photo received]"));
    assert_eq!(
        inbound_text(&InboundMedia::Photo(Some("cat".to_string()))).as_deref(),
        Some("[Photo] cat")
    );
    assert_eq!(
        inbound_text(&InboundMedia::Document(None, None)).as_deref(),
        Some("[Document: unnamed]")
    );
    assert_eq!(
        inbound_text(&InboundMedia::Document(Some("a.pdf".to_string()), Some("see".to_string())))
            .as_deref(),
        Some("[Document: a.pdf] see")
    );
    assert_eq!(inbound_text(&InboundMedia::Voice).as_deref(), Some("[Voice message received]"));
    assert_eq!(
        inbound_text(&InboundMedia::Sticker(Some("\u{1f600}".to_string()))).as_deref(),
        Some("[Sticker: \u{1f600}]")
    );
    assert_eq!(inbound_text(&InboundMedia::Other), None);
}

#[test]
fn session_ids_and_outgoing_messages() {
    assert_eq!(session_id_for_chat(-100123), "telegram:-100123");
    assert_eq!(session_id_for_chat(42), "telegram:42");
    let out = outgoing_messages("**hi** <b>");
    assert_eq!(out.len(), 1);
    assert_eq!(out[0].0, "<b>hi</b> &lt;b&gt;");
    assert_eq!(out[0].1, "**hi** <b>");
    let long = "a".repeat(5000);
    let parts = outgoing_messages(&long);
    assert_eq!(parts.len(), 2);
    assert!(parts.iter().all(|(_, plain)| plain.len() <= 4096));
}

#[test]
fn html_code_block_keeps_markdown_literal() {
    assert_eq!(
        markdown_to_telegram_html("```\nx = a*b*c\n```"),
        "<pre><code>x = a*b*c</code></pre>"
    );
    assert_eq!(
        markdown_to_telegram_html("See:\n```py\n# **not bold** and `tick`\n  [a](https://x.y) ~~s~~ <tag> & 'q'\n```\n**bold** after"),
        "See:\n<pre><code># **not bold** and `tick`\n  [a](https://x.y) ~~s~~ &lt;tag&gt; &amp; &#39;q&#39;</code></pre>\n<b>bold</b> after"
    );
}
