use lanpaste::render::{
    decimal_text, html_escape, html_unescape_minimal, looks_like_markdown, promote_mermaid_blocks,
    render_dashboard, render_markdown, render_page, slug_from_rel_path,
};
use lanpaste::types::{RecentItem, Timestamp};

#[test]
fn markdown_is_sanitized() {
    let out = render_markdown("# hi\n\n<script>alert(1)</script>");
    assert!(out.contains("<h1>hi</h1>"));
    assert!(!out.contains("<script>"));
}

#[test]
fn markdown_supports_table() {
    let out = render_markdown("| a | b |\n|---|---|\n| 1 | 2 |");
    assert!(out.contains("<table>"));
    assert!(out.contains("<td>1</td>"));
}

#[test]
fn mermaid_fence_promoted() {
    let out = render_markdown("```mermaid\ngraph TD;\nA-->B;\n```");
    assert!(out.contains("<div class=\"mermaid\">"));
    assert!(out.contains("graph TD;"));
}

#[test]
fn markdown_heuristic_works() {
    assert!(looks_like_markdown("# title\ntext"));
    assert!(looks_like_markdown("```rs\nfn main(){}\n```"));
    assert!(!looks_like_markdown("just plain text"));
}

#[test]
fn page_wraps_body() {
    let out = render_page("x", "<p>ok</p>");
    assert!(out.contains("<title>x</title>"));
    assert!(out.contains("<p>ok</p>"));
    assert!(out.contains("katex"));
    assert!(out.contains("mermaid"));
}

#[test]
fn escape_works() {
    assert_eq!(html_escape("<>&\"'"), "&lt;&gt;&amp;&quot;&#39;");
}

#[test]
fn dashboard_contains_api_links() {
    let out = render_dashboard(&[RecentItem {
        id: "01TEST".to_string(),
        created_at: Timestamp { unix_nanos: 1_770_940_800_000_000_000 },
        path: "pastes/2026/02/13/01TEST__note.md.md".to_string(),
        commit: "abc123".to_string(),
        tag: Some("demo".to_string()),
        size: 12,
        content_type: "text/markdown".to_string(),
    }]);
    assert!(out.contains("LAN Paste Dashboard"));
    assert!(out.contains("/api/v1/paste"));
    assert!(out.contains("/p/01TEST/md"));
    assert!(out.contains("/p/01TEST/note.md"));
}

#[test]
fn slug_extract_works() {
    let slug = slug_from_rel_path("pastes/2026/02/13/01TEST__note.md.md").expect("slug");
    assert_eq!(slug, "note.md");
}

#[test]
fn slug_extract_edges() {
    assert_eq!(slug_from_rel_path("a/ID__x.txt/").as_deref(), Some("x"));
    assert_eq!(slug_from_rel_path("a/ID__x.txt/.").as_deref(), Some("x"));
    assert_eq!(slug_from_rel_path("a/.."), None);
    assert_eq!(slug_from_rel_path("a/ID__.txt"), None);
    assert_eq!(slug_from_rel_path("a/plain.txt"), None);
    assert_eq!(slug_from_rel_path("/"), None);
    assert_eq!(slug_from_rel_path("ID__a__b"), Some("a__b".to_string()));
}

#[test]
fn unescape_reverses_escape() {
    assert_eq!(html_unescape_minimal("&lt;a&gt; &amp;lt; &quot;&#39;"), "<a> &lt; \"'");
}

#[test]
fn mermaid_promotion_unescapes_and_keeps_unclosed() {
    let html = "x<pre><code class=\"language-mermaid\">A--&gt;B</code></pre>y";
    assert_eq!(promote_mermaid_blocks(html), "x<div class=\"mermaid\">A-->B</div>y");
    let open = "<pre><code class=\"language-mermaid\">A";
    assert_eq!(promote_mermaid_blocks(open), open);
    assert_eq!(promote_mermaid_blocks("plain"), "plain");
}

#[test]
fn markdown_heuristic_edges() {
    assert!(!looks_like_markdown("   \n  "));
    assert!(looks_like_markdown("text\n   - item"));
    assert!(looks_like_markdown("a\n| x |"));
    assert!(looks_like_markdown("1. one"));
    assert!(!looks_like_markdown("-"));
    assert!(!looks_like_markdown("a -b"));
}

#[test]
fn page_escapes_title() {
    let out = render_page("<t>", "");
    assert!(out.contains("<title>&lt;t&gt;</title>"));
    assert!(out.starts_with("<!doctype html>"));
    assert!(out.ends_with("</body></html>"));
}

#[test]
fn dashboard_empty_and_rows() {
    let out = render_dashboard(&[]);
    assert!(out.contains("No pastes yet."));
    let out = render_dashboard(&[RecentItem {
        id: "<ID>".to_string(),
        created_at: Timestamp { unix_nanos: 0 },
        path: "pastes/x/ID__s.txt".to_string(),
        commit: String::new(),
        tag: None,
        size: 1234,
        content_type: "text/plain".to_string(),
    }]);
    assert!(out.contains("<td>1234</td>"));
    assert!(out.contains("&lt;ID&gt;"));
    assert!(out.contains("<td>-</td>"));
    assert!(out.contains("<td>1970-01-01 0:00:00"));
}

#[test]
fn decimal_formatting() {
    assert_eq!(decimal_text(0), "0");
    assert_eq!(decimal_text(7), "7");
    assert_eq!(decimal_text(1050), "1050");
    assert_eq!(decimal_text(usize::MAX), usize::MAX.to_string());
}
