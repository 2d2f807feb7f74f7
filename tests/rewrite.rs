use mdbook_nix_repl::fence::{rewrite_chapter, rewrite_document, rewrite_fenced_nix_repl_blocks};
use mdbook_nix_repl::text::{same_text, split_lines, starts_with_marker};
use mdbook_nix_repl::widget::render_nix_repl_html;
use mdbook_nix_repl::NixRepl;

#[test]
fn block_becomes_widget_with_escaped_code() {
    let out = rewrite_fenced_nix_repl_blocks("```nix repl\n1 + 1\n```");
    assert!(out.contains("<pre><code class=\"language-nix\">1 + 1\n</code></pre>"));
    assert!(!out.contains("```"));
    assert!(out.starts_with("<div class=\"nix-repl-block\">"));
    assert!(out.contains("<button class=\"nix-repl-run\">Run</button>"));
    assert!(out.contains("<span class=\"nix-repl-status\"></span>"));
    assert!(out.contains("<pre class=\"nix-repl-output\"></pre>"));
}

#[test]
fn text_without_fences_gains_final_newline() {
    assert_eq!(rewrite_fenced_nix_repl_blocks("hello world"), "hello world\n");
}

#[test]
fn text_without_fences_is_unchanged() {
    let text = "# Title\n\nSome *prose*.\n```rust\nfn main() {}\n```\n";
    assert_eq!(rewrite_chapter(text), text);
    assert_eq!(rewrite_chapter(""), "");
}

#[test]
fn crlf_line_endings_become_newlines() {
    assert_eq!(rewrite_chapter("a\r\nb\r\n"), "a\nb\n");
    assert_eq!(rewrite_chapter("a\rb"), "a\rb\n");
}

#[test]
fn surrounding_text_is_kept_around_widget() {
    let out = rewrite_chapter("before\n```nix repl\nx\n```\nafter\n");
    let widget = render_nix_repl_html("x\n");
    assert_eq!(out, format!("before\n{}after\n", widget));
}

#[test]
fn unterminated_block_is_written_raw() {
    let out = rewrite_chapter("intro\n```nix repl\nlet a = 1;\nin a\n");
    assert_eq!(out, "intro\nlet a = 1;\nin a\n");
}

#[test]
fn indented_markers_with_annotations_match() {
    let out = rewrite_chapter("  ```nix repl title=demo\n  1 < 2\n\t```   \n");
    assert_eq!(out, render_nix_repl_html("  1 < 2\n"));
}

#[test]
fn start_marker_inside_block_closes_it() {
    let out = rewrite_chapter("```nix repl\n```nix repl x\n```\n");
    assert_eq!(out, format!("{}```\n", render_nix_repl_html("")));
}

#[test]
fn plain_nix_fence_is_not_a_repl_block() {
    let text = "```nix\n1 + 1\n```\n";
    assert_eq!(rewrite_chapter(text), text);
}

#[test]
fn two_blocks_are_both_rewritten() {
    let out = rewrite_chapter("```nix repl\na\n```\nmid\n```nix repl\nb\n```\n");
    let expected = format!("{}mid\n{}", render_nix_repl_html("a\n"), render_nix_repl_html("b\n"));
    assert_eq!(out, expected);
}

#[test]
fn empty_block_renders_empty_code() {
    let out = rewrite_chapter("```nix repl\n```\n");
    assert!(out.contains("<code class=\"language-nix\"></code>"));
}

#[test]
fn widget_escapes_markup() {
    let html = render_nix_repl_html("if a < b && c > d then \"x\" else 'y'");
    assert!(html.contains(
        "<code class=\"language-nix\">if a &lt; b &amp;&amp; c &gt; d then &quot;x&quot; else &#x27;y&#x27;</code>"
    ));
}

#[test]
fn escaped_code_decodes_to_original() {
    let body = "<a href=\"x\" title='y'>&amp;</a>\n";
    let html = render_nix_repl_html(body);
    let start = html.find("<code class=\"language-nix\">").unwrap() + "<code class=\"language-nix\">".len();
    let end = html.find("</code>").unwrap();
    let decoded = html[start..end]
        .replace("&lt;", "<")
        .replace("&gt;", ">")
        .replace("&quot;", "\"")
        .replace("&#x27;", "'")
        .replace("&amp;", "&");
    assert_eq!(decoded, body);
}

#[test]
fn document_units_are_each_rewritten() {
    let mut units = vec![
        "plain".to_string(),
        "```nix repl\n2 * 3\n```".to_string(),
        String::new(),
    ];
    rewrite_document(&mut units);
    assert_eq!(units.len(), 3);
    assert_eq!(units[0], "plain\n");
    assert_eq!(units[1], render_nix_repl_html("2 * 3\n"));
    assert_eq!(units[2], "");
}

#[test]
fn preprocessor_run_rewrites_chapters() {
    let mut chapters = vec!["```nix repl\n1\n```\ntext".to_string()];
    NixRepl.run(&mut chapters);
    assert_eq!(chapters[0], format!("{}text\n", render_nix_repl_html("1\n")));
}

#[test]
fn preprocessor_name_and_renderers() {
    assert_eq!(NixRepl.name(), "nix-repl");
    assert!(NixRepl.supports_renderer("html"));
    assert!(!NixRepl.supports_renderer("markdown"));
    assert!(!NixRepl.supports_renderer("htm"));
    assert!(!NixRepl.supports_renderer("html5"));
    assert!(!NixRepl.supports_renderer(""));
}

#[test]
fn marker_test_skips_unicode_white_space() {
    assert!(starts_with_marker("\u{3000} ```nix repl", "```nix repl"));
    assert!(starts_with_marker("```", "```"));
    assert!(starts_with_marker("anything", ""));
    assert!(!starts_with_marker("x```", "```"));
    assert!(!starts_with_marker("``", "```"));
    assert!(!starts_with_marker("   ", "```"));
}

#[test]
fn same_text_compares_whole_texts() {
    assert!(same_text("POST", "POST"));
    assert!(!same_text("POS", "POST"));
    assert!(!same_text("POSTS", "POST"));
    assert!(same_text("", ""));
}

#[test]
fn lines_split_like_std() {
    for text in ["", "\n", "a", "a\n", "a\r\nb", "a\n\nb\n", "x\r", "\r\n\r\n", "é\u{2028}\nz"] {
        let expected: Vec<String> = text.lines().map(|l| l.to_string()).collect();
        assert_eq!(split_lines(text), expected, "{:?}", text);
    }
}
