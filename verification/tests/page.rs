use orbit_notes::error::{CardField, Error};
use orbit_notes::frontmatter::skip_frontmatter;
use orbit_notes::page::{
    assemble_page, body_to_html, fmt_footnotes_to_html, markdown_to_html, PAGE_TEMPLATE,
};

fn page(html: &str) -> String {
    format!(
        "<!DOCTYPE html>\n<html lang=\"en\">\n<head>\n<meta charset=\"utf-8\">\n<meta name=\"viewport\" content=\"width=device-width, initial-scale=1\">\n<link rel=\"stylesheet\" href=\"tufte.css\">\n<script type=\"module\" src=\"https://js.withorbit.com/orbit-web-component.js\"></script>\n</head>\n<body>\n<article>\n{}\n</article>\n</body>\n</html>\n",
        html
    )
}

#[test]
fn plain_paragraph() {
    assert_eq!(body_to_html("Hello *world*."), Ok("<p>Hello <em>world</em>.</p>\n".to_string()));
    assert_eq!(body_to_html(""), Ok(String::new()));
}

#[test]
fn struck_through_spans() {
    assert_eq!(body_to_html("~~gone~~"), Ok("<p><del>gone</del></p>\n".to_string()));
}

#[test]
fn typographic_punctuation() {
    assert_eq!(
        body_to_html("\"quoted\" -- it's"),
        Ok("<p>\u{201c}quoted\u{201d} \u{2013} it\u{2019}s</p>\n".to_string())
    );
}

#[test]
fn reference_becomes_a_numbered_anchor() {
    assert_eq!(
        body_to_html("Hello[^1] world."),
        Ok("<p>Hello<sup class=\"fn\"><a id=\"1-back\" href=\"#1\">[1]</a></sup> world.</p>\n".to_string())
    );
}

#[test]
fn references_count_up_whatever_their_labels() {
    let html = body_to_html("a[^x] b[^y]\n\nc[^x]").unwrap();
    assert_eq!(
        html,
        "<p>a<sup class=\"fn\"><a id=\"x-back\" href=\"#x\">[1]</a></sup> b<sup class=\"fn\"><a id=\"y-back\" href=\"#y\">[2]</a></sup></p>\n<p>c<sup class=\"fn\"><a id=\"x-back\" href=\"#x\">[3]</a></sup></p>\n"
    );
}

#[test]
fn links_to_markdown_lead_to_pages() {
    assert_eq!(
        body_to_html("[a](b.md) [c](d.txt \"t\") [e](f.md.md)"),
        Ok("<p><a href=\"b.html\">a</a> <a href=\"d.txt\" title=\"t\">c</a> <a href=\"f.md.html\">e</a></p>\n".to_string())
    );
}

#[test]
fn deck_block_becomes_widgets() {
    let source = "```orbit\n[{\"question\":\"Q1\",\"question_attachments\":\"\",\"answer\":\"A1\"}]\n```";
    let html = body_to_html(source).unwrap();
    assert_eq!(
        html,
        "<orbit-reviewarea><orbit-prompt question=\"Q1\" question-attachments=\"\" answer=\"A1\"></orbit-prompt></orbit-reviewarea>"
    );
    assert_eq!(html.matches("<orbit-prompt ").count(), 1);
    assert!(html.contains("question=\"Q1\""));
    assert!(html.contains("answer=\"A1\""));
}

#[test]
fn deck_block_among_prose() {
    let source = "before\n\n```orbit\n[{\"question\":\"1 < 2?\",\"question_attachments\":\"\",\"answer\":\"*yes*\"},\n{\"question\":\"Q2\",\"question_attachments\":\"x\",\"answer\":\"A2\"}]\n```\n\nafter[^n]\n";
    assert_eq!(
        body_to_html(source),
        Ok("<p>before</p>\n<orbit-reviewarea><orbit-prompt question=\"1 < 2?\" question-attachments=\"\" answer=\"*yes*\"></orbit-prompt><orbit-prompt question=\"Q2\" question-attachments=\"x\" answer=\"A2\"></orbit-prompt></orbit-reviewarea>\n<p>after<sup class=\"fn\"><a id=\"n-back\" href=\"#n\">[1]</a></sup></p>\n".to_string())
    );
}

#[test]
fn other_code_blocks_stay_code() {
    assert_eq!(
        body_to_html("```rust\nlet x = \"[^1]\";\n```\n"),
        Ok("<pre><code class=\"language-rust\">let x = &quot;[^1]&quot;;\n</code></pre>\n".to_string())
    );
    assert_eq!(
        body_to_html("```\n[a](b.md)\n```\n"),
        Ok("<pre><code>[a](b.md)\n</code></pre>\n".to_string())
    );
}

#[test]
fn deck_that_lacks_a_field_fails_the_document() {
    let source = "text\n\n```orbit\n[{\"question\":\"Q1\",\"question_attachments\":\"\"}]\n```\n";
    assert_eq!(
        body_to_html(source),
        Err(Error::DeckField { card: 0, field: CardField::Answer })
    );
    assert_eq!(
        markdown_to_html(source),
        Err(Error::DeckField { card: 0, field: CardField::Answer })
    );
}

#[test]
fn deck_that_is_no_list_fails_the_document() {
    let source = "```orbit\n{\"question\":\"Q1\"}\n```\n";
    assert!(matches!(markdown_to_html(source), Err(Error::DeckSyntax { .. })));
    assert!(matches!(body_to_html("```orbit\n```"), Err(Error::DeckFrame)));
}

#[test]
fn list_of_footnotes() {
    assert_eq!(
        fmt_footnotes_to_html(&vec!["[^1]: a note.".to_string()]),
        Ok("<hr />\n<ol>\n<li id=\"1\">a note. <a class=\"fn-back\" href=\"#1-back\">\u{21a9}</a></li>\n</ol>\n".to_string())
    );
}

#[test]
fn one_item_for_each_footnote() {
    let lines = vec![
        "[^b]: second *label*, first line".to_string(),
        "[^a]:see [this](that.md)".to_string(),
    ];
    assert_eq!(
        fmt_footnotes_to_html(&lines),
        Ok("<hr />\n<ol>\n<li id=\"b\">second <em>label</em>, first line <a class=\"fn-back\" href=\"#b-back\">\u{21a9}</a></li>\n<li id=\"a\">see <a href=\"that.html\">this</a> <a class=\"fn-back\" href=\"#a-back\">\u{21a9}</a></li>\n</ol>\n".to_string())
    );
}

#[test]
fn no_footnotes_leave_the_rule() {
    assert_eq!(fmt_footnotes_to_html(&Vec::new()), Ok("<hr />\n".to_string()));
}

#[test]
fn footnote_line_of_another_form_fails() {
    assert_eq!(
        fmt_footnotes_to_html(&vec!["[^1]: fine".to_string(), "[^1] world.".to_string()]),
        Err(Error::FootnoteLine { line: 1 })
    );
}

#[test]
fn footnote_with_a_list_inside_has_too_many_items() {
    assert_eq!(
        fmt_footnotes_to_html(&vec!["[^a]:- x".to_string()]),
        Err(Error::FootnoteItems)
    );
}

#[test]
fn page_holds_body_and_footnotes_unescaped() {
    assert_eq!(
        assemble_page("<p>a & b</p>\n", "<hr />\n"),
        Ok(page("<p>a & b</p>\n<hr />\n"))
    );
    assert_eq!(assemble_page("", ""), Ok(page("")));
    assert_eq!(assemble_page("{{body}}", "\\{{x}}"), Ok(page("{{body}}\\{{x}}")));
    assert!(PAGE_TEMPLATE.contains("{{body}}"));
}

#[test]
fn document_with_a_footnote() {
    let source = "---\ntitle: t\ndate: d\ntags: x\nkind: k\n---\n# Hello\nHello[^1] world.\n\n[^1]: a note.";
    let html = markdown_to_html(skip_frontmatter(source)).unwrap();
    assert_eq!(
        html,
        page("<h1>Hello</h1>\n<p>Hello<sup class=\"fn\"><a id=\"1-back\" href=\"#1\">[1]</a></sup> world.</p>\n<hr />\n<ol>\n<li id=\"1\">a note. <a class=\"fn-back\" href=\"#1-back\">\u{21a9}</a></li>\n</ol>\n")
    );
    let page = html;
    assert_eq!(page.matches("<sup class=\"fn\">").count(), 1);
    assert!(page.contains("[1]</a></sup>"));
    assert!(page.contains("<li id=\"1\">a note. <a class=\"fn-back\" href=\"#1-back\">"));
}

#[test]
fn reference_at_the_start_of_a_line_is_taken_for_a_definition() {
    let source = "---\na\nb\nc\n---\n# Hello\n[^1] world.\n\n[^1]: a note.";
    assert_eq!(
        markdown_to_html(skip_frontmatter(source)),
        Err(Error::FootnoteLine { line: 0 })
    );
}

#[test]
fn document_with_a_deck() {
    let source = "Read on.\n\n```orbit\n[{\"question\":\"Q1\",\"question_attachments\":\"\",\"answer\":\"A1\"}]\n```\n";
    assert_eq!(
        markdown_to_html(source),
        Ok(page("<p>Read on.</p>\n<orbit-reviewarea><orbit-prompt question=\"Q1\" question-attachments=\"\" answer=\"A1\"></orbit-prompt></orbit-reviewarea><hr />\n"))
    );
}

#[test]
fn deck_after_footnote_lines_is_cut_from_the_body() {
    let source = "[^a]: a long footnote that stands before the deck\ntext[^a]\n\n```orbit\n[{\"question\":\"Q\",\"question_attachments\":\"\",\"answer\":\"A\"}]\n```\n";
    let page = markdown_to_html(source).unwrap();
    assert!(page.contains("<orbit-prompt question=\"Q\" question-attachments=\"\" answer=\"A\"></orbit-prompt>"));
    assert!(page.contains("<li id=\"a\">"));
}

#[test]
fn fences_of_other_widths_are_cut_at_the_same_places() {
    assert_eq!(
        body_to_html("~~~orbit\n[]\n~~~"),
        Ok("<orbit-reviewarea></orbit-reviewarea>".to_string())
    );
    assert_eq!(
        body_to_html("````orbit\n[]\n````"),
        Ok("<orbit-reviewarea></orbit-reviewarea>".to_string())
    );
}

#[test]
fn deck_block_without_its_closing_fence() {
    assert_eq!(body_to_html("```orbit\n[]"), Err(Error::DeckFrame));
    assert!(matches!(
        body_to_html("```orbit\n[{\"question\":\"q\"}]"),
        Err(Error::DeckSyntax { .. })
    ));
    assert_eq!(
        body_to_html("```orbit\n[]    a\u{e9}b"),
        Ok("<orbit-reviewarea></orbit-reviewarea>".to_string())
    );
    assert_eq!(body_to_html("```orbit\n[]\u{e9}123"), Err(Error::DeckFrame));
}

#[test]
fn document_with_carriage_returns() {
    let source = "one[^a]\r\n\r\n```orbit\r\n[{\"question\":\"Q\",\"question_attachments\":\"\",\"answer\":\"A\"}]\r\n```\r\n[^a]: note\r\n";
    let html = markdown_to_html(source).unwrap();
    assert!(html.contains("<p>one<sup class=\"fn\"><a id=\"a-back\" href=\"#a\">[1]</a></sup></p>\n"));
    assert!(html.contains("<orbit-reviewarea><orbit-prompt question=\"Q\" question-attachments=\"\" answer=\"A\"></orbit-prompt></orbit-reviewarea>"));
    assert!(html.contains("<li id=\"a\">note <a class=\"fn-back\" href=\"#a-back\">\u{21a9}</a></li>"));
}

#[test]
fn two_decks_in_one_document() {
    let source = "```orbit\n[{\"question\":\"1\",\"question_attachments\":\"\",\"answer\":\"a\"}]\n```\n\ntext\n\n```orbit\n[]\n```\n";
    assert_eq!(
        body_to_html(source),
        Ok("<orbit-reviewarea><orbit-prompt question=\"1\" question-attachments=\"\" answer=\"a\"></orbit-prompt></orbit-reviewarea>\n<p>text</p>\n<orbit-reviewarea></orbit-reviewarea>".to_string())
    );
}
