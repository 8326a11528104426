use orbit_notes::links::{is_document, is_hidden, is_markdown, page_name, rewrite_destination};

#[test]
fn markdown_destination_becomes_a_page() {
    assert_eq!(rewrite_destination("notes.md"), "notes.html");
    assert_eq!(rewrite_destination("../dir/other-note.md"), "../dir/other-note.html");
}

#[test]
fn only_the_ending_is_replaced() {
    assert_eq!(rewrite_destination("a.md.md"), "a.md.html");
    assert_eq!(rewrite_destination("my.mdocs/b.md"), "my.mdocs/b.html");
    assert_eq!(rewrite_destination(".md"), ".html");
}

#[test]
fn other_destinations_stay_as_they_are() {
    assert_eq!(rewrite_destination("https://example.org/a.md#part"), "https://example.org/a.md#part");
    assert_eq!(rewrite_destination("notes.markdown"), "notes.markdown");
    assert_eq!(rewrite_destination("notes.MD"), "notes.MD");
    assert_eq!(rewrite_destination("a.md "), "a.md ");
    assert_eq!(rewrite_destination("md"), "md");
    assert_eq!(rewrite_destination(""), "");
    assert_eq!(rewrite_destination("caf\u{e9}.txt"), "caf\u{e9}.txt");
}

#[test]
fn destination_with_other_letters_keeps_them() {
    assert_eq!(rewrite_destination("caf\u{e9}.md"), "caf\u{e9}.html");
}

#[test]
fn markdown_files_end_in_md() {
    assert!(is_markdown("a.md"));
    assert!(is_markdown(".md"));
    assert!(!is_markdown("a.mdx"));
    assert!(!is_markdown("amd"));
    assert!(!is_markdown("a.md.html"));
    assert!(!is_markdown("md"));
    assert!(!is_markdown(""));
}

#[test]
fn hidden_names_begin_with_a_dot() {
    assert!(is_hidden(".git"));
    assert!(is_hidden("."));
    assert!(is_hidden(".md"));
    assert!(!is_hidden("a.md"));
    assert!(!is_hidden(""));
}

#[test]
fn documents_are_markdown_files() {
    assert!(is_document("note.md", false));
    assert!(!is_document("note.md", true));
    assert!(!is_document("note.txt", false));
    assert!(!is_document("notes", true));
}

#[test]
fn page_of_a_document() {
    assert_eq!(page_name("note.md"), "note.html");
    assert_eq!(page_name("my.first.note.md"), "my.first.note.html");
}
