use orbit_notes::frontmatter::{has_frontmatter, skip_frontmatter};

#[test]
fn skips_to_after_the_sixth_newline() {
    let text = "---\ntitle: a\ndate: b\ntags: c\nkind: d\n---\n# Hello\nworld\n";
    assert!(has_frontmatter(text));
    assert_eq!(skip_frontmatter(text), "# Hello\nworld\n");
}

#[test]
fn six_newlines_and_nothing_after_leave_nothing() {
    let text = "a\nb\nc\nd\ne\nf\n";
    assert!(has_frontmatter(text));
    assert_eq!(skip_frontmatter(text), "");
}

#[test]
fn five_newlines_are_no_frontmatter() {
    assert!(!has_frontmatter("---\na\nb\nc\n---\nrest"));
    assert!(!has_frontmatter(""));
}

#[test]
fn newlines_are_counted_whatever_the_lines_hold() {
    assert_eq!(skip_frontmatter("\n\n\n\n\n\nbody"), "body");
    assert_eq!(skip_frontmatter("é\nü\n\u{21a9}\n4\n5\n6\nbödy\n7"), "bödy\n7");
}

#[test]
fn three_lines_of_metadata_lose_the_first_line_of_the_body() {
    let text = "---\na\nb\nc\n---\n# Hello\n[^1] world.\n\n[^1]: a note.";
    assert_eq!(skip_frontmatter(text), "[^1] world.\n\n[^1]: a note.");
}

#[test]
fn skipping_twice_skips_twelve_newlines() {
    let text = "1\n2\n3\n4\n5\n6\n7\n8\n9\n10\n11\n12\nrest\n";
    let once = skip_frontmatter(text);
    assert_eq!(once, "7\n8\n9\n10\n11\n12\nrest\n");
    assert!(has_frontmatter(once));
    let twice = skip_frontmatter(once);
    assert_eq!(twice, "rest\n");
    assert_ne!(once, twice);
}

#[test]
fn what_is_left_may_have_no_frontmatter_any_more() {
    let once = skip_frontmatter("1\n2\n3\n4\n5\n6\nbody\nmore\n");
    assert_eq!(once, "body\nmore\n");
    assert!(!has_frontmatter(once));
}
