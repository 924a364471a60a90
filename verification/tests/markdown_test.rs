use folio::markdown::parse_doc;

#[test]
fn test_no_frontmatter() {
    let md = "# Hello World\n\nSome text.";
    let doc = parse_doc(md);
    assert_eq!(doc.title, "Hello World");
    assert!(doc.body_html.contains("Some text."));
    assert!(!doc.body_html.contains("<h1"));
}

#[test]
fn test_frontmatter_title() {
    let md = "---\ntitle: My Doc\ndate: 2026-01-01\n---\n\nBody text.";
    let doc = parse_doc(md);
    assert_eq!(doc.title, "My Doc");
    assert_eq!(doc.date.as_deref(), Some("2026-01-01"));
    assert!(doc.body_html.contains("Body text."));
}

#[test]
fn test_frontmatter_overrides_h1() {
    let md = "---\ntitle: FM Title\n---\n\n# H1 Title\n\nBody.";
    let doc = parse_doc(md);
    assert_eq!(doc.title, "FM Title");
    // h1 stays in body when frontmatter title wins
    assert!(doc.body_html.contains("<h1"));
}

#[test]
fn test_primary_color() {
    let md = "---\nprimary_color: \"#7c3aed\"\n---\n\nContent.";
    let doc = parse_doc(md);
    assert_eq!(doc.primary_color.as_deref(), Some("#7c3aed"));
}
