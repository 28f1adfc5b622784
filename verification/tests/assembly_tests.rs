use blust::assemble::assemble;
use blust::document::{build_document, output_name, Document};
use blust::error::SiteError;

fn doc(name: &str, title: &str, modified_at: i64) -> Document {
    Document {
        source_name: String::from(name),
        output_name: output_name(name),
        title: String::from(title),
        body_html: String::from("<p>x</p>\n"),
        modified_at,
    }
}

#[test]
fn assemble_orders_by_modification_time() {
    let docs = vec![doc("c.md", "C", 30), doc("a.md", "A", 10), doc("b.md", "B", 20)];
    let entries = assemble(docs);
    let titles: Vec<&str> = entries.iter().map(|e| e.title.as_str()).collect();
    assert_eq!(titles, vec!["A", "B", "C"]);
}

#[test]
fn assemble_keeps_accumulation_order_for_ties() {
    let docs = vec![
        doc("first.md", "First", 5),
        doc("second.md", "Second", 5),
        doc("third.md", "Third", 5),
    ];
    let entries = assemble(docs);
    let titles: Vec<&str> = entries.iter().map(|e| e.title.as_str()).collect();
    assert_eq!(titles, vec!["First", "Second", "Third"]);
}

#[test]
fn assemble_keeps_tie_order_among_mixed_times() {
    let docs = vec![
        doc("late.md", "Late", 9),
        doc("tie_a.md", "TieA", 4),
        doc("tie_b.md", "TieB", 4),
        doc("early.md", "Early", 1),
    ];
    let entries = assemble(docs);
    let titles: Vec<&str> = entries.iter().map(|e| e.title.as_str()).collect();
    assert_eq!(titles, vec!["Early", "TieA", "TieB", "Late"]);
}

#[test]
fn assemble_links_to_output_names() {
    let docs = vec![doc("note.md", "Note", 1)];
    let entries = assemble(docs);
    assert_eq!(entries.len(), 1);
    assert_eq!(entries[0].link, "note.html");
    assert_eq!(entries[0].title, "Note");
}

#[test]
fn output_name_replaces_extension() {
    assert_eq!(output_name("a.md"), "a.html");
    assert_eq!(output_name("Notes.MD"), "Notes.html");
}

#[test]
fn output_name_drops_only_last_extension() {
    assert_eq!(output_name("archive.tar.gz"), "archive.tar.html");
}

#[test]
fn output_name_without_extension_appends() {
    assert_eq!(output_name("noext"), "noext.html");
}

#[test]
fn output_name_hidden_file_keeps_leading_dot() {
    assert_eq!(output_name(".hidden"), ".hidden.html");
}

#[test]
fn output_name_trailing_dot() {
    assert_eq!(output_name("odd."), "odd.html");
}

#[test]
fn build_document_composes_the_leaves() {
    let d = build_document("a.md", "# Hello\nBody text", 42).unwrap();
    assert_eq!(d.title, "Hello");
    assert_eq!(d.output_name, "a.html");
    assert_eq!(d.source_name, "a.md");
    assert_eq!(d.modified_at, 42);
    assert!(d.body_html.contains("<h1>Hello</h1>"));
    assert!(d.body_html.contains("Body text"));
}

#[test]
fn build_document_rejects_untitled_document() {
    let r = build_document("a.md", "no heading at all", 42);
    assert!(matches!(r, Err(SiteError::TitleNotFound)));
}
