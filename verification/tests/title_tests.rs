use blust::error::SiteError;
use blust::events::{convert, MdEvent};
use blust::title::{extract_title, title_from_events};

#[test]
fn first_heading_supplies_title() {
    let r = extract_title("# Hello\nBody text");
    assert_eq!(r, Ok(String::from("Hello")));
}

#[test]
fn first_level_one_heading_wins() {
    let r = extract_title("# First\n\nsome text\n\n# Second\n");
    assert_eq!(r, Ok(String::from("First")));
}

#[test]
fn level_one_after_deeper_headings_wins() {
    let r = extract_title("## Sub\nnotes\n# Real\nmore notes");
    assert_eq!(r, Ok(String::from("Real")));
}

#[test]
fn no_heading_is_title_not_found() {
    let r = extract_title("just a paragraph\nand another line");
    assert_eq!(r, Err(SiteError::TitleNotFound));
}

#[test]
fn only_deeper_headings_is_title_not_found() {
    let r = extract_title("## Second level\n### Third level\ntext");
    assert_eq!(r, Err(SiteError::TitleNotFound));
}

#[test]
fn empty_document_is_title_not_found() {
    let r = extract_title("");
    assert_eq!(r, Err(SiteError::TitleNotFound));
}

#[test]
fn scan_takes_text_inside_open_level_one_heading() {
    let events = vec![
        MdEvent::HeadingStart { level: 2 },
        MdEvent::Text { text: String::from("not me") },
        MdEvent::HeadingEnd { level: 2 },
        MdEvent::HeadingStart { level: 1 },
        MdEvent::Text { text: String::from("me") },
        MdEvent::HeadingEnd { level: 1 },
        MdEvent::Text { text: String::from("later") },
    ];
    assert_eq!(title_from_events(&events), Some(String::from("me")));
}

#[test]
fn scan_ignores_text_outside_headings() {
    let events = vec![
        MdEvent::Text { text: String::from("loose") },
        MdEvent::Other,
        MdEvent::HeadingStart { level: 3 },
        MdEvent::Text { text: String::from("deep") },
        MdEvent::HeadingEnd { level: 3 },
    ];
    assert_eq!(title_from_events(&events), None);
}

#[test]
fn conversion_enables_strikethrough() {
    let html = convert("some ~~strike~~ text");
    assert!(html.contains("<del>strike</del>"));
}

#[test]
fn conversion_wraps_plain_paragraph() {
    let html = convert("plain paragraph");
    assert_eq!(html, "<p>plain paragraph</p>\n");
}

#[test]
fn conversion_accepts_arbitrary_text() {
    let html = convert("*** ~~ [broken](link ``` \u{0000}");
    assert!(!html.is_empty());
}
