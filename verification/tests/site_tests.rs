use blust::config::{parse_config, SiteConfig};
use blust::dates::modified_label;
use blust::document::IndexEntry;
use blust::error::SiteError;
use blust::render::{render_document_page, render_index_page};
use blust::site::{generate_site, SourceFile};

fn source(name: &str, text: &str, modified_secs: i64) -> SourceFile {
    SourceFile { name: String::from(name), text: String::from(text), modified_secs }
}

fn config() -> SiteConfig {
    SiteConfig { title: String::from("My Notes"), about: String::from("a running log") }
}

#[test]
fn config_reads_both_keys() {
    let c = parse_config("title = \"My Notes\"\nabout = \"a running log\"\n").unwrap();
    assert_eq!(c.title, "My Notes");
    assert_eq!(c.about, "a running log");
}

#[test]
fn config_missing_about_is_rejected() {
    let r = parse_config("title = \"My Notes\"\n");
    assert!(matches!(r, Err(SiteError::ConfigMissing)));
}

#[test]
fn config_missing_title_is_rejected() {
    let r = parse_config("about = \"a running log\"\n");
    assert!(matches!(r, Err(SiteError::ConfigMissing)));
}

#[test]
fn config_that_does_not_parse_is_rejected() {
    let r = parse_config("title = \"unclosed");
    assert!(matches!(r, Err(SiteError::ConfigMissing)));
}

#[test]
fn config_non_string_value_is_rejected() {
    let r = parse_config("title = 7\nabout = \"x\"\n");
    assert!(matches!(r, Err(SiteError::ConfigMissing)));
}

#[test]
fn modified_label_formats_the_epoch() {
    assert_eq!(modified_label(0).unwrap(), "01/01/1970 00:00:00");
}

#[test]
fn modified_label_formats_day_month_order() {
    // 2001-09-09 01:46:40 UTC
    assert_eq!(modified_label(1_000_000_000).unwrap(), "09/09/2001 01:46:40");
}

#[test]
fn modified_label_rejects_out_of_range_seconds() {
    let r = modified_label(i64::MAX);
    assert!(matches!(r, Err(SiteError::MetadataUnavailable)));
}

#[test]
fn document_page_carries_all_three_values() {
    let page = render_document_page("<p>the body</p>", "01/01/1970 00:00:00", "My Notes").unwrap();
    assert!(page.contains("<p>the body</p>"));
    assert!(page.contains("Last modified: 01/01/1970 00:00:00"));
    assert!(page.contains("<title>My Notes</title>"));
}

#[test]
fn document_page_does_not_escape_the_body() {
    let page = render_document_page("<h1>Hi</h1>", "x", "t").unwrap();
    assert!(page.contains("<h1>Hi</h1>"));
    assert!(!page.contains("&lt;h1&gt;"));
}

#[test]
fn index_page_lists_entries_in_order() {
    let entries = vec![
        IndexEntry { title: String::from("Hello"), link: String::from("a.html") },
        IndexEntry { title: String::from("World"), link: String::from("b.html") },
    ];
    let page = render_index_page(&entries, "My Notes", "a running log").unwrap();
    let hello = page.find("href=\"a.html\"").unwrap();
    let world = page.find("href=\"b.html\"").unwrap();
    assert!(hello < world);
    assert!(page.contains(">Hello</a>"));
    assert!(page.contains(">World</a>"));
    assert!(page.contains("a running log"));
}

#[test]
fn run_produces_pages_and_ordered_index() {
    let sources = vec![
        source("a.md", "# Hello\nBody text", 100),
        source("b.md", "# World\nMore text", 200),
    ];
    let out = generate_site(&config(), &sources).unwrap();
    assert_eq!(out.pages.len(), 2);
    assert_eq!(out.pages[0].name, "a.html");
    assert_eq!(out.pages[1].name, "b.html");
    assert!(out.pages[0].contents.contains("Body text"));
    assert_eq!(out.index.name, "index.html");
    let hello = out.index.contents.find("href=\"a.html\"").unwrap();
    let world = out.index.contents.find("href=\"b.html\"").unwrap();
    assert!(hello < world);
}

#[test]
fn run_orders_index_by_modification_time() {
    let sources = vec![
        source("late.md", "# Late\nx", 900),
        source("early.md", "# Early\nx", 1),
    ];
    let out = generate_site(&config(), &sources).unwrap();
    // pages keep discovery order; the index is sorted ascending by time
    assert_eq!(out.pages[0].name, "late.html");
    let early = out.index.contents.find("href=\"early.html\"").unwrap();
    let late = out.index.contents.find("href=\"late.html\"").unwrap();
    assert!(early < late);
}

#[test]
fn run_aborts_on_first_untitled_document() {
    let sources = vec![
        source("a.md", "# Fine\nx", 1),
        source("bad.md", "no heading here", 2),
        source("c.md", "# Also fine\nx", 3),
    ];
    let r = generate_site(&config(), &sources);
    assert!(matches!(r, Err(SiteError::TitleNotFound)));
}

#[test]
fn run_aborts_on_unusable_timestamp() {
    let sources = vec![source("a.md", "# Fine\nx", i64::MAX)];
    let r = generate_site(&config(), &sources);
    assert!(matches!(r, Err(SiteError::MetadataUnavailable)));
}

#[test]
fn run_twice_is_byte_identical() {
    let sources = vec![
        source("a.md", "# Hello\nBody ~~gone~~ text", 100),
        source("b.md", "# World\nMore text", 200),
    ];
    let first = generate_site(&config(), &sources).unwrap();
    let second = generate_site(&config(), &sources).unwrap();
    assert_eq!(first.pages.len(), second.pages.len());
    for (p, q) in first.pages.iter().zip(second.pages.iter()) {
        assert_eq!(p.name, q.name);
        assert_eq!(p.contents, q.contents);
    }
    assert_eq!(first.index.name, second.index.name);
    assert_eq!(first.index.contents, second.index.contents);
}

#[test]
fn run_over_no_sources_still_renders_the_index() {
    let out = generate_site(&config(), &vec![]).unwrap();
    assert!(out.pages.is_empty());
    assert!(out.index.contents.contains("My Notes"));
}

#[test]
fn error_labels_are_stable() {
    assert_eq!(SiteError::ConfigMissing.describe(), "missing or malformed blust.toml");
    assert_eq!(SiteError::TitleNotFound.describe(), "could not find title");
}
