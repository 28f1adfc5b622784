use vstd::prelude::*;

verus! {

/// One structural event of a parsed document, reduced to what the pipeline
/// reads: heading boundaries with their level, text runs, and everything
/// else folded into `Other`.
#[derive(Debug)]
pub enum MdEvent {
    HeadingStart { level: u8 },
    HeadingEnd { level: u8 },
    Text { text: String },
    Other,
}

/// The structural event stream the markup grammar assigns to a document's
/// text (strikethrough enabled, no other extension); a function of the text
/// alone.
pub uninterp spec fn events_of(text: Seq<char>) -> Seq<MdEvent>;

/// The HTML fragment the markup grammar (strikethrough enabled, no other
/// extension) assigns to a document's text; a function of the text alone.
pub uninterp spec fn html_of(text: Seq<char>) -> Seq<char>;

/// Relies on pulldown_cmark::Parser::new_ext with only ENABLE_STRIKETHROUGH
/// set: parsing is deterministic in the text, never fails, and the parser
/// yields the document's structural events from start to end.
#[verifier::external_body]
pub(crate) fn md_events(text: &str) -> (r: Vec<MdEvent>)
    ensures
        r@ == events_of(text@),
{
    let mut options = pulldown_cmark::Options::empty();
    options.insert(pulldown_cmark::Options::ENABLE_STRIKETHROUGH);
    pulldown_cmark::Parser::new_ext(text, options)
        .map(|event| match event {
            pulldown_cmark::Event::Start(pulldown_cmark::Tag::Heading(level, _, _)) => {
                MdEvent::HeadingStart { level: level as u8 }
            },
            pulldown_cmark::Event::End(pulldown_cmark::Tag::Heading(level, _, _)) => {
                MdEvent::HeadingEnd { level: level as u8 }
            },
            pulldown_cmark::Event::Text(t) => MdEvent::Text { text: t.to_string() },
            _ => MdEvent::Other,
        })
        .collect()
}

/// Relies on pulldown_cmark::html::push_html over Parser::new_ext with only
/// ENABLE_STRIKETHROUGH set: the fragment is a function of the text alone,
/// and the conversion never fails; malformed markup degrades to literal
/// text under the grammar's own tolerance rules.
#[verifier::external_body]
fn md_to_html(text: &str) -> (r: String)
    ensures
        r@ == html_of(text@),
{
    let mut options = pulldown_cmark::Options::empty();
    options.insert(pulldown_cmark::Options::ENABLE_STRIKETHROUGH);
    let parser = pulldown_cmark::Parser::new_ext(text, options);
    let mut html_output = String::new();
    pulldown_cmark::html::push_html(&mut html_output, parser);
    html_output
}

/// Turns one document's raw text into an HTML fragment. Strikethrough
/// syntax is enabled; every other optional extension is disabled. Never
/// fails on any input string.
pub fn convert(text: &str) -> (r: String)
    ensures
        r@ == html_of(text@),
{
    md_to_html(text)
}

} // verus!
