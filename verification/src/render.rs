use vstd::prelude::*;
use handlebars::Handlebars;
use serde_json::{Map as JsonMap, Value};
use crate::document::{EntryModel, IndexEntry, entry_views};
use crate::error::SiteError;

verus! {

/// The handlebars source of the per-document page: the converted body, a
/// modification label and the site title.
pub const DOCUMENT_TEMPLATE: &'static str = "<!DOCTYPE html>\n<html>\n<head>\n<meta charset=\"utf-8\">\n<title>{{title}}</title>\n<link rel=\"stylesheet\" href=\"static/style.css\">\n</head>\n<body>\n<main>\n{{{content}}}\n</main>\n<footer>\n<p>Last modified: {{modified}}</p>\n</footer>\n</body>\n</html>\n";

/// The handlebars source of the index page: the site title and about text,
/// and one linked line per entry, in the order the entries are handed in.
pub const INDEX_TEMPLATE: &'static str = "<!DOCTYPE html>\n<html>\n<head>\n<meta charset=\"utf-8\">\n<title>{{title}}</title>\n<link rel=\"stylesheet\" href=\"static/style.css\">\n</head>\n<body>\n<header>\n<h1>{{title}}</h1>\n<p>{{about}}</p>\n</header>\n<main>\n<ul>\n{{#each entry}}<li><a href=\"{{link}}\">{{title}}</a></li>\n{{/each}}</ul>\n</main>\n</body>\n</html>\n";

/// The document page the fixed document template renders for an HTML body
/// fragment, a modification label and a site title; a function of the
/// three values alone, `None` when rendering fails.
pub uninterp spec fn document_page_of(content: Seq<char>, modified: Seq<char>, title: Seq<char>) -> Option<Seq<char>>;

/// The index page the fixed index template renders for an ordered sequence
/// of entries, a site title and an about text; a function of the values
/// alone, `None` when rendering fails.
pub uninterp spec fn index_page_of(entries: Seq<EntryModel>, title: Seq<char>, about: Seq<char>) -> Option<Seq<char>>;

/// Relies on handlebars::Handlebars (register_template_string, render):
/// rendering a fixed, valid template from named string values is
/// deterministic in those values and touches nothing else.
#[verifier::external_body]
fn render_document_template(content: &str, modified: &str, title: &str) -> (r: Option<String>)
    ensures
        r matches Some(s) ==> document_page_of(content@, modified@, title@) == Some(s@),
        r is None ==> document_page_of(content@, modified@, title@) is None,
{
    let mut hbs = Handlebars::new();
    hbs.register_template_string("document", DOCUMENT_TEMPLATE).ok()?;
    let mut values = JsonMap::new();
    values.insert("content".into(), Value::String(content.to_string()));
    values.insert("modified".into(), Value::String(modified.to_string()));
    values.insert("title".into(), Value::String(title.to_string()));
    hbs.render("document", &Value::Object(values)).ok()
}

/// Relies on handlebars::Handlebars (register_template_string, render):
/// rendering the fixed index template walks the entry array in the order
/// given and is deterministic in the values handed in.
#[verifier::external_body]
fn render_index_template(entries: &Vec<IndexEntry>, title: &str, about: &str) -> (r: Option<String>)
    ensures
        r matches Some(s) ==> index_page_of(entry_views(entries@), title@, about@) == Some(s@),
        r is None ==> index_page_of(entry_views(entries@), title@, about@) is None,
{
    let mut hbs = Handlebars::new();
    hbs.register_template_string("index", INDEX_TEMPLATE).ok()?;
    let list: Vec<Value> = entries.iter().map(|e| {
        let mut one = JsonMap::new();
        one.insert("title".into(), Value::String(e.title.clone()));
        one.insert("link".into(), Value::String(e.link.clone()));
        Value::Object(one)
    }).collect();
    let mut values = JsonMap::new();
    values.insert("entry".into(), Value::Array(list));
    values.insert("title".into(), Value::String(title.to_string()));
    values.insert("about".into(), Value::String(about.to_string()));
    hbs.render("index", &Value::Object(values)).ok()
}

/// Renders one document page from the converted body, the modification
/// label and the site title. A failure to render is fatal for the run.
pub fn render_document_page(content: &str, modified: &str, title: &str) -> (r: Result<
    String,
    SiteError,
>)
    ensures
        match r {
            Ok(s) => document_page_of(content@, modified@, title@) == Some(s@),
            Err(e) => e == SiteError::TemplateRenderFailure && document_page_of(
                content@,
                modified@,
                title@,
            ) is None,
        },
{
    match render_document_template(content, modified, title) {
        Some(s) => Ok(s),
        None => Err(SiteError::TemplateRenderFailure),
    }
}

/// Renders the index page from the ordered entries, the site title and the
/// about text. A failure to render is fatal for the run.
pub fn render_index_page(entries: &Vec<IndexEntry>, title: &str, about: &str) -> (r: Result<
    String,
    SiteError,
>)
    ensures
        match r {
            Ok(s) => index_page_of(entry_views(entries@), title@, about@) == Some(s@),
            Err(e) => e == SiteError::TemplateRenderFailure && index_page_of(
                entry_views(entries@),
                title@,
                about@,
            ) is None,
        },
{
    match render_index_template(entries, title, about) {
        Some(s) => Ok(s),
        None => Err(SiteError::TemplateRenderFailure),
    }
}

} // verus!
