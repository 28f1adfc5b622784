use vstd::prelude::*;
use vstd::string::*;
use crate::assemble::{assemble, doc_views, entries_of};
use crate::config::{ConfigModel, SiteConfig};
use crate::dates::{date_text_of, modified_label};
use crate::document::{DocModel, Document, build_document, output_name_of};
use crate::error::SiteError;
use crate::events::{events_of, html_of};
use crate::render::{document_page_of, index_page_of, render_document_page, render_index_page};
use crate::title::title_of;

verus! {

/// One discovered source document, as the run's logic sees it: its file
/// name, its raw text, and its modification time in seconds since the Unix
/// epoch. Discovery and reading stay outside the library.
pub struct SourceFile {
    pub name: String,
    pub text: String,
    pub modified_secs: i64,
}

/// The view of a source document.
pub ghost struct SourceModel {
    pub name: Seq<char>,
    pub text: Seq<char>,
    pub modified_secs: int,
}

impl View for SourceFile {
    type V = SourceModel;

    open spec fn view(&self) -> SourceModel {
        SourceModel {
            name: self.name@,
            text: self.text@,
            modified_secs: self.modified_secs as int,
        }
    }
}

/// The views of a sequence of source documents, in order.
pub open spec fn source_views(sources: Seq<SourceFile>) -> Seq<SourceModel> {
    sources.map_values(|s: SourceFile| s@)
}

/// One rendered page, ready to be written under the output root.
pub struct OutputPage {
    pub name: String,
    pub contents: String,
}

/// The view of a rendered page.
pub ghost struct PageModel {
    pub name: Seq<char>,
    pub contents: Seq<char>,
}

impl View for OutputPage {
    type V = PageModel;

    open spec fn view(&self) -> PageModel {
        PageModel { name: self.name@, contents: self.contents@ }
    }
}

/// The views of a sequence of rendered pages, in order.
pub open spec fn page_views(pages: Seq<OutputPage>) -> Seq<PageModel> {
    pages.map_values(|p: OutputPage| p@)
}

/// Everything a completed run hands back: one page per source document, in
/// discovery order, and the index page.
pub struct SiteOutput {
    pub pages: Vec<OutputPage>,
    pub index: OutputPage,
}

/// The view of a completed run's output.
pub ghost struct SiteModel {
    pub pages: Seq<PageModel>,
    pub index: PageModel,
}

impl View for SiteOutput {
    type V = SiteModel;

    open spec fn view(&self) -> SiteModel {
        SiteModel { pages: page_views(self.pages@), index: self.index@ }
    }
}

/// What the run makes of one source document: its record and its rendered
/// page, or the first of its failures — no title, an unusable timestamp,
/// or a page that does not render.
pub open spec fn doc_outcome(src: SourceModel, site_title: Seq<char>) -> Result<
    (DocModel, PageModel),
    SiteError,
> {
    match title_of(events_of(src.text)) {
        None => Err(SiteError::TitleNotFound),
        Some(title) => match date_text_of(src.modified_secs) {
            None => Err(SiteError::MetadataUnavailable),
            Some(label) => match document_page_of(html_of(src.text), label, site_title) {
                None => Err(SiteError::TemplateRenderFailure),
                Some(page) => Ok(
                    (
                        DocModel {
                            source_name: src.name,
                            output_name: output_name_of(src.name),
                            title: title,
                            body_html: html_of(src.text),
                            modified_at: src.modified_secs,
                        },
                        PageModel { name: output_name_of(src.name), contents: page },
                    ),
                ),
            },
        },
    }
}

/// What the per-document phase makes of the first `n` source documents, in
/// discovery order: their records and pages, or the first failure.
pub open spec fn docs_outcome(sources: Seq<SourceModel>, site_title: Seq<char>, n: int) -> Result<
    (Seq<DocModel>, Seq<PageModel>),
    SiteError,
>
    decreases n,
{
    if n <= 0 {
        Ok((Seq::<DocModel>::empty(), Seq::<PageModel>::empty()))
    } else {
        match docs_outcome(sources, site_title, n - 1) {
            Err(e) => Err(e),
            Ok((docs, pages)) => match doc_outcome(sources[n - 1], site_title) {
                Err(e) => Err(e),
                Ok((d, p)) => Ok((docs.push(d), pages.push(p))),
            },
        }
    }
}

/// What a whole run produces for a configuration and a discovered source
/// list: the rendered pages in discovery order and the index page, or the
/// first failure. A pure function of the inputs: two runs over one and the
/// same configuration and source list produce one and the same output.
pub open spec fn site_outcome(config: ConfigModel, sources: Seq<SourceModel>) -> Result<
    SiteModel,
    SiteError,
> {
    match docs_outcome(sources, config.title, sources.len() as int) {
        Err(e) => Err(e),
        Ok((docs, pages)) => match index_page_of(entries_of(docs), config.title, config.about) {
            None => Err(SiteError::TemplateRenderFailure),
            Some(ix) => Ok(
                SiteModel {
                    pages: pages,
                    index: PageModel { name: "index.html"@, contents: ix },
                },
            ),
        },
    }
}

/// A failed prefix fails every longer prefix with the same first error:
/// the run aborts where the first bad document stands.
proof fn lemma_docs_outcome_err(sources: Seq<SourceModel>, site_title: Seq<char>, n: int, m: int)
    requires
        0 <= n <= m,
        docs_outcome(sources, site_title, n) is Err,
    ensures
        docs_outcome(sources, site_title, m) == docs_outcome(sources, site_title, n),
    decreases m - n,
{
    if n < m {
        lemma_docs_outcome_err(sources, site_title, n, m - 1);
    }
}

/// Runs the whole generation pipeline over the discovered sources: builds
/// each document record, renders its page with the document template,
/// assembles the time-ordered index, and renders the index page. The first
/// failure aborts the run with no output at all.
pub fn generate_site(config: &SiteConfig, sources: &Vec<SourceFile>) -> (r: Result<
    SiteOutput,
    SiteError,
>)
    ensures
        match r {
            Ok(out) => site_outcome(config@, source_views(sources@)) == Ok::<SiteModel, SiteError>(
                out@,
            ),
            Err(e) => site_outcome(config@, source_views(sources@)) == Err::<SiteModel, SiteError>(
                e,
            ),
        },
{
    let ghost views = source_views(sources@);
    let mut docs: Vec<Document> = Vec::new();
    let mut pages: Vec<OutputPage> = Vec::new();
    proof {
        assert(doc_views(docs@) =~= Seq::<DocModel>::empty());
        assert(page_views(pages@) =~= Seq::<PageModel>::empty());
    }
    let mut i: usize = 0;
    while i < sources.len()
        invariant
            i <= sources@.len(),
            views == source_views(sources@),
            docs_outcome(views, config@.title, i as int) == Ok::<
                (Seq<DocModel>, Seq<PageModel>),
                SiteError,
            >((doc_views(docs@), page_views(pages@))),
        decreases sources@.len() - i,
    {
        let src = &sources[i];
        proof {
            assert(views[i as int] == sources@[i as int]@);
        }
        let document = match build_document(src.name.as_str(), src.text.as_str(), src.modified_secs) {
            Ok(d) => d,
            Err(e) => {
                proof {
                    assert(docs_outcome(views, config@.title, i as int + 1) == Err::<
                        (Seq<DocModel>, Seq<PageModel>),
                        SiteError,
                    >(e));
                    lemma_docs_outcome_err(views, config@.title, i as int + 1, views.len() as int);
                }
                return Err(e);
            },
        };
        let label = match modified_label(src.modified_secs) {
            Ok(s) => s,
            Err(e) => {
                proof {
                    assert(docs_outcome(views, config@.title, i as int + 1) == Err::<
                        (Seq<DocModel>, Seq<PageModel>),
                        SiteError,
                    >(e));
                    lemma_docs_outcome_err(views, config@.title, i as int + 1, views.len() as int);
                }
                return Err(e);
            },
        };
        let page = match render_document_page(
            document.body_html.as_str(),
            label.as_str(),
            config.title.as_str(),
        ) {
            Ok(p) => p,
            Err(e) => {
                proof {
                    assert(docs_outcome(views, config@.title, i as int + 1) == Err::<
                        (Seq<DocModel>, Seq<PageModel>),
                        SiteError,
                    >(e));
                    lemma_docs_outcome_err(views, config@.title, i as int + 1, views.len() as int);
                }
                return Err(e);
            },
        };
        let page_name = document.output_name.clone();
        let ghost dm = document@;
        let ghost pm = PageModel { name: page_name@, contents: page@ };
        let ghost prev_docs = docs@;
        let ghost prev_pages = pages@;
        proof {
            assert(doc_outcome(views[i as int], config@.title) == Ok::<
                (DocModel, PageModel),
                SiteError,
            >((dm, pm)));
        }
        docs.push(document);
        pages.push(OutputPage { name: page_name, contents: page });
        proof {
            assert(doc_views(docs@) =~= doc_views(prev_docs).push(dm));
            assert(page_views(pages@) =~= page_views(prev_pages).push(pm));
        }
        i = i + 1;
    }
    let entries = assemble(docs);
    let index_contents = match render_index_page(
        &entries,
        config.title.as_str(),
        config.about.as_str(),
    ) {
        Ok(s) => s,
        Err(e) => {
            return Err(e);
        },
    };
    let out = SiteOutput {
        pages,
        index: OutputPage { name: String::from_str("index.html"), contents: index_contents },
    };
    Ok(out)
}

} // verus!
