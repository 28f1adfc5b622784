use vstd::prelude::*;
use vstd::string::*;
use crate::error::SiteError;
use crate::events::{convert, events_of, html_of};
use crate::title::{extract_title, title_of};

verus! {

/// One generated page's record: created once per discovered source file
/// during a run, immutable after construction, and consumed by rendering
/// and index assembly.
pub struct Document {
    pub source_name: String,
    pub output_name: String,
    pub title: String,
    pub body_html: String,
    pub modified_at: i64,
}

/// The view of a document record: its strings as character sequences and
/// its modification time as a mathematical integer.
pub ghost struct DocModel {
    pub source_name: Seq<char>,
    pub output_name: Seq<char>,
    pub title: Seq<char>,
    pub body_html: Seq<char>,
    pub modified_at: int,
}

impl View for Document {
    type V = DocModel;

    open spec fn view(&self) -> DocModel {
        DocModel {
            source_name: self.source_name@,
            output_name: self.output_name@,
            title: self.title@,
            body_html: self.body_html@,
            modified_at: self.modified_at as int,
        }
    }
}

/// A projection of a document used only for index rendering: its display
/// title and the link to its page.
pub struct IndexEntry {
    pub title: String,
    pub link: String,
}

/// The view of an index entry.
pub ghost struct EntryModel {
    pub title: Seq<char>,
    pub link: Seq<char>,
}

impl View for IndexEntry {
    type V = EntryModel;

    open spec fn view(&self) -> EntryModel {
        EntryModel { title: self.title@, link: self.link@ }
    }
}

/// The views of a sequence of index entries, in order.
pub open spec fn entry_views(entries: Seq<IndexEntry>) -> Seq<EntryModel> {
    entries.map_values(|e: IndexEntry| e@)
}

/// Position of the last '.' in `name` that separates a file stem from an
/// extension. A dot at position 0 (a hidden-file name such as ".notes")
/// starts no extension, so only positions 1 and above count.
pub open spec fn last_dot(name: Seq<char>) -> Option<int>
    decreases name.len(),
{
    if name.len() <= 1 {
        None
    } else if name.last() == '.' {
        Some(name.len() - 1)
    } else {
        last_dot(name.drop_last())
    }
}

/// The file stem of `name`: everything before the extension separator,
/// or the whole name when it has no extension.
pub open spec fn stem_of(name: Seq<char>) -> Seq<char> {
    match last_dot(name) {
        Some(i) => name.take(i),
        None => name,
    }
}

/// The output file name for a source file name: the stem with the
/// extension replaced by ".html".
pub open spec fn output_name_of(name: Seq<char>) -> Seq<char> {
    stem_of(name) + ".html"@
}

/// Derives the page file name a source document is published under.
pub fn output_name(name: &str) -> (r: String)
    ensures
        r@ == output_name_of(name@),
{
    let n = name.unicode_len();
    proof {
        assert(name@.take(n as int) =~= name@);
    }
    let mut j: usize = n;
    while j > 1
        invariant
            j <= n,
            n == name@.len(),
            last_dot(name@) == last_dot(name@.take(j as int)),
        decreases j,
    {
        if name.get_char(j - 1) == '.' {
            proof {
                assert(name@.take(j as int).last() == '.');
                assert(last_dot(name@) == Some(j - 1));
            }
            let stem = name.substring_char(0, j - 1);
            return String::from_str(stem).concat(".html");
        }
        proof {
            assert(name@.take(j as int).drop_last() =~= name@.take(j - 1));
        }
        j = j - 1;
    }
    proof {
        assert(name@.take(j as int).len() <= 1);
        assert(last_dot(name@) is None);
        assert(name@.take(n as int) =~= name@);
    }
    String::from_str(name).concat(".html")
}

/// The document record a source file yields: the first top-level heading's
/// text as the title, the converted HTML body, the output name derived
/// from the file name, and the modification time as handed in. A document
/// without a title is rejected whole.
pub fn build_document(name: &str, text: &str, modified_at: i64) -> (r: Result<Document, SiteError>)
    ensures
        match r {
            Ok(d) => title_of(events_of(text@)) == Some(d.title@)
                && d.body_html@ == html_of(text@)
                && d.output_name@ == output_name_of(name@)
                && d.source_name@ == name@
                && d.modified_at == modified_at,
            Err(e) => e == SiteError::TitleNotFound && title_of(events_of(text@)) is None,
        },
{
    let title = match extract_title(text) {
        Ok(t) => t,
        Err(e) => {
            return Err(e);
        },
    };
    let body_html = convert(text);
    Ok(Document {
        source_name: String::from_str(name),
        output_name: output_name(name),
        title,
        body_html,
        modified_at,
    })
}

} // verus!
