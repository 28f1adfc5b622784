use vstd::prelude::*;
use crate::error::SiteError;

verus! {

/// Process-wide site settings, read once at startup from the configuration
/// document and never mutated afterwards.
pub struct SiteConfig {
    pub title: String,
    pub about: String,
}

/// The view of the settings: the two strings as character sequences.
pub ghost struct ConfigModel {
    pub title: Seq<char>,
    pub about: Seq<char>,
}

impl View for SiteConfig {
    type V = ConfigModel;

    open spec fn view(&self) -> ConfigModel {
        ConfigModel { title: self.title@, about: self.about@ }
    }
}

/// The string value the TOML grammar assigns to a top-level key of a
/// configuration document, when the document parses and the key holds a
/// string; a function of the document text and the key alone.
pub uninterp spec fn toml_str_value_of(contents: Seq<char>, key: Seq<char>) -> Option<Seq<char>>;

/// Relies on toml_edit: `Document`'s `FromStr`, `Table::get` (through
/// `Document`'s deref) and `Item::as_str`. Parsing is deterministic in the
/// text, and the chain yields the string value of a top-level key exactly
/// when the document parses and the key holds one.
#[verifier::external_body]
fn toml_str_value(contents: &str, key: &str) -> (r: Option<String>)
    ensures
        r matches Some(v) ==> toml_str_value_of(contents@, key@) == Some(v@),
        r is None ==> toml_str_value_of(contents@, key@) is None,
{
    let doc: toml_edit::Document = contents.parse().ok()?;
    Some(doc.get(key)?.as_str()?.to_string())
}

/// Reads the two required settings out of a configuration document's text.
/// A document that does not parse, or that lacks either string key, is
/// rejected as `ConfigMissing`.
pub fn parse_config(contents: &str) -> (r: Result<SiteConfig, SiteError>)
    ensures
        match r {
            Ok(c) => toml_str_value_of(contents@, "title"@) == Some(c.title@)
                && toml_str_value_of(contents@, "about"@) == Some(c.about@),
            Err(e) => e == SiteError::ConfigMissing && (toml_str_value_of(contents@, "title"@) is None
                || toml_str_value_of(contents@, "about"@) is None),
        },
{
    let title = toml_str_value(contents, "title");
    let about = toml_str_value(contents, "about");
    match (title, about) {
        (Some(title), Some(about)) => Ok(SiteConfig { title, about }),
        _ => Err(SiteError::ConfigMissing),
    }
}

} // verus!
