use vstd::prelude::*;

verus! {

/// The failures a generation run can surface. Startup and per-document
/// failures alike abort the whole run: there is no partial-success mode.
#[derive(Clone, Copy, Debug, PartialEq, Eq, Structural)]
pub enum SiteError {
    /// The configuration document is absent or lacks a required string key.
    ConfigMissing,
    /// A source document has no level-1 heading to supply its title.
    TitleNotFound,
    /// A document's modification timestamp cannot be used.
    MetadataUnavailable,
    /// A template did not render from the values handed to it.
    TemplateRenderFailure,
}

impl SiteError {
    /// A short diagnostic label for reporting outside the library.
    pub fn describe(&self) -> (r: &'static str)
        ensures
            r@ == self.spec_describe(),
    {
        match self {
            SiteError::ConfigMissing => "missing or malformed blust.toml",
            SiteError::TitleNotFound => "could not find title",
            SiteError::MetadataUnavailable => "could not use modification time",
            SiteError::TemplateRenderFailure => "template failed to render",
        }
    }

    pub open spec fn spec_describe(&self) -> Seq<char> {
        match self {
            SiteError::ConfigMissing => "missing or malformed blust.toml"@,
            SiteError::TitleNotFound => "could not find title"@,
            SiteError::MetadataUnavailable => "could not use modification time"@,
            SiteError::TemplateRenderFailure => "template failed to render"@,
        }
    }
}

} // verus!
