use vstd::prelude::*;
use crate::error::SiteError;

verus! {

/// The display text a modification timestamp (seconds since the Unix
/// epoch, UTC) is shown as: day/month/year and time of day. A function of
/// the seconds alone; `None` for seconds outside the calendar's range.
pub uninterp spec fn date_text_of(secs: int) -> Option<Seq<char>>;

/// Relies on chrono: `DateTime::<Utc>::from_timestamp` (None exactly on an
/// out-of-range number of seconds) and strftime formatting with the fixed,
/// valid format "%d/%m/%Y %T", which cannot fail on a valid date-time. The
/// result is a function of the seconds alone.
#[verifier::external_body]
fn format_timestamp(secs: i64) -> (r: Option<String>)
    ensures
        r matches Some(s) ==> date_text_of(secs as int) == Some(s@),
        r is None ==> date_text_of(secs as int) is None,
{
    let dt = chrono::DateTime::<chrono::Utc>::from_timestamp(secs, 0)?;
    Some(dt.format("%d/%m/%Y %T").to_string())
}

/// The "last modified" label a document page shows for a timestamp; a
/// timestamp the calendar cannot represent is `MetadataUnavailable`.
pub fn modified_label(secs: i64) -> (r: Result<String, SiteError>)
    ensures
        match r {
            Ok(s) => date_text_of(secs as int) == Some(s@),
            Err(e) => e == SiteError::MetadataUnavailable && date_text_of(secs as int) is None,
        },
{
    match format_timestamp(secs) {
        Some(s) => Ok(s),
        None => Err(SiteError::MetadataUnavailable),
    }
}

} // verus!
