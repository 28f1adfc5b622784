use vstd::prelude::*;
use crate::error::SiteError;
use crate::events::{MdEvent, events_of, md_events};

verus! {

/// A single left-to-right scan over the structural events, carrying the
/// level of the most recently started heading (`None` outside headings).
/// The first text event reached while a level-1 heading is open supplies
/// the title; the stream past it is never consulted.
pub open spec fn scan_title(events: Seq<MdEvent>, in_heading: Option<u8>) -> Option<Seq<char>>
    decreases events.len(),
{
    if events.len() == 0 {
        None
    } else {
        match events.first() {
            MdEvent::HeadingStart { level } => scan_title(events.drop_first(), Some(level)),
            MdEvent::HeadingEnd { level: _ } => scan_title(events.drop_first(), None),
            MdEvent::Text { text } => if in_heading == Some(1u8) {
                Some(text@)
            } else {
                scan_title(events.drop_first(), in_heading)
            },
            MdEvent::Other => scan_title(events.drop_first(), in_heading),
        }
    }
}

/// The title the scan assigns to an event stream, starting outside any
/// heading.
pub open spec fn title_of(events: Seq<MdEvent>) -> Option<Seq<char>> {
    scan_title(events, None)
}

/// The scanner state left after consuming an event stream without taking
/// a title.
pub open spec fn scan_state(events: Seq<MdEvent>, in_heading: Option<u8>) -> Option<u8>
    decreases events.len(),
{
    if events.len() == 0 {
        in_heading
    } else {
        let next = match events.first() {
            MdEvent::HeadingStart { level } => Some(level),
            MdEvent::HeadingEnd { level: _ } => None,
            MdEvent::Text { text: _ } => in_heading,
            MdEvent::Other => in_heading,
        };
        scan_state(events.drop_first(), next)
    }
}

/// Runs the title scan over a concrete event stream.
pub fn title_from_events(events: &Vec<MdEvent>) -> (r: Option<String>)
    ensures
        match r {
            Some(t) => title_of(events@) == Some(t@),
            None => title_of(events@) is None,
        },
{
    proof {
        assert(events@.skip(0) =~= events@);
    }
    let mut i: usize = 0;
    let mut in_heading: Option<u8> = None;
    while i < events.len()
        invariant
            i <= events@.len(),
            title_of(events@) == scan_title(events@.skip(i as int), in_heading),
        decreases events@.len() - i,
    {
        proof {
            assert(events@.skip(i as int).first() == events@[i as int]);
            assert(events@.skip(i as int).drop_first() =~= events@.skip(i + 1));
        }
        match &events[i] {
            MdEvent::HeadingStart { level } => {
                in_heading = Some(*level);
            },
            MdEvent::HeadingEnd { level: _ } => {
                in_heading = None;
            },
            MdEvent::Text { text } => {
                let is_h1 = match in_heading {
                    Some(level) => level == 1,
                    None => false,
                };
                if is_h1 {
                    return Some(text.clone());
                }
            },
            MdEvent::Other => {},
        }
        i = i + 1;
    }
    proof {
        assert(events@.skip(i as int).len() == 0);
    }
    None
}

/// Whether an event opens a level-1 heading.
pub open spec fn is_h1_start(e: MdEvent) -> bool {
    e matches MdEvent::HeadingStart { level: 1u8 }
}

/// Scanning a concatenation: the left part is scanned first, and only when
/// it yields no title does the scan go on into the right part, carrying the
/// state the left part left behind.
proof fn lemma_scan_append(a: Seq<MdEvent>, b: Seq<MdEvent>, st: Option<u8>)
    ensures
        scan_title(a + b, st) == if scan_title(a, st) is Some {
            scan_title(a, st)
        } else {
            scan_title(b, scan_state(a, st))
        },
    decreases a.len(),
{
    if a.len() == 0 {
        assert(a + b =~= b);
    } else {
        assert((a + b).first() == a.first());
        assert((a + b).drop_first() =~= a.drop_first() + b);
        match a.first() {
            MdEvent::HeadingStart { level } => {
                lemma_scan_append(a.drop_first(), b, Some(level));
            },
            MdEvent::HeadingEnd { level: _ } => {
                lemma_scan_append(a.drop_first(), b, None);
            },
            MdEvent::Text { text: _ } => {
                if st != Some(1u8) {
                    lemma_scan_append(a.drop_first(), b, st);
                }
            },
            MdEvent::Other => {
                lemma_scan_append(a.drop_first(), b, st);
            },
        }
    }
}

/// Law: the first level-1 heading wins. When nothing before it yields a
/// title, a level-1 heading start followed by a text event titles the
/// document with exactly that text, whatever events follow.
pub proof fn lemma_first_h1_text_is_title(pre: Seq<MdEvent>, t: String, post: Seq<MdEvent>)
    requires
        title_of(pre) is None,
    ensures
        title_of(
            pre + seq![(MdEvent::HeadingStart { level: 1u8 }), (MdEvent::Text { text: t })] + post,
        ) == Some(t@),
{
    let mid = seq![(MdEvent::HeadingStart { level: 1u8 }), (MdEvent::Text { text: t })];
    let st = scan_state(pre, None);
    lemma_scan_append(pre, mid + post, None);
    lemma_scan_append(mid, post, st);
    assert(scan_title(mid, st) == Some(t@)) by {
        let tail = seq![(MdEvent::Text { text: t })];
        assert(mid.len() == 2);
        assert(mid.first() == (MdEvent::HeadingStart { level: 1u8 }));
        assert(mid.drop_first() =~= tail);
        assert(tail.first() == (MdEvent::Text { text: t }));
        assert(scan_title(tail, Some(1u8)) == Some(t@));
        assert(scan_title(mid, st) == scan_title(mid.drop_first(), Some(1u8)));
    }
    assert(pre + mid + post =~= pre + (mid + post));
}

/// No title is scanned out of a stream with no level-1 heading start,
/// from any state short of an open level-1 heading.
proof fn lemma_scan_no_h1(events: Seq<MdEvent>, st: Option<u8>)
    requires
        st != Some(1u8),
        forall|i: int| 0 <= i < events.len() ==> !is_h1_start(#[trigger] events[i]),
    ensures
        scan_title(events, st) is None,
    decreases events.len(),
{
    if events.len() > 0 {
        let rest = events.drop_first();
        assert forall|i: int| 0 <= i < rest.len() implies !is_h1_start(#[trigger] rest[i]) by {
            assert(rest[i] == events[i + 1]);
        }
        match events.first() {
            MdEvent::HeadingStart { level } => {
                assert(!is_h1_start(events[0]));
                lemma_scan_no_h1(rest, Some(level));
            },
            MdEvent::HeadingEnd { level: _ } => {
                lemma_scan_no_h1(rest, None);
            },
            MdEvent::Text { text: _ } => {
                lemma_scan_no_h1(rest, st);
            },
            MdEvent::Other => {
                lemma_scan_no_h1(rest, st);
            },
        }
    }
}

/// Law: a document whose event stream opens no level-1 heading has no
/// extractable title, whatever other headings or text it holds.
pub proof fn lemma_no_h1_no_title(events: Seq<MdEvent>)
    requires
        forall|i: int| 0 <= i < events.len() ==> !is_h1_start(#[trigger] events[i]),
    ensures
        title_of(events) is None,
{
    lemma_scan_no_h1(events, None);
}

/// Scans one document's raw text and returns the text content of its first
/// top-level heading; a document without one fails with `TitleNotFound`.
pub fn extract_title(text: &str) -> (r: Result<String, SiteError>)
    ensures
        match r {
            Ok(t) => title_of(events_of(text@)) == Some(t@),
            Err(e) => e == SiteError::TitleNotFound && title_of(events_of(text@)) is None,
        },
{
    let events = md_events(text);
    match title_from_events(&events) {
        Some(t) => Ok(t),
        None => Err(SiteError::TitleNotFound),
    }
}

} // verus!
