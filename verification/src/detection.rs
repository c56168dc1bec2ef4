//! Meeting detection: which upcoming calendar events are about to start
//! and should prompt the user to record them.

use vstd::prelude::*;
use vstd::string::StringSliceAdditionalSpecFns;
use vstd::utf8::encode_utf8;
use crate::calendar_events::UpcomingCalendarEventRow;

verus! {

/// The instant an RFC 3339 timestamp names, in milliseconds since the Unix
/// epoch, as `chrono::DateTime::parse_from_rfc3339` reads it.
pub uninterp spec fn rfc3339_millis(s: Seq<char>) -> Option<int>;

/// The instant a `%Y-%m-%dT%H:%M:%S` timestamp names when read as UTC, in
/// milliseconds, as `chrono::NaiveDateTime::parse_from_str` reads it.
pub uninterp spec fn naive_utc_millis(s: Seq<char>) -> Option<int>;

/// `chrono::DateTime::parse_from_rfc3339(s)` then `timestamp_millis`.
#[verifier::external_body]
fn parse_rfc3339_millis(s: &str) -> (r: Option<i64>)
    ensures
        match r {
            Some(v) => rfc3339_millis(s@) == Some(v as int),
            None => rfc3339_millis(s@) is None,
        },
{
    chrono::DateTime::parse_from_rfc3339(s).ok().map(|dt| dt.timestamp_millis())
}

/// `chrono::NaiveDateTime::parse_from_str(s, "%Y-%m-%dT%H:%M:%S")`, read as
/// UTC, then `timestamp_millis`.
#[verifier::external_body]
fn parse_naive_utc_millis(s: &str) -> (r: Option<i64>)
    ensures
        match r {
            Some(v) => naive_utc_millis(s@) == Some(v as int),
            None => naive_utc_millis(s@) is None,
        },
{
    chrono::NaiveDateTime::parse_from_str(s, "%Y-%m-%dT%H:%M:%S").ok().map(|n| n.and_utc().timestamp_millis())
}

/// An event start as a timestamp: a bare date (ten bytes) is the start
/// of that day.
pub open spec fn start_text(start: Seq<char>) -> Seq<char> {
    if encode_utf8(start).len() == 10 {
        start + "T00:00:00"@
    } else {
        start
    }
}

/// When an event starts: its start read as RFC 3339, else as a time
/// without zone taken as UTC.
pub open spec fn event_start_millis(start: Seq<char>) -> Option<int> {
    match rfc3339_millis(start_text(start)) {
        Some(t) => Some(t),
        None => naive_utc_millis(start_text(start)),
    }
}

pub fn event_start(start: &str) -> (r: Option<i64>)
    ensures
        match r {
            Some(t) => event_start_millis(start@) == Some(t as int),
            None => event_start_millis(start@) is None,
        },
{
    let text = if start.as_bytes().len() == 10 {
        let mut t = String::from_str(start);
        t.append("T00:00:00");
        t
    } else {
        String::from_str(start)
    };
    match parse_rfc3339_millis(text.as_str()) {
        Some(t) => Some(t),
        None => parse_naive_utc_millis(text.as_str()),
    }
}

/// Lead times (in minutes) that can be measured.
pub open spec fn valid_lead(lead_minutes: i64) -> bool {
    -(0x7fff_ffff_ffff_ffffint / 60_000) <= lead_minutes <= 0x7fff_ffff_ffff_ffffint / 60_000
}

/// An event is prompted for when it starts within the lead time from now
/// (not already started); events whose start cannot be read are skipped.
pub open spec fn spec_in_window(start: Seq<char>, now_ms: i64, lead_minutes: i64) -> bool {
    match event_start_millis(start) {
        Some(t) => 0 <= t - now_ms <= lead_minutes * 60_000,
        None => false,
    }
}

pub fn in_prompt_window(start: &str, now_ms: i64, lead_minutes: i64) -> (r: bool)
    requires
        valid_lead(lead_minutes),
    ensures
        r == spec_in_window(start@, now_ms, lead_minutes),
{
    match event_start(start) {
        Some(t) => {
            let diff: i128 = (t as i128) - (now_ms as i128);
            let lead: i128 = (lead_minutes as i128) * 60_000;
            0 <= diff && diff <= lead
        },
        None => false,
    }
}

/// Indices of the events that are about to start, in list order.
pub open spec fn window_indices(events: Seq<UpcomingCalendarEventRow>, now_ms: i64, lead_minutes: i64) -> Seq<int>
    decreases events.len(),
{
    if events.len() == 0 {
        Seq::empty()
    } else {
        let prev = window_indices(events.drop_last(), now_ms, lead_minutes);
        if spec_in_window(events.last().start@, now_ms, lead_minutes) {
            prev.push(events.len() - 1)
        } else {
            prev
        }
    }
}

/// The events to prompt for (each still to be checked against the prompts
/// already shown).
pub fn prompt_candidates(events: &[UpcomingCalendarEventRow], now_ms: i64, lead_minutes: i64) -> (v: Vec<usize>)
    requires
        valid_lead(lead_minutes),
    ensures
        v@.len() == window_indices(events@, now_ms, lead_minutes).len(),
        forall|k: int| 0 <= k < v@.len() ==> v@[k] as int == #[trigger] window_indices(events@, now_ms, lead_minutes)[k],
{
    let mut v: Vec<usize> = Vec::new();
    let mut i: usize = 0;
    while i < events.len()
        invariant
            valid_lead(lead_minutes),
            i <= events@.len(),
            v@.len() == window_indices(events@.subrange(0, i as int), now_ms, lead_minutes).len(),
            forall|k: int| 0 <= k < v@.len() ==> v@[k] as int == #[trigger] window_indices(events@.subrange(0, i as int), now_ms, lead_minutes)[k],
        decreases events@.len() - i,
    {
        proof {
            assert(events@.subrange(0, i + 1).drop_last() =~= events@.subrange(0, i as int));
            assert(events@.subrange(0, i + 1).last() == events@[i as int]);
        }
        if in_prompt_window(events[i].start.as_str(), now_ms, lead_minutes) {
            v.push(i);
        }
        i += 1;
    }
    assert(events@.subrange(0, events@.len() as int) =~= events@);
    v
}

} // verus!
