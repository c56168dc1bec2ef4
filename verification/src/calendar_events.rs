//! Upcoming calendar events: provider events as rows, the account's own
//! address left out of the attendees, and the merged list in start order.

use vstd::prelude::*;
use crate::text::{str_eq, chars_vec};

verus! {

/// Someone invited to an event.
pub struct EventAttendee {
    pub name: Option<String>,
    pub email: String,
}

/// An upcoming event as listed in the app.
pub struct UpcomingCalendarEventRow {
    pub provider: String,
    pub account_email: Option<String>,
    pub external_id: String,
    pub title: String,
    pub start: String,
    pub end: String,
    pub organizer: Option<String>,
    pub location: Option<String>,
    pub attendees: Vec<EventAttendee>,
}

/// A connected calendar account.
pub struct CalendarAccountRow {
    pub provider: String,
    pub email: Option<String>,
    pub display_name: Option<String>,
    pub connected_at: i64,
    pub updated_at: i64,
}

/// A provider's state on the settings screen.
pub struct CalendarConfigRow {
    pub provider: String,
    pub configured: bool,
    pub connected: bool,
    pub email: Option<String>,
    pub display_name: Option<String>,
}

/// An attendee of a Google event.
pub struct GoogleAttendee {
    pub email: Option<String>,
    pub display_name: Option<String>,
    pub is_self: Option<bool>,
}

/// The organizer of a Google event.
pub struct GoogleOrganizer {
    pub email: Option<String>,
    pub display_name: Option<String>,
}

/// A start or end of a Google event: a time, or a date for all-day events.
pub struct GoogleDateTime {
    pub date_time: Option<String>,
    pub date: Option<String>,
}

/// An event of a Google calendar.
pub struct GoogleEvent {
    pub id: String,
    pub summary: Option<String>,
    pub location: Option<String>,
    pub organizer: Option<GoogleOrganizer>,
    pub attendees: Option<Vec<GoogleAttendee>>,
    pub start: GoogleDateTime,
    pub end: GoogleDateTime,
}

/// A name and address in a Microsoft event.
pub struct MicrosoftEmailAddress {
    pub name: Option<String>,
    pub address: Option<String>,
}

/// An event of a Microsoft calendar.
pub struct MicrosoftEvent {
    pub id: String,
    pub subject: Option<String>,
    pub location_name: Option<Option<String>>,
    pub organizer: Option<Option<MicrosoftEmailAddress>>,
    pub attendees: Option<Vec<Option<MicrosoftEmailAddress>>>,
    pub start: String,
    pub end: String,
}

pub open spec fn ov(o: Option<String>) -> Option<Seq<char>> {
    match o {
        Some(s) => Some(s@),
        None => None,
    }
}

/// An attendee as plain values: name and address.
pub open spec fn attendee_views(v: Seq<EventAttendee>) -> Seq<(Option<Seq<char>>, Seq<char>)> {
    Seq::new(v.len(), |i: int| (ov(v[i].name), v[i].email@))
}

/// A Google attendee as listed: not the user, with an address that is
/// not the account's own.
pub open spec fn google_attendee(a: GoogleAttendee, account: Option<Seq<char>>) -> Option<(Option<Seq<char>>, Seq<char>)> {
    if a.is_self == Some(true) {
        None
    } else {
        match a.email {
            None => None,
            Some(e) => if account == Some(e@) { None } else { Some((ov(a.display_name), e@)) },
        }
    }
}

pub open spec fn google_attendees(list: Seq<GoogleAttendee>, account: Option<Seq<char>>) -> Seq<(Option<Seq<char>>, Seq<char>)>
    decreases list.len(),
{
    if list.len() == 0 {
        Seq::empty()
    } else {
        let prev = google_attendees(list.drop_last(), account);
        match google_attendee(list.last(), account) {
            Some(a) => prev.push(a),
            None => prev,
        }
    }
}

/// A Microsoft attendee as listed: one with an address that is not the
/// account's own.
pub open spec fn microsoft_attendee(a: Option<MicrosoftEmailAddress>, account: Option<Seq<char>>) -> Option<(Option<Seq<char>>, Seq<char>)> {
    match a {
        None => None,
        Some(ea) => match ea.address {
            None => None,
            Some(e) => if account == Some(e@) { None } else { Some((ov(ea.name), e@)) },
        },
    }
}

pub open spec fn microsoft_attendees(list: Seq<Option<MicrosoftEmailAddress>>, account: Option<Seq<char>>) -> Seq<(Option<Seq<char>>, Seq<char>)>
    decreases list.len(),
{
    if list.len() == 0 {
        Seq::empty()
    } else {
        let prev = microsoft_attendees(list.drop_last(), account);
        match microsoft_attendee(list.last(), account) {
            Some(a) => prev.push(a),
            None => prev,
        }
    }
}

fn clone_opt(o: &Option<String>) -> (r: Option<String>)
    ensures
        ov(r) == ov(*o),
{
    match o {
        Some(s) => Some(crate::text::to_owned_string(s.as_str())),
        None => None,
    }
}

fn same_address(account: &Option<String>, email: &str) -> (r: bool)
    ensures
        r == (ov(*account) == Some(email@)),
{
    match account {
        Some(a) => str_eq(a.as_str(), email),
        None => false,
    }
}

/// The time of a Google start or end: the time, else the date, else empty.
pub open spec fn google_when(d: GoogleDateTime) -> Seq<char> {
    match d.date_time {
        Some(t) => t@,
        None => match d.date {
            Some(x) => x@,
            None => Seq::empty(),
        },
    }
}

fn when_of(d: GoogleDateTime) -> (r: String)
    ensures
        r@ == google_when(d),
{
    match d.date_time {
        Some(t) => t,
        None => match d.date {
            Some(x) => x,
            None => String::new(),
        },
    }
}

/// A Google event as a row: untitled events are called `Untitled event`,
/// the organizer is named by display name, else address.
pub fn map_google_event(item: GoogleEvent, account_email: &Option<String>) -> (row: UpcomingCalendarEventRow)
    ensures
        row.provider@ == "google"@,
        ov(row.account_email) == ov(*account_email),
        row.external_id == item.id,
        row.title@ == match item.summary { Some(s) => s@, None => "Untitled event"@ },
        row.start@ == google_when(item.start),
        row.end@ == google_when(item.end),
        ov(row.organizer) == match item.organizer {
            Some(o) => match o.display_name { Some(n) => Some(n@), None => ov(o.email) },
            None => None,
        },
        row.location == item.location,
        attendee_views(row.attendees@) == google_attendees(
            match item.attendees { Some(v) => v@, None => Seq::empty() },
            ov(*account_email),
        ),
{
    let ghost list = match item.attendees { Some(ref v) => v@, None => Seq::<GoogleAttendee>::empty() };
    let source: Vec<GoogleAttendee> = match item.attendees {
        Some(v) => v,
        None => Vec::new(),
    };
    let mut attendees: Vec<EventAttendee> = Vec::new();
    for a in it: source
        invariant
            it.seq() == list,
            attendee_views(attendees@) == google_attendees(list.subrange(0, it.index() as int), ov(*account_email)),
    {
        proof {
            assert(list.subrange(0, it.index() + 1).drop_last() =~= list.subrange(0, it.index() as int));
            assert(list.subrange(0, it.index() + 1).last() == a);
        }
        let ghost before = attendees@;
        let is_self = match a.is_self { Some(b) => b, None => false };
        if !is_self {
            match a.email {
                Some(e) => {
                    if !same_address(account_email, e.as_str()) {
                        let att = EventAttendee { name: a.display_name, email: e };
                        attendees.push(att);
                        assert(attendee_views(attendees@) =~= attendee_views(before).push((ov(att.name), att.email@)));
                    }
                },
                None => {},
            }
        }
    }
    proof {
        assert(list.subrange(0, list.len() as int) =~= list);
    }
    let title = match item.summary {
        Some(s) => s,
        None => String::from_str("Untitled event"),
    };
    let organizer = match item.organizer {
        Some(o) => match o.display_name {
            Some(n) => Some(n),
            None => o.email,
        },
        None => None,
    };
    UpcomingCalendarEventRow {
        provider: String::from_str("google"),
        account_email: clone_opt(account_email),
        external_id: item.id,
        title,
        start: when_of(item.start),
        end: when_of(item.end),
        organizer,
        location: item.location,
        attendees,
    }
}

/// A Microsoft event as a row: untitled events are called `Untitled
/// event`, the organizer is named by name, else address.
pub fn map_microsoft_event(item: MicrosoftEvent, account_email: &Option<String>) -> (row: UpcomingCalendarEventRow)
    ensures
        row.provider@ == "microsoft"@,
        ov(row.account_email) == ov(*account_email),
        row.external_id == item.id,
        row.title@ == match item.subject { Some(s) => s@, None => "Untitled event"@ },
        row.start == item.start,
        row.end == item.end,
        ov(row.organizer) == match item.organizer {
            Some(Some(e)) => match e.name { Some(n) => Some(n@), None => ov(e.address) },
            _ => None,
        },
        row.location == match item.location_name { Some(l) => l, None => None },
        attendee_views(row.attendees@) == microsoft_attendees(
            match item.attendees { Some(v) => v@, None => Seq::empty() },
            ov(*account_email),
        ),
{
    let ghost list = match item.attendees { Some(ref v) => v@, None => Seq::<Option<MicrosoftEmailAddress>>::empty() };
    let source: Vec<Option<MicrosoftEmailAddress>> = match item.attendees {
        Some(v) => v,
        None => Vec::new(),
    };
    let mut attendees: Vec<EventAttendee> = Vec::new();
    for a in it: source
        invariant
            it.seq() == list,
            attendee_views(attendees@) == microsoft_attendees(list.subrange(0, it.index() as int), ov(*account_email)),
    {
        proof {
            assert(list.subrange(0, it.index() + 1).drop_last() =~= list.subrange(0, it.index() as int));
            assert(list.subrange(0, it.index() + 1).last() == a);
        }
        let ghost before = attendees@;
        match a {
            Some(ea) => match ea.address {
                Some(e) => {
                    if !same_address(account_email, e.as_str()) {
                        let att = EventAttendee { name: ea.name, email: e };
                        attendees.push(att);
                        assert(attendee_views(attendees@) =~= attendee_views(before).push((ov(att.name), att.email@)));
                    }
                },
                None => {},
            },
            None => {},
        }
    }
    proof {
        assert(list.subrange(0, list.len() as int) =~= list);
    }
    let title = match item.subject {
        Some(s) => s,
        None => String::from_str("Untitled event"),
    };
    let organizer = match item.organizer {
        Some(Some(e)) => match e.name {
            Some(n) => Some(n),
            None => e.address,
        },
        _ => None,
    };
    let location = match item.location_name {
        Some(l) => l,
        None => None,
    };
    UpcomingCalendarEventRow {
        provider: String::from_str("microsoft"),
        account_email: clone_opt(account_email),
        external_id: item.id,
        title,
        start: item.start,
        end: item.end,
        organizer,
        location,
        attendees,
    }
}

/// A provider's settings-screen state: configured when it has client
/// settings, connected when it has an account and stored tokens.
pub fn provider_status(
    provider: &str,
    account: Option<&CalendarAccountRow>,
    configured: bool,
    has_tokens: bool,
) -> (row: CalendarConfigRow)
    ensures
        row.provider@ == provider@,
        row.configured == configured,
        row.connected == (account is Some && has_tokens),
        ov(row.email) == match account { Some(a) => ov(a.email), None => None },
        ov(row.display_name) == match account { Some(a) => ov(a.display_name), None => None },
{
    let (email, display_name) = match account {
        Some(a) => (clone_opt(&a.email), clone_opt(&a.display_name)),
        None => (None, None),
    };
    CalendarConfigRow {
        provider: String::from_str(provider),
        configured,
        connected: account.is_some() && has_tokens,
        email,
        display_name,
    }
}

/// Lexicographic order of character sequences, which is the byte order
/// of their UTF-8 texts.
pub open spec fn lex_le(a: Seq<char>, b: Seq<char>) -> bool
    decreases a.len(),
{
    if a.len() == 0 {
        true
    } else if b.len() == 0 {
        false
    } else if a[0] != b[0] {
        (a[0] as u32) < (b[0] as u32)
    } else {
        lex_le(a.drop_first(), b.drop_first())
    }
}

fn str_le(a: &str, b: &str) -> (r: bool)
    ensures
        r == lex_le(a@, b@),
{
    let x = chars_vec(a);
    let y = chars_vec(b);
    let mut i: usize = 0;
    assert(x@.subrange(0, x@.len() as int) =~= x@);
    assert(y@.subrange(0, y@.len() as int) =~= y@);
    while i < x.len() && i < y.len() && x[i] == y[i]
        invariant
            x@ == a@,
            y@ == b@,
            i <= x@.len(),
            i <= y@.len(),
            lex_le(a@, b@) == lex_le(x@.subrange(i as int, x@.len() as int), y@.subrange(i as int, y@.len() as int)),
        decreases x@.len() - i,
    {
        let ghost xs = x@.subrange(i as int, x@.len() as int);
        let ghost ys = y@.subrange(i as int, y@.len() as int);
        assert(xs.drop_first() =~= x@.subrange(i + 1, x@.len() as int));
        assert(ys.drop_first() =~= y@.subrange(i + 1, y@.len() as int));
        i += 1;
    }
    let ghost xs = x@.subrange(i as int, x@.len() as int);
    let ghost ys = y@.subrange(i as int, y@.len() as int);
    if i == x.len() {
        true
    } else if i == y.len() {
        false
    } else {
        assert(xs[0] == x@[i as int] && ys[0] == y@[i as int]);
        (x[i] as u32) < (y[i] as u32)
    }
}

/// Where an event goes in a start-ordered list: after every event that
/// does not start later.
pub open spec fn insert_pos(sorted: Seq<Seq<char>>, x: Seq<char>) -> int
    decreases sorted.len(),
{
    if sorted.len() == 0 {
        0
    } else if lex_le(sorted[0], x) {
        1 + insert_pos(sorted.drop_first(), x)
    } else {
        0
    }
}

/// Start times in list order.
pub open spec fn starts(v: Seq<UpcomingCalendarEventRow>) -> Seq<Seq<char>> {
    Seq::new(v.len(), |i: int| v[i].start@)
}

/// The stable ordering by start of a list: each event, in turn, placed
/// after the earlier ones that do not start later.
pub open spec fn sorted_by_start(v: Seq<UpcomingCalendarEventRow>) -> Seq<UpcomingCalendarEventRow>
    decreases v.len(),
{
    if v.len() == 0 {
        Seq::empty()
    } else {
        let prev = sorted_by_start(v.drop_last());
        let k = insert_pos(starts(prev), v.last().start@);
        prev.subrange(0, k) + seq![v.last()] + prev.subrange(k, prev.len() as int)
    }
}

proof fn lemma_sorted_len(v: Seq<UpcomingCalendarEventRow>)
    ensures
        sorted_by_start(v).len() == v.len(),
    decreases v.len(),
{
    if v.len() > 0 {
        lemma_sorted_len(v.drop_last());
        lemma_insert_pos_range(starts(sorted_by_start(v.drop_last())), v.last().start@);
    }
}

proof fn lemma_insert_pos_range(sorted: Seq<Seq<char>>, x: Seq<char>)
    ensures
        0 <= insert_pos(sorted, x) <= sorted.len(),
    decreases sorted.len(),
{
    if sorted.len() > 0 {
        lemma_insert_pos_range(sorted.drop_first(), x);
    }
}

/// The merged events of all providers in start order; events that start
/// together keep their order.
pub fn sort_events(events: Vec<UpcomingCalendarEventRow>) -> (out: Vec<UpcomingCalendarEventRow>)
    ensures
        out@ == sorted_by_start(events@),
{
    let ghost all = events@;
    let mut out: Vec<UpcomingCalendarEventRow> = Vec::new();
    for e in it: events
        invariant
            it.seq() == all,
            out@ == sorted_by_start(all.subrange(0, it.index() as int)),
    {
        let ghost prev = out@;
        proof {
            assert(all.subrange(0, it.index() + 1).drop_last() =~= all.subrange(0, it.index() as int));
            assert(all.subrange(0, it.index() + 1).last() == e);
            lemma_sorted_len(all.subrange(0, it.index() as int));
        }
        let mut k: usize = 0;
        assert(starts(prev).subrange(0, prev.len() as int) =~= starts(prev));
        while k < out.len() && str_le(out[k].start.as_str(), e.start.as_str())
            invariant
                out@ == prev,
                k <= prev.len(),
                insert_pos(starts(prev), e.start@) == k + insert_pos(starts(prev).subrange(k as int, prev.len() as int), e.start@),
            decreases prev.len() - k,
        {
            let ghost rest = starts(prev).subrange(k as int, prev.len() as int);
            assert(rest[0] == prev[k as int].start@);
            assert(rest.drop_first() =~= starts(prev).subrange(k + 1, prev.len() as int));
            k += 1;
        }
        proof {
            let rest = starts(prev).subrange(k as int, prev.len() as int);
            if k < prev.len() {
                assert(rest[0] == prev[k as int].start@);
            }
            assert(insert_pos(starts(prev), e.start@) == k);
        }
        out.insert(k, e);
        proof {
            assert(out@ =~= prev.subrange(0, k as int) + seq![e] + prev.subrange(k as int, prev.len() as int));
        }
    }
    proof {
        assert(all.subrange(0, all.len() as int) =~= all);
    }
    out
}

/// Start times in non-decreasing order.
pub open spec fn starts_ordered(v: Seq<UpcomingCalendarEventRow>) -> bool {
    forall|i: int, j: int| 0 <= i < j < v.len() ==> lex_le(#[trigger] v[i].start@, #[trigger] v[j].start@)
}

proof fn lemma_lex_total(a: Seq<char>, b: Seq<char>)
    ensures
        lex_le(a, b) || lex_le(b, a),
    decreases a.len(),
{
    if a.len() > 0 && b.len() > 0 {
        if a[0] == b[0] {
            lemma_lex_total(a.drop_first(), b.drop_first());
        } else if (a[0] as u32) == (b[0] as u32) {
            vstd::utf8::char_u32_cast(a[0], a[0] as u32);
            vstd::utf8::char_u32_cast(b[0], b[0] as u32);
        }
    }
}

proof fn lemma_lex_trans(a: Seq<char>, b: Seq<char>, c: Seq<char>)
    requires
        lex_le(a, b),
        lex_le(b, c),
    ensures
        lex_le(a, c),
    decreases a.len(),
{
    if a.len() > 0 && b.len() > 0 && c.len() > 0 && a[0] == b[0] && b[0] == c[0] {
        lemma_lex_trans(a.drop_first(), b.drop_first(), c.drop_first());
    }
}

/// Everything before the insertion point starts no later than `x`; the
/// element at it, if any, starts later.
proof fn lemma_insert_pos_split(xs: Seq<Seq<char>>, x: Seq<char>)
    ensures
        forall|i: int| 0 <= i < insert_pos(xs, x) ==> lex_le(#[trigger] xs[i], x),
        insert_pos(xs, x) < xs.len() ==> !lex_le(xs[insert_pos(xs, x)], x),
    decreases xs.len(),
{
    lemma_insert_pos_range(xs, x);
    if xs.len() > 0 && lex_le(xs[0], x) {
        let t = xs.drop_first();
        lemma_insert_pos_split(t, x);
        lemma_insert_pos_range(t, x);
        assert(insert_pos(xs, x) == 1 + insert_pos(t, x));
        assert forall|i: int| 0 <= i < insert_pos(xs, x) implies lex_le(#[trigger] xs[i], x) by {
            if i > 0 {
                assert(xs[i] == t[i - 1]);
            }
        }
        if insert_pos(xs, x) < xs.len() {
            assert(xs[insert_pos(xs, x)] == t[insert_pos(t, x)]);
        }
    }
}

proof fn lemma_sorted_step(v: Seq<UpcomingCalendarEventRow>)
    requires
        v.len() > 0,
        starts_ordered(sorted_by_start(v.drop_last())),
        sorted_by_start(v.drop_last()).to_multiset() == v.drop_last().to_multiset(),
    ensures
        starts_ordered(sorted_by_start(v)),
        sorted_by_start(v).to_multiset() == v.to_multiset(),
{
    broadcast use vstd::seq_lib::to_multiset_build, vstd::seq_lib::to_multiset_insert;
    let prev = sorted_by_start(v.drop_last());
    let x = v.last();
    let xs = starts(prev);
    let k = insert_pos(xs, x.start@);
    lemma_insert_pos_range(xs, x.start@);
    lemma_insert_pos_split(xs, x.start@);
    let out = sorted_by_start(v);
    assert(out =~= prev.insert(k, x));
    assert(v =~= v.drop_last().push(x));
    assert(out.to_multiset() == prev.to_multiset().insert(x));
    assert forall|i: int, j: int| 0 <= i < j < out.len() implies lex_le(#[trigger] out[i].start@, #[trigger] out[j].start@) by {
        if j < k {
            assert(out[i] == prev[i] && out[j] == prev[j]);
        } else if j == k {
            assert(out[i] == prev[i] && out[j] == x);
            assert(xs[i] == prev[i].start@);
        } else if i > k {
            assert(out[i] == prev[i - 1] && out[j] == prev[j - 1]);
        } else {
            // j > k, the later element comes from `prev` at `j - 1 >= k`.
            assert(out[j] == prev[j - 1]);
            assert(xs[k] == prev[k].start@);
            lemma_lex_total(prev[k].start@, x.start@);
            if j - 1 > k {
                assert(lex_le(prev[k].start@, prev[j - 1].start@));
                lemma_lex_trans(x.start@, prev[k].start@, prev[j - 1].start@);
            }
            if i < k {
                assert(out[i] == prev[i]);
                assert(xs[i] == prev[i].start@);
                lemma_lex_trans(prev[i].start@, x.start@, prev[j - 1].start@);
            } else {
                assert(out[i] == x);
            }
        }
    }
}

/// Sorting the merged events orders them by start and neither loses nor
/// adds an event: the result is a rearrangement of the input.
pub proof fn law_sort_events_ordered_permutation(v: Seq<UpcomingCalendarEventRow>)
    ensures
        starts_ordered(sorted_by_start(v)),
        sorted_by_start(v).to_multiset() == v.to_multiset(),
    decreases v.len(),
{
    if v.len() == 0 {
        assert(sorted_by_start(v) =~= v);
    } else {
        law_sort_events_ordered_permutation(v.drop_last());
        lemma_sorted_step(v);
    }
}

} // verus!
