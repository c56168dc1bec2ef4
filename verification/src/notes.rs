//! Structured meeting notes: templates, section rules, keyword queries,
//! excerpts and the Markdown rendering.

use vstd::prelude::*;
use crate::text::{trim, trim_seq, trim_end, trim_end_seq, trim_start_seq, is_ws, is_ascii_seq, ascii_lower, to_lowercase, unicode_lowercase, str_eq, pad2, i64_pad2, contains_any, any_in, str_views, split_whitespace, words, join_strings, seq_join, views, chars_vec, take_chars, string_from_chars, to_owned_string, alnum_pieces, split_non_alphanumeric, str_in_list, char_pieces, split_on_char, strip_prefixes, trim_start_matches, starts_with_seq, str_starts_with, contains_seq, lemma_contains_concat, lemma_join_contains, lemma_join_first};
use crate::structured::{SegmentRow, StructuredNoteCitation};
use vstd::utf8::encode_utf8;

verus! {

/// Section kinds in display order.
pub open spec fn section_order() -> Seq<Seq<char>> {
    seq!["key_decisions"@, "action_items"@, "open_questions"@, "risks_blockers"@, "quotes_highlights"@]
}

/// A meeting template the user can pick.
pub struct MeetingTemplateOption {
    pub kind: String,
    pub label: String,
    pub description: String,
}

/// The templates: kind, label, description.
pub open spec fn template_table() -> Seq<(Seq<char>, Seq<char>, Seq<char>)> {
    seq![
        ("generic"@, "Generic"@, "Balanced summary for most internal or external meetings."@),
        ("sales_call"@, "Sales call"@, "Focus on buyer pain, objections, commitments, and next steps."@),
        ("one_on_one"@, "1:1"@, "Focus on feedback, support needs, growth topics, and follow-ups."@),
        ("standup"@, "Standup"@, "Focus on progress, blockers, and immediate next actions."@),
        ("interview"@, "Interview"@, "Focus on candidate signals, open questions, risks, and quotes."@),
        ("client_review"@, "Client review"@, "Focus on outcomes, delivery risks, decisions, and requests."@),
    ]
}

fn template_option(kind: &str, label: &str, description: &str) -> (o: MeetingTemplateOption)
    ensures
        o.kind@ == kind@,
        o.label@ == label@,
        o.description@ == description@,
{
    MeetingTemplateOption {
        kind: String::from_str(kind),
        label: String::from_str(label),
        description: String::from_str(description),
    }
}

/// The six meeting templates, in display order.
pub fn template_options() -> (v: Vec<MeetingTemplateOption>)
    ensures
        v@.len() == template_table().len(),
        forall|i: int|
            0 <= i < v@.len() ==> (#[trigger] v@[i]).kind@ == template_table()[i].0 && v@[i].label@
                == template_table()[i].1 && v@[i].description@ == template_table()[i].2,
{
    let mut v: Vec<MeetingTemplateOption> = Vec::new();
    v.push(template_option("generic", "Generic", "Balanced summary for most internal or external meetings."));
    v.push(template_option("sales_call", "Sales call", "Focus on buyer pain, objections, commitments, and next steps."));
    v.push(template_option("one_on_one", "1:1", "Focus on feedback, support needs, growth topics, and follow-ups."));
    v.push(template_option("standup", "Standup", "Focus on progress, blockers, and immediate next actions."));
    v.push(template_option("interview", "Interview", "Focus on candidate signals, open questions, risks, and quotes."));
    v.push(template_option("client_review", "Client review", "Focus on outcomes, delivery risks, decisions, and requests."));
    v
}

/// A known template kind.
pub open spec fn is_template_kind(k: Seq<char>) -> bool {
    exists|i: int| 0 <= i < template_table().len() && #[trigger] template_table()[i].0 == k
}

/// The requested template (trimmed and lower-cased; `generic` when
/// absent) if it is a known kind, else `generic`.
pub open spec fn spec_normalize_template_kind(value: Option<Seq<char>>) -> Seq<char> {
    let candidate = unicode_lowercase(trim_seq(match value { Some(v) => v, None => "generic"@ }));
    if is_template_kind(candidate) { candidate } else { "generic"@ }
}

/// A template kind is its own trimmed, lower-cased form: plain ASCII in
/// lower case, with no surrounding white space.
proof fn lemma_kind_is_normal(k: Seq<char>)
    requires
        is_template_kind(k),
    ensures
        trim_seq(k) == k,
        is_ascii_seq(k),
        ascii_lower(k) == k,
{
    reveal_strlit("generic");
    reveal_strlit("sales_call");
    reveal_strlit("one_on_one");
    reveal_strlit("standup");
    reveal_strlit("interview");
    reveal_strlit("client_review");
    let i = choose|i: int| 0 <= i < template_table().len() && #[trigger] template_table()[i].0 == k;
    assert(k.len() > 0 && !is_ws(k[0]) && !is_ws(k.last()));
    assert(trim_start_seq(k) == k);
    assert(trim_end_seq(k) == k);
    assert(ascii_lower(k) =~= k);
}

/// Normalizes a requested template kind. A known kind comes back as it is,
/// so normalizing a normalized kind changes nothing.
pub fn normalize_template_kind(value: Option<&str>) -> (r: String)
    ensures
        r@ == spec_normalize_template_kind(match value { Some(v) => Some(v@), None => None }),
        is_template_kind(r@),
        value matches Some(v) ==> (is_template_kind(v@) ==> r@ == v@),
{
    proof {
        if let Some(v) = value {
            if is_template_kind(v@) {
                lemma_kind_is_normal(v@);
            }
        }
    }
    let raw: &str = match value {
        Some(v) => v,
        None => "generic",
    };
    let t = trim(raw);
    let candidate = to_lowercase(t.as_str());
    let opts = template_options();
    let mut i: usize = 0;
    while i < opts.len()
        invariant
            opts@.len() == template_table().len(),
            forall|j: int|
                0 <= j < opts@.len() ==> (#[trigger] opts@[j]).kind@ == template_table()[j].0,
            i <= opts@.len(),
            candidate@ == unicode_lowercase(trim_seq(match value { Some(v) => v@, None => "generic"@ })),
            value matches Some(v) ==> (is_template_kind(v@) ==> candidate@ == v@),
            forall|j: int| 0 <= j < i ==> template_table()[j].0 != candidate@,
        decreases opts@.len() - i,
    {
        if str_eq(opts[i].kind.as_str(), candidate.as_str()) {
            assert(template_table()[i as int].0 == candidate@);
            assert(is_template_kind(candidate@));
            return candidate;
        }
        i += 1;
    }
    proof {
        reveal_strlit("generic");
        assert(template_table()[0].0 == "generic"@);
    }
    String::from_str("generic")
}

/// The template notes are generated with: the requested one, else the
/// meeting's own, normalized. It is what the meeting's template becomes.
pub fn generation_template(requested: Option<&str>, meeting_template: &str) -> (r: String)
    ensures
        r@ == spec_normalize_template_kind(Some(match requested { Some(v) => v@, None => meeting_template@ })),
        is_template_kind(r@),
        requested matches Some(v) ==> (is_template_kind(v@) ==> r@ == v@),
        requested is None ==> (is_template_kind(meeting_template@) ==> r@ == meeting_template@),
{
    let chosen: &str = match requested {
        Some(v) => v,
        None => meeting_template,
    };
    normalize_template_kind(Some(chosen))
}

/// Heading of a section kind in rendered notes.
pub open spec fn spec_section_label(kind: Seq<char>) -> Seq<char> {
    if kind == "key_decisions"@ {
        "Key decisions"@
    } else if kind == "action_items"@ {
        "Action items"@
    } else if kind == "open_questions"@ {
        "Open questions"@
    } else if kind == "risks_blockers"@ {
        "Risks / blockers"@
    } else if kind == "quotes_highlights"@ {
        "Quotes / highlights"@
    } else {
        "Notes"@
    }
}

pub fn section_label(kind: &str) -> (r: &'static str)
    ensures
        r@ == spec_section_label(kind@),
{
    if str_eq(kind, "key_decisions") {
        "Key decisions"
    } else if str_eq(kind, "action_items") {
        "Action items"
    } else if str_eq(kind, "open_questions") {
        "Open questions"
    } else if str_eq(kind, "risks_blockers") {
        "Risks / blockers"
    } else if str_eq(kind, "quotes_highlights") {
        "Quotes / highlights"
    } else {
        "Notes"
    }
}

/// Most AI items per section: five quotes, four of anything else.
pub fn max_items_for_section(section_kind: &str) -> (n: usize)
    ensures
        n == if section_kind@ == "quotes_highlights"@ { 5usize } else { 4usize },
{
    if str_eq(section_kind, "quotes_highlights") { 5 } else { 4 }
}

/// Lead word of the transcript part of a summary, per template.
pub open spec fn spec_summary_lead(template_kind: Seq<char>) -> Seq<char> {
    if template_kind == "sales_call"@ {
        "Commercial"@
    } else if template_kind == "one_on_one"@ {
        "Manager / teammate"@
    } else if template_kind == "standup"@ {
        "Delivery"@
    } else if template_kind == "interview"@ {
        "Candidate"@
    } else if template_kind == "client_review"@ {
        "Client"@
    } else {
        "Meeting"@
    }
}

pub fn template_summary_lead(template_kind: &str) -> (r: &'static str)
    ensures
        r@ == spec_summary_lead(template_kind@),
{
    if str_eq(template_kind, "sales_call") {
        "Commercial"
    } else if str_eq(template_kind, "one_on_one") {
        "Manager / teammate"
    } else if str_eq(template_kind, "standup") {
        "Delivery"
    } else if str_eq(template_kind, "interview") {
        "Candidate"
    } else if str_eq(template_kind, "client_review") {
        "Client"
    } else {
        "Meeting"
    }
}

/// Search query used to find transcript evidence for a section, per
/// template; templates without their own rules use the generic ones.
pub open spec fn spec_template_query(t: Seq<char>, s: Seq<char>) -> Seq<char> {
    if t == "sales_call"@ && s == "key_decisions"@ { "decision OR approved OR budget OR pilot OR pricing"@ }
    else if t == "sales_call"@ && s == "action_items"@ { "follow up OR send OR next step OR proposal OR demo"@ }
    else if t == "sales_call"@ && s == "open_questions"@ { "question OR concern OR security OR timeline"@ }
    else if t == "sales_call"@ && s == "risks_blockers"@ { "risk OR blocker OR objection OR legal OR delay"@ }
    else if t == "sales_call"@ && s == "quotes_highlights"@ { "pain OR goal OR outcome OR urgent"@ }
    else if t == "one_on_one"@ && s == "key_decisions"@ { "decision OR agreed OR support OR priority"@ }
    else if t == "one_on_one"@ && s == "action_items"@ { "follow up OR next step OR owner OR action"@ }
    else if t == "one_on_one"@ && s == "open_questions"@ { "question OR unclear OR need"@ }
    else if t == "one_on_one"@ && s == "risks_blockers"@ { "blocker OR concern OR risk OR overloaded"@ }
    else if t == "one_on_one"@ && s == "quotes_highlights"@ { "highlight OR feedback OR proud"@ }
    else if t == "standup"@ && s == "key_decisions"@ { "decision OR ship OR release OR priority"@ }
    else if t == "standup"@ && s == "action_items"@ { "today OR next OR action OR owner"@ }
    else if t == "standup"@ && s == "open_questions"@ { "question OR waiting OR unclear"@ }
    else if t == "standup"@ && s == "risks_blockers"@ { "blocker OR blocked OR dependency OR risk"@ }
    else if t == "standup"@ && s == "quotes_highlights"@ { "done OR shipped OR completed"@ }
    else if t == "interview"@ && s == "key_decisions"@ { "decision OR recommend OR pass OR hire"@ }
    else if t == "interview"@ && s == "action_items"@ { "follow up OR next step OR debrief OR schedule"@ }
    else if t == "interview"@ && s == "open_questions"@ { "question OR unclear OR probe OR explore"@ }
    else if t == "interview"@ && s == "risks_blockers"@ { "risk OR concern OR gap OR weak"@ }
    else if t == "interview"@ && s == "quotes_highlights"@ { "example OR said OR quote OR impact"@ }
    else if t == "client_review"@ && s == "key_decisions"@ { "decision OR approve OR roadmap OR priority"@ }
    else if t == "client_review"@ && s == "action_items"@ { "follow up OR send OR deliver OR owner"@ }
    else if t == "client_review"@ && s == "open_questions"@ { "question OR clarify OR unknown"@ }
    else if t == "client_review"@ && s == "risks_blockers"@ { "risk OR blocker OR issue OR delayed"@ }
    else if t == "client_review"@ && s == "quotes_highlights"@ { "highlight OR outcome OR request"@ }
    else if s == "key_decisions"@ { "decision OR decided OR agreed OR approved OR priority"@ }
    else if s == "action_items"@ { "action OR next OR follow up OR owner OR send"@ }
    else if s == "open_questions"@ { "question OR unclear OR unknown OR pending"@ }
    else if s == "risks_blockers"@ { "risk OR blocker OR issue OR concern OR delay"@ }
    else if s == "quotes_highlights"@ { "important OR highlight OR notable OR quote"@ }
    else { "important"@ }
}

pub fn template_query(template_kind: &str, section_kind: &str) -> (q: &'static str)
    ensures
        q@ == spec_template_query(template_kind@, section_kind@),
{
    let sales = str_eq(template_kind, "sales_call");
    let one = str_eq(template_kind, "one_on_one");
    let stand = str_eq(template_kind, "standup");
    let inter = str_eq(template_kind, "interview");
    let client = str_eq(template_kind, "client_review");
    let kd = str_eq(section_kind, "key_decisions");
    let ai = str_eq(section_kind, "action_items");
    let oq = str_eq(section_kind, "open_questions");
    let rb = str_eq(section_kind, "risks_blockers");
    let qh = str_eq(section_kind, "quotes_highlights");
    if sales && kd { "decision OR approved OR budget OR pilot OR pricing" }
    else if sales && ai { "follow up OR send OR next step OR proposal OR demo" }
    else if sales && oq { "question OR concern OR security OR timeline" }
    else if sales && rb { "risk OR blocker OR objection OR legal OR delay" }
    else if sales && qh { "pain OR goal OR outcome OR urgent" }
    else if one && kd { "decision OR agreed OR support OR priority" }
    else if one && ai { "follow up OR next step OR owner OR action" }
    else if one && oq { "question OR unclear OR need" }
    else if one && rb { "blocker OR concern OR risk OR overloaded" }
    else if one && qh { "highlight OR feedback OR proud" }
    else if stand && kd { "decision OR ship OR release OR priority" }
    else if stand && ai { "today OR next OR action OR owner" }
    else if stand && oq { "question OR waiting OR unclear" }
    else if stand && rb { "blocker OR blocked OR dependency OR risk" }
    else if stand && qh { "done OR shipped OR completed" }
    else if inter && kd { "decision OR recommend OR pass OR hire" }
    else if inter && ai { "follow up OR next step OR debrief OR schedule" }
    else if inter && oq { "question OR unclear OR probe OR explore" }
    else if inter && rb { "risk OR concern OR gap OR weak" }
    else if inter && qh { "example OR said OR quote OR impact" }
    else if client && kd { "decision OR approve OR roadmap OR priority" }
    else if client && ai { "follow up OR send OR deliver OR owner" }
    else if client && oq { "question OR clarify OR unknown" }
    else if client && rb { "risk OR blocker OR issue OR delayed" }
    else if client && qh { "highlight OR outcome OR request" }
    else if kd { "decision OR decided OR agreed OR approved OR priority" }
    else if ai { "action OR next OR follow up OR owner OR send" }
    else if oq { "question OR unclear OR unknown OR pending" }
    else if rb { "risk OR blocker OR issue OR concern OR delay" }
    else if qh { "important OR highlight OR notable OR quote" }
    else { "important" }
}

/// Rust's `%` on integers: the remainder takes the sign of the dividend.
pub open spec fn rem_trunc(a: int, b: int) -> int {
    a - b * crate::ops::div_trunc(a, b)
}

/// `mm:ss` of a millisecond timestamp, minutes modulo an hour, each part
/// printed with `{:02}`.
pub open spec fn spec_format_timestamp(ts_ms: i64) -> Seq<char> {
    let s = crate::ops::div_trunc(ts_ms as int, 1000);
    pad2(rem_trunc(crate::ops::div_trunc(s, 60), 60)) + ":"@ + pad2(rem_trunc(s, 60))
}

fn div_t(a: i64, b: i64) -> (q: i64)
    requires
        b >= 2,
    ensures
        q == crate::ops::div_trunc(a as int, b as int),
{
    let wa: i128 = a as i128;
    let wb: i128 = b as i128;
    if wa >= 0 {
        let q: i128 = wa / wb;
        assert(0 <= q <= wa) by (nonlinear_arith) requires wa >= 0, wb >= 2, q == wa / wb;
        q as i64
    } else {
        let na: i128 = -wa;
        let q: i128 = na / wb;
        assert(0 <= q <= na / 2) by (nonlinear_arith) requires na >= 0, wb >= 2, q == na / wb;
        (-q) as i64
    }
}

fn rem_t(a: i64, b: i64) -> (r: i64)
    requires
        2 <= b <= 1000,
    ensures
        r == rem_trunc(a as int, b as int),
        -(b as int) < r < b,
{
    let q = div_t(a, b);
    assert(-1000 * 9223372036854775808 <= (b as int) * (q as int) <= 1000 * 9223372036854775808) by (nonlinear_arith)
        requires
            2 <= b <= 1000,
            -9223372036854775808 <= q <= 9223372036854775807,
    ;
    let r: i128 = (a as i128) - (b as i128) * (q as i128);
    assert(-(b as int) < r < b) by (nonlinear_arith)
        requires
            b >= 2,
            q == crate::ops::div_trunc(a as int, b as int),
            r == a - b * q,
    ;
    r as i64
}

/// `format!("{:02}:{:02}", (s / 60) % 60, s % 60)` with `s = ts_ms / 1000`.
pub fn format_timestamp(ts_ms: i64) -> (r: String)
    ensures
        r@ == spec_format_timestamp(ts_ms),
{
    let s = div_t(ts_ms, 1000);
    let m = rem_t(div_t(s, 60), 60);
    let sec = rem_t(s, 60);
    let mut out = i64_pad2(m);
    out.append(":");
    let b = i64_pad2(sec);
    out.append(b.as_str());
    out
}

pub open spec fn decision_words() -> Seq<Seq<char>> {
    seq!["decision"@, "decided"@, "agreed"@, "approve"@, "approved"@]
}

pub open spec fn action_words() -> Seq<Seq<char>> {
    seq!["action"@, "todo"@, "follow up"@, "next step"@, "owner"@, "send"@, "share"@, "deliver"@]
}

pub open spec fn question_words() -> Seq<Seq<char>> {
    seq!["question"@, "unclear"@, "need to ask"@, "unknown"@, "?"@]
}

pub open spec fn risk_words() -> Seq<Seq<char>> {
    seq!["risk"@, "blocker"@, "blocked"@, "issue"@, "concern"@, "delay"@]
}

/// Section of a note line, by keywords of its lower-cased text checked
/// in order: decisions, actions, questions, risks; otherwise a quote.
pub open spec fn spec_classify_user_line(line: Seq<char>) -> Seq<char> {
    let lower = unicode_lowercase(line);
    if any_in(lower, decision_words()) {
        "key_decisions"@
    } else if any_in(lower, action_words()) {
        "action_items"@
    } else if any_in(lower, question_words()) {
        "open_questions"@
    } else if any_in(lower, risk_words()) {
        "risks_blockers"@
    } else {
        "quotes_highlights"@
    }
}

pub fn classify_user_line(line: &str) -> (r: &'static str)
    ensures
        r@ == spec_classify_user_line(line@),
{
    let lower = to_lowercase(line);
    let l = lower.as_str();
    let d: [&str; 5] = ["decision", "decided", "agreed", "approve", "approved"];
    let a: [&str; 8] = ["action", "todo", "follow up", "next step", "owner", "send", "share", "deliver"];
    let q: [&str; 5] = ["question", "unclear", "need to ask", "unknown", "?"];
    let k: [&str; 6] = ["risk", "blocker", "blocked", "issue", "concern", "delay"];
    assert(str_views(d@) =~= decision_words());
    assert(str_views(a@) =~= action_words());
    assert(str_views(q@) =~= question_words());
    assert(str_views(k@) =~= risk_words());
    if contains_any(l, d.as_slice()) {
        "key_decisions"
    } else if contains_any(l, a.as_slice()) {
        "action_items"
    } else if contains_any(l, q.as_slice()) {
        "open_questions"
    } else if contains_any(l, k.as_slice()) {
        "risks_blockers"
    } else {
        "quotes_highlights"
    }
}

/// Text collapsed to single spaces and cut to `max_len` characters; a
/// cut text loses trailing white space and gets `...`.
pub open spec fn spec_excerpt(text: Seq<char>, max_len: int) -> Seq<char> {
    let clean = seq_join(words(text), " "@);
    if clean.len() <= max_len {
        clean
    } else {
        trim_end_seq(clean.subrange(0, max_len)) + "..."@
    }
}

pub fn excerpt(text: &str, max_len: usize) -> (r: String)
    ensures
        r@ == spec_excerpt(text@, max_len as int),
{
    let ws = split_whitespace(text);
    let clean = join_strings(ws.as_slice(), " ");
    let cv = chars_vec(clean.as_str());
    if cv.len() <= max_len {
        clean
    } else {
        let shortened = take_chars(clean.as_str(), max_len);
        let mut out = trim_end(shortened.as_str());
        out.append("...");
        out
    }
}

/// A piece of text as a search keyword: trimmed and lower-cased.
pub open spec fn norm_piece(w: Seq<char>) -> Seq<char> {
    unicode_lowercase(trim_seq(w))
}

/// A keyword is longer than `min_bytes` bytes (UTF-8) and not a stop word.
pub open spec fn keyword_ok(w: Seq<char>, min_bytes: nat, stop: Seq<Seq<char>>) -> bool {
    encode_utf8(w).len() > min_bytes && !stop.contains(w)
}

/// The first `limit` keywords among the pieces, in order.
pub open spec fn select_keywords(pieces: Seq<Seq<char>>, min_bytes: nat, stop: Seq<Seq<char>>, limit: nat) -> Seq<Seq<char>>
    decreases pieces.len(),
{
    if pieces.len() == 0 || limit == 0 {
        Seq::empty()
    } else if keyword_ok(norm_piece(pieces[0]), min_bytes, stop) {
        seq![norm_piece(pieces[0])] + select_keywords(pieces.drop_first(), min_bytes, stop, (limit - 1) as nat)
    } else {
        select_keywords(pieces.drop_first(), min_bytes, stop, limit)
    }
}

/// A full-text query from the first five keywords of a text (split at
/// every non-alphanumeric character), joined with ` OR `.
pub open spec fn spec_keyword_query_with(text: Seq<char>, min_bytes: nat, stop: Seq<Seq<char>>) -> Seq<char> {
    seq_join(select_keywords(alnum_pieces(text), min_bytes, stop, 5), " OR "@)
}

pub fn keyword_query_with(text: &str, min_bytes: usize, stop: &[&str]) -> (q: String)
    ensures
        q@ == spec_keyword_query_with(text@, min_bytes as nat, str_views(stop@)),
{
    let pieces = split_non_alphanumeric(text);
    let ghost all = views(pieces@);
    let mut picked: Vec<String> = Vec::new();
    let mut i: usize = 0;
    assert(all.subrange(0, all.len() as int) =~= all);
    assert(views(picked@) + select_keywords(all, min_bytes as nat, str_views(stop@), 5) =~= select_keywords(all, min_bytes as nat, str_views(stop@), 5));
    while i < pieces.len() && picked.len() < 5
        invariant
            all == views(pieces@),
            i <= pieces@.len(),
            picked@.len() <= 5,
            views(picked@) + select_keywords(all.subrange(i as int, all.len() as int), min_bytes as nat, str_views(stop@), (5 - picked@.len()) as nat)
                == select_keywords(all, min_bytes as nat, str_views(stop@), 5),
        decreases pieces@.len() - i,
    {
        let ghost rest = all.subrange(i as int, all.len() as int);
        assert(rest.drop_first() =~= all.subrange(i + 1, all.len() as int));
        assert(rest[0] == pieces@[i as int]@);
        let t = trim(pieces[i].as_str());
        let w = to_lowercase(t.as_str());
        let long_enough = w.as_str().as_bytes().len() > min_bytes;
        if long_enough && !str_in_list(w.as_str(), stop) {
            let ghost before = views(picked@);
            picked.push(w);
            assert(views(picked@) =~= before.push(w@));
            assert(views(picked@) + select_keywords(rest.drop_first(), min_bytes as nat, str_views(stop@), (5 - picked@.len()) as nat)
                =~= before + (seq![w@] + select_keywords(rest.drop_first(), min_bytes as nat, str_views(stop@), (5 - picked@.len()) as nat)));
        } else {
            assert(!keyword_ok(norm_piece(rest[0]), min_bytes as nat, str_views(stop@)));
        }
        i += 1;
    }
    proof {
        let rest = all.subrange(i as int, all.len() as int);
        if picked@.len() == 5 {
            assert(select_keywords(rest, min_bytes as nat, str_views(stop@), 0) =~= Seq::<Seq<char>>::empty());
        } else {
            assert(rest.len() == 0);
        }
        assert(views(picked@) =~= select_keywords(all, min_bytes as nat, str_views(stop@), 5));
    }
    join_strings(picked.as_slice(), " OR ")
}

/// Words too common to search for.
pub open spec fn stop_words() -> Seq<Seq<char>> {
    seq![
        "the"@, "and"@, "for"@, "with"@, "from"@, "that"@, "this"@, "have"@, "will"@, "into"@,
        "about"@, "your"@, "they"@, "them"@, "then"@, "were"@, "what"@, "when"@, "where"@,
        "which"@, "should"@,
    ]
}

/// Search query for evidence of a note line: keywords of more than three
/// bytes that are not stop words.
pub fn keyword_query(text: &str) -> (q: String)
    ensures
        q@ == spec_keyword_query_with(text@, 3, stop_words()),
{
    let stop: [&str; 21] = [
        "the", "and", "for", "with", "from", "that", "this", "have", "will", "into", "about",
        "your", "they", "them", "then", "were", "what", "when", "where", "which", "should",
    ];
    assert(str_views(stop@) =~= stop_words());
    keyword_query_with(text, 3, stop.as_slice())
}

/// The query a note line is searched with, or `None` when it has no
/// keywords and is not searched at all.
pub fn citation_query(line: &str) -> (q: Option<String>)
    ensures
        match q {
            Some(s) => s@ == spec_keyword_query_with(line@, 3, stop_words()) && s@.len() > 0,
            None => spec_keyword_query_with(line@, 3, stop_words()).len() == 0,
        },
{
    let q = keyword_query(line);
    if q.as_str().is_empty() {
        None
    } else {
        Some(q)
    }
}

/// A stored note as the user wrote it.
pub struct NoteRow {
    pub id: i64,
    pub meeting_id: String,
    pub ts_ms: i64,
    pub text: String,
}

/// A note line kept as an outline entry: not blank and not a heading of
/// generated notes.
pub open spec fn keep_note_line(line: Seq<char>) -> bool {
    line.len() > 0 && !starts_with_seq(line, "# Meeting Notes"@) && !starts_with_seq(line, "# Summary"@)
}

/// A kept line without its leading `- ` bullets, trimmed.
pub open spec fn clean_note_line(line: Seq<char>) -> Seq<char> {
    trim_seq(strip_prefixes(line, "- "@))
}

/// The outline entries of one note's lines (after `prev`).
pub open spec fn lines_of(lines: Seq<Seq<char>>) -> Seq<Seq<char>>
    decreases lines.len(),
{
    if lines.len() == 0 {
        Seq::empty()
    } else {
        let prev = lines_of(lines.drop_last());
        let t = trim_seq(lines.last());
        if keep_note_line(t) {
            prev.push(clean_note_line(t))
        } else {
            prev
        }
    }
}

/// The outline entries of all notes, in order. Lines are split at `\n`;
/// a `\r` before it is white space and goes with the trimming.
pub open spec fn spec_user_note_lines(texts: Seq<Seq<char>>) -> Seq<Seq<char>>
    decreases texts.len(),
{
    if texts.len() == 0 {
        Seq::empty()
    } else {
        spec_user_note_lines(texts.drop_last()) + lines_of(char_pieces(texts.last(), '\n'))
    }
}

pub open spec fn note_texts(rows: Seq<NoteRow>) -> Seq<Seq<char>> {
    Seq::new(rows.len(), |i: int| rows[i].text@)
}

fn append_lines_of(out: &mut Vec<String>, text: &str)
    ensures
        views(final(out)@) == views(old(out)@) + lines_of(char_pieces(text@, '\n')),
{
    let lines = split_on_char(text, '\n');
    let ghost all = views(lines@);
    let ghost start = views(out@);
    let mut i: usize = 0;
    while i < lines.len()
        invariant
            all == views(lines@),
            i <= lines@.len(),
            views(out@) == start + lines_of(all.subrange(0, i as int)),
        decreases lines@.len() - i,
    {
        let ghost before = views(out@);
        let t = trim(lines[i].as_str());
        let keep = !t.as_str().is_empty() && !str_starts_with(t.as_str(), "# Meeting Notes") && !str_starts_with(
            t.as_str(),
            "# Summary",
        );
        proof {
            let next = all.subrange(0, i + 1);
            assert(next.drop_last() =~= all.subrange(0, i as int));
            assert(next.last() == lines@[i as int]@);
        }
        if keep {
            let stripped = trim_start_matches(t.as_str(), "- ");
            let cleaned = trim(stripped.as_str());
            out.push(cleaned);
            assert(views(out@) =~= before.push(cleaned@));
        }
        i += 1;
    }
    assert(all.subrange(0, all.len() as int) =~= all);
}

/// The outline entries of a meeting's notes: every non-blank line, trimmed,
/// except headings of generated notes, without leading `- ` bullets.
pub fn extract_user_note_lines(note_rows: &[NoteRow]) -> (lines: Vec<String>)
    ensures
        views(lines@) == spec_user_note_lines(note_texts(note_rows@)),
{
    let mut out: Vec<String> = Vec::new();
    let mut i: usize = 0;
    while i < note_rows.len()
        invariant
            i <= note_rows@.len(),
            views(out@) == spec_user_note_lines(note_texts(note_rows@.subrange(0, i as int))),
        decreases note_rows@.len() - i,
    {
        append_lines_of(&mut out, note_rows[i].text.as_str());
        proof {
            let next = note_texts(note_rows@.subrange(0, i + 1));
            assert(next.drop_last() =~= note_texts(note_rows@.subrange(0, i as int)));
            assert(next.last() == note_rows@[i as int].text@);
        }
        i += 1;
    }
    assert(note_rows@.subrange(0, note_rows@.len() as int) =~= note_rows@);
    out
}

/// Bullet text of a transcript segment in a section: its excerpt, quoted
/// in the quotes section.
pub open spec fn spec_ai_text(section_kind: Seq<char>, text: Seq<char>) -> Seq<char> {
    if section_kind == "quotes_highlights"@ {
        "\""@ + spec_excerpt(text, 180) + "\""@
    } else {
        spec_excerpt(text, 180)
    }
}

pub fn ai_text_for_segment(section_kind: &str, segment: &SegmentRow) -> (r: String)
    ensures
        r@ == spec_ai_text(section_kind@, segment.text@),
{
    let text = excerpt(segment.text.as_str(), 180);
    if str_eq(section_kind, "quotes_highlights") {
        let mut q = String::from_str("\"");
        q.append(text.as_str());
        q.append("\"");
        q
    } else {
        text
    }
}

/// The first `n` elements (all when there are fewer).
pub open spec fn first_n<A>(s: Seq<A>, n: int) -> Seq<A> {
    if s.len() <= n { s } else { s.subrange(0, n) }
}

pub open spec fn segment_excerpts(segs: Seq<SegmentRow>, max_len: int) -> Seq<Seq<char>> {
    Seq::new(segs.len(), |i: int| spec_excerpt(segs[i].text@, max_len))
}

/// The summary of a generated note: what the user's first three lines
/// say, then the template's lead over excerpts of the first two
/// segments.
pub open spec fn spec_build_summary(template_kind: Seq<char>, user_lines: Seq<Seq<char>>, segs: Seq<SegmentRow>) -> Seq<char> {
    let human = "Human notes led the outline: "@ + seq_join(first_n(user_lines, 3), " "@);
    let transcript = spec_summary_lead(template_kind) + " focus from the transcript: "@ + seq_join(
        segment_excerpts(first_n(segs, 2), 120),
        " "@,
    );
    if user_lines.len() == 0 && segs.len() == 0 {
        "No transcript or notes were available to generate a structured summary."@
    } else if segs.len() == 0 {
        human
    } else if user_lines.len() == 0 {
        transcript
    } else {
        human + " "@ + transcript
    }
}

/// With both notes and transcript, the summary keeps both parts: it opens
/// with the human part, led by the user's first line, and it then names
/// the transcript focus with the excerpt of the first segment; the second
/// segment's excerpt occurs in it too when there is one.
pub proof fn law_summary_keeps_notes_and_transcript(t: Seq<char>, u: Seq<Seq<char>>, s: Seq<SegmentRow>)
    requires
        u.len() > 0,
        s.len() > 0,
    ensures
        starts_with_seq(spec_build_summary(t, u, s), "Human notes led the outline: "@ + u[0]),
        contains_seq(
            spec_build_summary(t, u, s),
            spec_summary_lead(t) + " focus from the transcript: "@ + spec_excerpt(s[0].text@, 120),
        ),
        s.len() > 1 ==> contains_seq(spec_build_summary(t, u, s), spec_excerpt(s[1].text@, 120)),
{
    reveal_strlit(" ");
    let lines = first_n(u, 3);
    let ex = segment_excerpts(first_n(s, 2), 120);
    let p = "Human notes led the outline: "@;
    let h = p + seq_join(lines, " "@);
    let lead = spec_summary_lead(t) + " focus from the transcript: "@;
    let tr = lead + seq_join(ex, " "@);
    let r = spec_build_summary(t, u, s);
    assert(r =~= h + " "@ + tr);
    assert(lines[0] == u[0]);
    assert(ex[0] == spec_excerpt(s[0].text@, 120));
    lemma_join_first(lines, " "@);
    assert(r.subrange(0, (p.len() + u[0].len()) as int) =~= p + seq_join(lines, " "@).subrange(0, u[0].len() as int));
    lemma_join_first(ex, " "@);
    let needle = lead + ex[0];
    let at = h.len() + 1;
    assert(r.subrange(at as int, (at + needle.len()) as int) =~= lead + seq_join(ex, " "@).subrange(0, ex[0].len() as int));
    assert(crate::text::occurs_at(r, needle, at as int));
    if s.len() > 1 {
        assert(ex[1] == spec_excerpt(s[1].text@, 120));
        lemma_join_contains(ex, " "@, 1);
        lemma_contains_concat(h + " "@ + lead, seq_join(ex, " "@), ex[1]);
        assert(h + " "@ + lead + seq_join(ex, " "@) =~= r);
    }
}

/// With only one source the summary is built from it alone: notes alone
/// give the human part, led by the first line and quoting each of the first
/// three lines; a transcript alone gives the template's focus line, led by
/// the first segment's excerpt; with neither, the summary says so.
pub proof fn law_summary_single_source(t: Seq<char>, u: Seq<Seq<char>>, s: Seq<SegmentRow>, k: int)
    ensures
        u.len() == 0 && s.len() == 0 ==> spec_build_summary(t, u, s)
            == "No transcript or notes were available to generate a structured summary."@,
        u.len() > 0 && s.len() == 0 ==> starts_with_seq(spec_build_summary(t, u, s), "Human notes led the outline: "@ + u[0]),
        u.len() > 0 && s.len() == 0 && 0 <= k < u.len() && k < 3 ==> contains_seq(spec_build_summary(t, u, s), u[k]),
        u.len() == 0 && s.len() > 0 ==> starts_with_seq(
            spec_build_summary(t, u, s),
            spec_summary_lead(t) + " focus from the transcript: "@ + spec_excerpt(s[0].text@, 120),
        ),
{
    let lines = first_n(u, 3);
    let p = "Human notes led the outline: "@;
    if u.len() > 0 && s.len() == 0 {
        let r = spec_build_summary(t, u, s);
        assert(r == p + seq_join(lines, " "@));
        assert(lines[0] == u[0]);
        lemma_join_first(lines, " "@);
        assert(r.subrange(0, (p.len() + u[0].len()) as int) =~= p + seq_join(lines, " "@).subrange(0, u[0].len() as int));
        if 0 <= k < u.len() && k < 3 {
            assert(lines[k] == u[k]);
            lemma_join_contains(lines, " "@, k);
            lemma_contains_concat(p, seq_join(lines, " "@), u[k]);
        }
    }
    if u.len() == 0 && s.len() > 0 {
        let ex = segment_excerpts(first_n(s, 2), 120);
        let lead = spec_summary_lead(t) + " focus from the transcript: "@;
        let r = spec_build_summary(t, u, s);
        assert(r == lead + seq_join(ex, " "@));
        assert(ex[0] == spec_excerpt(s[0].text@, 120));
        lemma_join_first(ex, " "@);
        assert(r.subrange(0, (lead.len() + ex[0].len()) as int) =~= lead + seq_join(ex, " "@).subrange(0, ex[0].len() as int));
    }
}

pub fn build_summary(template_kind: &str, user_lines: &[String], segments: &[SegmentRow]) -> (r: String)
    ensures
        r@ == spec_build_summary(template_kind@, views(user_lines@), segments@),
{
    let mut human = String::from_str("Human notes led the outline: ");
    let mut first: Vec<String> = Vec::new();
    let mut i: usize = 0;
    while i < user_lines.len() && i < 3
        invariant
            i <= user_lines@.len(),
            i <= 3,
            views(first@) =~= views(user_lines@).subrange(0, i as int),
        decreases user_lines@.len() - i,
    {
        let ghost before = first@;
        let x = to_owned_string(user_lines[i].as_str());
        first.push(x);
        assert(views(first@) =~= views(before).push(x@));
        i += 1;
    }
    assert(views(first@) =~= first_n(views(user_lines@), 3));
    let joined = join_strings(first.as_slice(), " ");
    human.append(joined.as_str());

    let mut transcript = String::from_str(template_summary_lead(template_kind));
    transcript.append(" focus from the transcript: ");
    let mut ex: Vec<String> = Vec::new();
    let mut j: usize = 0;
    while j < segments.len() && j < 2
        invariant
            j <= segments@.len(),
            j <= 2,
            views(ex@) =~= segment_excerpts(segments@.subrange(0, j as int), 120),
        decreases segments@.len() - j,
    {
        let ghost before = ex@;
        let x = excerpt(segments[j].text.as_str(), 120);
        ex.push(x);
        assert(views(ex@) =~= views(before).push(x@));
        assert(segments@.subrange(0, j + 1).drop_last() =~= segments@.subrange(0, j as int));
        j += 1;
    }
    assert(segments@.subrange(0, j as int) =~= first_n(segments@, 2));
    let tj = join_strings(ex.as_slice(), " ");
    transcript.append(tj.as_str());

    if user_lines.len() == 0 && segments.len() == 0 {
        String::from_str("No transcript or notes were available to generate a structured summary.")
    } else if segments.len() == 0 {
        human
    } else if user_lines.len() == 0 {
        transcript
    } else {
        human.append(" ");
        human.append(transcript.as_str());
        human
    }
}

} // verus!
