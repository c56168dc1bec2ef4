//! Asking questions of the local notes: which searches a question leads
//! to, how results become citations, and how the answer reads.

use vstd::prelude::*;
use crate::notes::{keyword_query_with, spec_keyword_query_with};
use crate::structured::SegmentRow;
use crate::text::{replace_all, replace_seq, trim, trim_seq, str_eq, to_owned_string, seq_join, views, join_strings, dec_digits, u64_to_decimal, contains_seq, starts_with_seq, lemma_contains_concat, lemma_join_contains, lemma_join_first};

verus! {

/// The text a substring search falls back to when the full-text query
/// cannot run: the query without its ` OR ` and ` AND ` operators (each
/// left as a space) and without double quotes, trimmed.
pub open spec fn spec_like_text(query: Seq<char>) -> Seq<char> {
    trim_seq(replace_seq(replace_seq(replace_seq(query, " OR "@, " "@), " AND "@, " "@), "\""@, ""@))
}

/// Text of the substring-search fallback for a full-text query.
pub fn like_text(query: &str) -> (r: String)
    ensures
        r@ == spec_like_text(query@),
{
    proof {
        reveal_strlit(" OR ");
        reveal_strlit(" AND ");
        reveal_strlit("\"");
    }
    let a = replace_all(query, " OR ", " ");
    let b = replace_all(a.as_str(), " AND ", " ");
    let c = replace_all(b.as_str(), "\"", "");
    trim(c.as_str())
}

/// A source backing an answer.
pub struct AskCitation {
    pub kind: String,
    pub meeting_id: Option<String>,
    pub note_id: Option<i64>,
    pub item_id: Option<i64>,
    pub segment_id: Option<i64>,
    pub title: String,
    pub excerpt: String,
    pub ts_ms: Option<i64>,
    pub folder_name: Option<String>,
}

/// An answer and its sources.
pub struct AskAudireResp {
    pub answer: String,
    pub citations: Vec<AskCitation>,
}

/// A transcript segment found across meetings.
pub struct SegmentSearchHit {
    pub meeting_id: String,
    pub meeting_title: Option<String>,
    pub folder_id: Option<i64>,
    pub folder_name: Option<String>,
    pub segment: SegmentRow,
}

/// A structured-note item found across meetings.
pub struct StructuredItemSearchHit {
    pub meeting_id: String,
    pub meeting_title: Option<String>,
    pub folder_id: Option<i64>,
    pub folder_name: Option<String>,
    pub item_id: i64,
    pub section_kind: String,
    pub text: String,
    pub evidence_count: i64,
}

/// A standalone note found by a search.
pub struct StandaloneNoteSearchHit {
    pub note_id: i64,
    pub title: String,
    pub text: String,
    pub folder_id: Option<i64>,
    pub folder_name: Option<String>,
}

/// Transcript search query of a question: its first five pieces longer
/// than two bytes, lower-cased, joined with ` OR `.
pub fn keyword_query(text: &str) -> (q: String)
    ensures
        q@ == spec_keyword_query_with(text@, 2, Seq::empty()),
{
    let stop: [&str; 0] = [];
    assert(crate::text::str_views(stop@) =~= Seq::<Seq<char>>::empty());
    keyword_query_with(text, 2, stop.as_slice())
}

/// The searches a question leads to.
pub enum AskPlan {
    /// The question is blank; nothing is searched.
    Blank,
    /// One meeting's transcript is searched (six results).
    Meeting { meeting_id: String, query: String },
    /// The meeting scope without a meeting: nothing is searched.
    Nothing,
    /// Transcripts (six results, by `segment_query`), note items (four) and
    /// standalone notes (three, both by `text_query`) across meetings, in
    /// one folder when one is given.
    Global { segment_query: String, text_query: String, folder_id: Option<i64> },
}

/// The searches for a question in a scope: `meeting` searches the given
/// meeting, `folder` the given folder, anything else everything.
pub fn plan_ask(query: &str, scope: &str, meeting_id: Option<&str>, folder_id: Option<i64>) -> (p: AskPlan)
    ensures
        trim_seq(query@).len() == 0 ==> p is Blank,
        trim_seq(query@).len() > 0 ==> match p {
            AskPlan::Meeting { meeting_id: m, query: q } => scope@ == "meeting"@ && meeting_id is Some
                && m@ == meeting_id->0@ && q@ == spec_keyword_query_with(trim_seq(query@), 2, Seq::empty()),
            AskPlan::Nothing => scope@ == "meeting"@ && meeting_id is None,
            AskPlan::Global { segment_query, text_query, folder_id: f } => scope@ != "meeting"@
                && segment_query@ == spec_keyword_query_with(trim_seq(query@), 2, Seq::empty())
                && text_query@ == trim_seq(query@) && f == (if scope@ == "folder"@ { folder_id } else { None }),
            AskPlan::Blank => false,
        },
{
    let trimmed = trim(query);
    if trimmed.as_str().is_empty() {
        return AskPlan::Blank;
    }
    if str_eq(scope, "meeting") {
        match meeting_id {
            Some(m) => AskPlan::Meeting {
                meeting_id: to_owned_string(m),
                query: keyword_query(trimmed.as_str()),
            },
            None => AskPlan::Nothing,
        }
    } else {
        let f = if str_eq(scope, "folder") { folder_id } else { None };
        AskPlan::Global { segment_query: keyword_query(trimmed.as_str()), text_query: trimmed, folder_id: f }
    }
}

/// A segment of the asked meeting as a citation.
pub fn meeting_segment_citation(meeting_id: &str, hit: SegmentRow) -> (c: AskCitation)
    ensures
        c.kind@ == "segment"@,
        c.meeting_id matches Some(m) && m@ == meeting_id@,
        c.note_id is None && c.item_id is None && c.folder_name is None,
        c.segment_id == Some(hit.id),
        c.title@ == "Transcript"@,
        c.excerpt == hit.text,
        c.ts_ms == Some(hit.ts_ms),
{
    AskCitation {
        kind: String::from_str("segment"),
        meeting_id: Some(to_owned_string(meeting_id)),
        note_id: None,
        item_id: None,
        segment_id: Some(hit.id),
        title: String::from_str("Transcript"),
        excerpt: hit.text,
        ts_ms: Some(hit.ts_ms),
        folder_name: None,
    }
}

fn title_or_meeting(t: Option<String>) -> (r: String)
    ensures
        r@ == match t { Some(s) => s@, None => "Meeting"@ },
{
    match t {
        Some(s) => s,
        None => String::from_str("Meeting"),
    }
}

/// A transcript hit from any meeting as a citation, titled after its
/// meeting (`Meeting` when untitled).
pub fn map_segment_hit(hit: SegmentSearchHit) -> (c: AskCitation)
    ensures
        c.kind@ == "segment"@,
        c.meeting_id == Some(hit.meeting_id),
        c.note_id is None && c.item_id is None,
        c.segment_id == Some(hit.segment.id),
        c.title@ == match hit.meeting_title { Some(s) => s@, None => "Meeting"@ },
        c.excerpt == hit.segment.text,
        c.ts_ms == Some(hit.segment.ts_ms),
        c.folder_name == hit.folder_name,
{
    AskCitation {
        kind: String::from_str("segment"),
        meeting_id: Some(hit.meeting_id),
        note_id: None,
        item_id: None,
        segment_id: Some(hit.segment.id),
        title: title_or_meeting(hit.meeting_title),
        excerpt: hit.segment.text,
        ts_ms: Some(hit.segment.ts_ms),
        folder_name: hit.folder_name,
    }
}

/// A note-item hit as a citation.
pub fn map_structured_hit(hit: StructuredItemSearchHit) -> (c: AskCitation)
    ensures
        c.kind@ == "structured_item"@,
        c.meeting_id == Some(hit.meeting_id),
        c.note_id is None && c.segment_id is None && c.ts_ms is None,
        c.item_id == Some(hit.item_id),
        c.title@ == match hit.meeting_title { Some(s) => s@, None => "Meeting"@ },
        c.excerpt == hit.text,
        c.folder_name == hit.folder_name,
{
    AskCitation {
        kind: String::from_str("structured_item"),
        meeting_id: Some(hit.meeting_id),
        note_id: None,
        item_id: Some(hit.item_id),
        segment_id: None,
        title: title_or_meeting(hit.meeting_title),
        excerpt: hit.text,
        ts_ms: None,
        folder_name: hit.folder_name,
    }
}

/// A standalone-note hit as a citation.
pub fn map_note_hit(hit: StandaloneNoteSearchHit) -> (c: AskCitation)
    ensures
        c.kind@ == "standalone_note"@,
        c.meeting_id is None && c.item_id is None && c.segment_id is None && c.ts_ms is None,
        c.note_id == Some(hit.note_id),
        c.title == hit.title,
        c.excerpt == hit.text,
        c.folder_name == hit.folder_name,
{
    AskCitation {
        kind: String::from_str("standalone_note"),
        meeting_id: None,
        note_id: Some(hit.note_id),
        item_id: None,
        segment_id: None,
        title: hit.title,
        excerpt: hit.text,
        ts_ms: None,
        folder_name: hit.folder_name,
    }
}

/// Bullets of the first four citations' excerpts.
pub open spec fn lead_lines(c: Seq<AskCitation>) -> Seq<Seq<char>> {
    let n = if c.len() < 4 { c.len() as int } else { 4 };
    Seq::new(n as nat, |i: int| "- "@ + c[i].excerpt@)
}

/// The answer text: the question, bullets of the first four sources and
/// how many sources were found, or a refusal when none were.
pub open spec fn spec_grounded_answer(question: Seq<char>, c: Seq<AskCitation>) -> Seq<char> {
    if c.len() == 0 {
        "No grounded answer found in local transcripts or notes for that question."@
    } else {
        "Grounded answer for \""@ + question + "\":\n\n"@ + seq_join(lead_lines(c), "\n"@) + "\n\nAudire found "@
            + dec_digits(c.len()) + " supporting source(s)."@
    }
}

/// The reply to a question: the blank-question notice, or the answer over
/// the citations found, in the order the searches gave them.
pub fn ask_answer(query: &str, citations: Vec<AskCitation>) -> (r: AskAudireResp)
    ensures
        trim_seq(query@).len() == 0 ==> r.answer@ == "Ask Audire needs a non-empty question."@ && r.citations@.len() == 0,
        trim_seq(query@).len() > 0 ==> r.answer@ == spec_grounded_answer(trim_seq(query@), citations@)
            && r.citations@ == citations@,
{
    let trimmed = trim(query);
    if trimmed.as_str().is_empty() {
        return AskAudireResp {
            answer: String::from_str("Ask Audire needs a non-empty question."),
            citations: Vec::new(),
        };
    }
    if citations.len() == 0 {
        return AskAudireResp {
            answer: String::from_str("No grounded answer found in local transcripts or notes for that question."),
            citations,
        };
    }
    let n = if citations.len() < 4 { citations.len() } else { 4 };
    let mut lines: Vec<String> = Vec::new();
    let mut i: usize = 0;
    while i < n
        invariant
            n <= citations@.len(),
            n == if citations@.len() < 4 { citations@.len() as int } else { 4 },
            i <= n,
            views(lines@) =~= lead_lines(citations@).subrange(0, i as int),
        decreases n - i,
    {
        let mut line = String::from_str("- ");
        line.append(citations[i].excerpt.as_str());
        let ghost before = lines@;
        lines.push(line);
        assert(views(lines@) =~= views(before).push(line@));
        i += 1;
    }
    assert(lead_lines(citations@).subrange(0, n as int) =~= lead_lines(citations@));
    let lead = join_strings(lines.as_slice(), "\n");
    let mut answer = String::from_str("Grounded answer for \"");
    answer.append(trimmed.as_str());
    answer.append("\":\n\n");
    answer.append(lead.as_str());
    answer.append("\n\nAudire found ");
    let count = u64_to_decimal(citations.len() as u64);
    answer.append(count.as_str());
    answer.append(" supporting source(s).");
    AskAudireResp { answer, citations }
}

/// An answer over sources opens with the question and then quotes the
/// first source's text as its first bullet, and it quotes the text of each
/// of the first four sources as a bullet (`- ` and the source's excerpt).
pub proof fn law_answer_quotes_sources(question: Seq<char>, c: Seq<AskCitation>, k: int)
    requires
        c.len() > 0,
        0 <= k < c.len(),
        k < 4,
    ensures
        contains_seq(spec_grounded_answer(question, c), "- "@ + c[k].excerpt@),
        starts_with_seq(
            spec_grounded_answer(question, c),
            "Grounded answer for \""@ + question + "\":\n\n"@ + ("- "@ + c[0].excerpt@),
        ),
        spec_grounded_answer(question, c).len() >= ("\n\nAudire found "@ + dec_digits(c.len()) + " supporting source(s)."@).len(),
        spec_grounded_answer(question, c).subrange(
            spec_grounded_answer(question, c).len() - ("\n\nAudire found "@ + dec_digits(c.len()) + " supporting source(s)."@).len(),
            spec_grounded_answer(question, c).len() as int,
        ) == "\n\nAudire found "@ + dec_digits(c.len()) + " supporting source(s)."@,
{
    let lines = lead_lines(c);
    let head = "Grounded answer for \""@ + question + "\":\n\n"@;
    let join = seq_join(lines, "\n"@);
    let tail = "\n\nAudire found "@ + dec_digits(c.len()) + " supporting source(s)."@;
    let answer = spec_grounded_answer(question, c);
    assert(answer =~= head + join + tail);
    assert(lines[k] == "- "@ + c[k].excerpt@);
    lemma_join_contains(lines, "\n"@, k);
    lemma_contains_concat(head, join, lines[k]);
    lemma_contains_concat(tail, head + join, lines[k]);
    lemma_join_first(lines, "\n"@);
    let first = lines[0];
    assert(answer.subrange(0, (head.len() + first.len()) as int) =~= head + join.subrange(0, first.len() as int));
    assert(answer.subrange(answer.len() - tail.len(), answer.len() as int) =~= tail);
}

} // verus!
