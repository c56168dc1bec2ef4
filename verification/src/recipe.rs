//! Recipes: transforms of a meeting (or of recent meetings) by a language
//! model. Which recipes exist, the prompts, the transcript excerpt a
//! prompt carries, and what a recipe gives when no model answers.

use vstd::prelude::*;
use crate::error::ParaError;
use crate::notes::{spec_format_timestamp, format_timestamp};
use crate::structured::SegmentRow;
use crate::text::{str_eq, str_in_list, str_views, seq_join, views, join_strings, to_owned_string};
use vstd::utf8::encode_utf8;

verus! {

/// The recipes.
pub open spec fn valid_recipes() -> Seq<Seq<char>> {
    seq!["summary"@, "action_items"@, "follow_up_email"@, "key_decisions"@, "recent_todos"@, "weekly_recap"@]
}

/// Recipes over recent meetings rather than one meeting.
pub open spec fn is_cross_meeting(recipe_id: Seq<char>) -> bool {
    recipe_id == "recent_todos"@ || recipe_id == "weekly_recap"@
}

/// Whether a recipe works on one meeting or on recent meetings.
pub enum RecipeScope {
    Meeting,
    RecentMeetings,
}

/// The scope of a known recipe; an unknown one is refused.
pub fn check_recipe(recipe_id: &str) -> (r: Result<RecipeScope, ParaError>)
    ensures
        valid_recipes().contains(recipe_id@) ==> match r {
            Ok(RecipeScope::RecentMeetings) => is_cross_meeting(recipe_id@),
            Ok(RecipeScope::Meeting) => !is_cross_meeting(recipe_id@),
            Err(_) => false,
        },
        !valid_recipes().contains(recipe_id@) ==> match r {
            Err(ParaError::InvalidState(m)) => m@ == "unknown recipe_id: "@ + recipe_id@,
            _ => false,
        },
{
    let valid: [&str; 6] = ["summary", "action_items", "follow_up_email", "key_decisions", "recent_todos", "weekly_recap"];
    assert(str_views(valid@) =~= valid_recipes());
    if !str_in_list(recipe_id, valid.as_slice()) {
        let mut m = String::from_str("unknown recipe_id: ");
        m.append(recipe_id);
        return Err(ParaError::InvalidState(m));
    }
    if str_eq(recipe_id, "recent_todos") || str_eq(recipe_id, "weekly_recap") {
        Ok(RecipeScope::RecentMeetings)
    } else {
        Ok(RecipeScope::Meeting)
    }
}

/// The system prompt of a recipe.
pub open spec fn spec_system_prompt(recipe_id: Seq<char>) -> Seq<char> {
    if recipe_id == "summary"@ {
        "You are a meeting notes assistant. Produce a clear, concise summary of the meeting. Include key topics discussed, decisions made, and action items. Use bullet points. Be factual and grounded in the provided transcript."@
    } else if recipe_id == "action_items"@ {
        "You are a meeting notes assistant. Extract all action items and next steps from the meeting. For each item, identify the owner if mentioned, the task, and any deadline. Format as a numbered list."@
    } else if recipe_id == "follow_up_email"@ {
        "You are a professional email writer. Draft a follow-up email based on the meeting content. The email should be concise, professional, and reference key decisions and next steps. Use a friendly but business-appropriate tone."@
    } else if recipe_id == "key_decisions"@ {
        "You are a meeting notes assistant. List all key decisions made during the meeting. For each decision, provide the decision itself and brief context. Format as a numbered list."@
    } else if recipe_id == "recent_todos"@ {
        "You are a productivity assistant. Review the recent meeting transcripts and extract all outstanding to-do items, action items, and commitments. Group by meeting. Highlight items that appear overdue or urgent."@
    } else if recipe_id == "weekly_recap"@ {
        "You are a productivity assistant. Generate a weekly status recap from the recent meeting transcripts. Summarize key themes, decisions, progress, and blockers across all meetings. Keep it concise and actionable."@
    } else {
        "You are a helpful assistant."@
    }
}

/// The user prompt: the context between a fixed opening and request.
pub open spec fn spec_user_prompt(context: Seq<char>) -> Seq<char> {
    "Here is the meeting context:\n\n"@ + context + "\n\nPlease generate the requested output."@
}

/// The system and user prompts of a recipe over a context.
pub fn prompt_for_recipe(recipe_id: &str, context: &str) -> (r: (String, String))
    ensures
        r.0@ == spec_system_prompt(recipe_id@),
        r.1@ == spec_user_prompt(context@),
{
    let system = if str_eq(recipe_id, "summary") {
        "You are a meeting notes assistant. Produce a clear, concise summary of the meeting. Include key topics discussed, decisions made, and action items. Use bullet points. Be factual and grounded in the provided transcript."
    } else if str_eq(recipe_id, "action_items") {
        "You are a meeting notes assistant. Extract all action items and next steps from the meeting. For each item, identify the owner if mentioned, the task, and any deadline. Format as a numbered list."
    } else if str_eq(recipe_id, "follow_up_email") {
        "You are a professional email writer. Draft a follow-up email based on the meeting content. The email should be concise, professional, and reference key decisions and next steps. Use a friendly but business-appropriate tone."
    } else if str_eq(recipe_id, "key_decisions") {
        "You are a meeting notes assistant. List all key decisions made during the meeting. For each decision, provide the decision itself and brief context. Format as a numbered list."
    } else if str_eq(recipe_id, "recent_todos") {
        "You are a productivity assistant. Review the recent meeting transcripts and extract all outstanding to-do items, action items, and commitments. Group by meeting. Highlight items that appear overdue or urgent."
    } else if str_eq(recipe_id, "weekly_recap") {
        "You are a productivity assistant. Generate a weekly status recap from the recent meeting transcripts. Summarize key themes, decisions, progress, and blockers across all meetings. Keep it concise and actionable."
    } else {
        "You are a helpful assistant."
    };
    let mut user = String::from_str("Here is the meeting context:\n\n");
    user.append(context);
    user.append("\n\nPlease generate the requested output.");
    (String::from_str(system), user)
}

/// How many segments are sampled from the start of a transcript of `n`.
pub open spec fn begin_count(n: int) -> int {
    let b = if n / 3 > 1 { n / 3 } else { 1 };
    if b < n { b } else { n }
}

/// Start and number of the segments sampled from the middle third.
pub open spec fn mid_sample(n: int) -> (int, int) {
    if n > 2 {
        let ms = n / 3;
        let me = if 2 * n / 3 < n { 2 * n / 3 } else { n };
        let half = (me - ms) / 2;
        let mc = if half > 1 { half } else { 1 };
        (ms, if mc < me - ms { mc } else { me - ms })
    } else {
        (0, 0)
    }
}

/// How many segments are sampled from the end, last first.
pub open spec fn end_count(n: int) -> int {
    if n > 1 {
        let e = if n / 3 > 1 { n / 3 } else { 1 };
        if e < n { e } else { n }
    } else {
        0
    }
}

/// Indices of the sampled segments: the start, the middle, then the end
/// backwards.
pub open spec fn sample_indices(n: int) -> Seq<int> {
    Seq::new(begin_count(n) as nat, |i: int| i) + Seq::new(mid_sample(n).1 as nat, |i: int| mid_sample(n).0 + i)
        + Seq::new(end_count(n) as nat, |i: int| n - 1 - i)
}

/// The rows, keeping only the first of rows that share an id.
pub open spec fn dedup_by_id(rows: Seq<SegmentRow>) -> Seq<SegmentRow>
    decreases rows.len(),
{
    if rows.len() == 0 {
        Seq::empty()
    } else {
        let prev = dedup_by_id(rows.drop_last());
        if exists|k: int| 0 <= k < prev.len() && prev[k].id == rows.last().id {
            prev
        } else {
            prev.push(rows.last())
        }
    }
}

/// A transcript line of a prompt: `[mm:ss] text`.
pub open spec fn context_line(seg: SegmentRow) -> Seq<char> {
    "["@ + spec_format_timestamp(seg.ts_ms) + "] "@ + seg.text@ + "\n"@
}

/// The lines, in order, as long as their UTF-8 bytes fit the budget; the
/// first that does not fit ends the text.
pub open spec fn within_budget(lines: Seq<Seq<char>>, budget: int) -> Seq<char>
    decreases lines.len(),
{
    if lines.len() == 0 {
        Seq::empty()
    } else if encode_utf8(lines[0]).len() <= budget {
        lines[0] + within_budget(lines.drop_first(), budget - encode_utf8(lines[0]).len())
    } else {
        Seq::empty()
    }
}

/// The transcript excerpt of a prompt: segments sampled from the start,
/// middle and end, each once, as timestamped lines within `max_bytes`.
pub open spec fn spec_transcript_context(segs: Seq<SegmentRow>, max_bytes: int) -> Seq<char> {
    let idx = sample_indices(segs.len() as int);
    let rows = dedup_by_id(Seq::new(idx.len(), |i: int| segs[idx[i]]));
    within_budget(Seq::new(rows.len(), |i: int| context_line(rows[i])), max_bytes)
}

proof fn lemma_sample_in_range(n: int)
    requires
        n > 0,
    ensures
        forall|i: int| 0 <= i < sample_indices(n).len() ==> 0 <= #[trigger] sample_indices(n)[i] < n,
{
    let s = sample_indices(n);
    let a = Seq::new(begin_count(n) as nat, |i: int| i);
    let b = Seq::new(mid_sample(n).1 as nat, |i: int| mid_sample(n).0 + i);
    let c = Seq::new(end_count(n) as nat, |i: int| n - 1 - i);
    assert(s == a + b + c);
    assert forall|i: int| 0 <= i < s.len() implies 0 <= #[trigger] s[i] < n by {
        if i < a.len() {
        } else if i < a.len() + b.len() {
            assert(s[i] == b[i - a.len()]);
            if n > 2 {
                assert(2 * n / 3 >= n / 3) by (nonlinear_arith) requires n > 2;
            }
        } else {
            assert(s[i] == c[i - a.len() - b.len()]);
        }
    }
}

fn sampled_indices(n: usize) -> (v: Vec<usize>)
    requires
        n > 0,
    ensures
        v@.len() == sample_indices(n as int).len(),
        forall|i: int| 0 <= i < v@.len() ==> v@[i] as int == #[trigger] sample_indices(n as int)[i],
{
    let ghost s = sample_indices(n as int);
    proof {
        lemma_sample_in_range(n as int);
    }
    let mut v: Vec<usize> = Vec::new();
    let b = if n / 3 > 1 { n / 3 } else { 1 };
    let bc = if b < n { b } else { n };
    let mut i: usize = 0;
    while i < bc
        invariant
            bc == begin_count(n as int),
            i <= bc,
            v@.len() == i,
            forall|k: int| 0 <= k < i ==> v@[k] == k,
        decreases bc - i,
    {
        v.push(i);
        i += 1;
    }
    let (ms, mc) = if n > 2 {
        let ms = n / 3;
        let me = if 2 * (n / 3) + (2 * (n % 3)) / 3 < n { 2 * (n / 3) + (2 * (n % 3)) / 3 } else { n };
        assert(2 * (n / 3) + (2 * (n % 3)) / 3 == 2 * n / 3) by (nonlinear_arith) requires n > 0;
        assert(me >= ms) by (nonlinear_arith) requires n > 2, ms == n / 3, me == (if 2 * n / 3 < n { 2 * n / 3 } else { n as int });
        let half = (me - ms) / 2;
        let mc = if half > 1 { half } else { 1 };
        (ms, if mc < me - ms { mc } else { me - ms })
    } else {
        (0, 0)
    };
    assert(ms == mid_sample(n as int).0 && mc == mid_sample(n as int).1);
    let mut j: usize = 0;
    while j < mc
        invariant
            ms == mid_sample(n as int).0,
            mc == mid_sample(n as int).1,
            bc == begin_count(n as int),
            forall|i: int| 0 <= i < s.len() ==> 0 <= #[trigger] s[i] < n,
            s == sample_indices(n as int),
            j <= mc,
            v@.len() == bc + j,
            forall|k: int| 0 <= k < v@.len() ==> v@[k] as int == s[k],
        decreases mc - j,
    {
        assert(s[bc + j] == ms + j);
        v.push(ms + j);
        j += 1;
    }
    let ec = if n > 1 {
        let e = if n / 3 > 1 { n / 3 } else { 1 };
        if e < n { e } else { n }
    } else {
        0
    };
    let mut k: usize = 0;
    while k < ec
        invariant
            ec == end_count(n as int),
            ms == mid_sample(n as int).0,
            mc == mid_sample(n as int).1,
            bc == begin_count(n as int),
            s == sample_indices(n as int),
            k <= ec,
            ec <= n,
            v@.len() == bc + mc + k,
            forall|q: int| 0 <= q < v@.len() ==> v@[q] as int == s[q],
        decreases ec - k,
    {
        assert(s[bc + mc + k] == n - 1 - k);
        v.push(n - 1 - k);
        k += 1;
    }
    v
}

/// The transcript excerpt a prompt carries; empty for an empty transcript.
pub fn build_transcript_context(segments: &[SegmentRow], max_chars: usize) -> (out: String)
    ensures
        out@ == if segments@.len() == 0 {
            Seq::<char>::empty()
        } else {
            spec_transcript_context(segments@, max_chars as int)
        },
{
    if segments.len() == 0 {
        return String::new();
    }
    let n = segments.len();
    let idx = sampled_indices(n);
    let ghost sidx = sample_indices(n as int);
    let ghost picked = Seq::new(sidx.len(), |i: int| segments@[sidx[i]]);
    proof {
        lemma_sample_in_range(n as int);
    }
    let mut kept: Vec<usize> = Vec::new();
    let mut i: usize = 0;
    while i < idx.len()
        invariant
            idx@.len() == sidx.len(),
            forall|q: int| 0 <= q < idx@.len() ==> idx@[q] as int == #[trigger] sidx[q],
            forall|q: int| 0 <= q < sidx.len() ==> 0 <= #[trigger] sidx[q] < n,
            n == segments@.len(),
            picked == Seq::new(sidx.len(), |q: int| segments@[sidx[q]]),
            i <= idx@.len(),
            forall|q: int| 0 <= q < kept@.len() ==> (#[trigger] kept@[q]) < n,
            Seq::new(kept@.len(), |q: int| segments@[kept@[q] as int]) == dedup_by_id(picked.subrange(0, i as int)),
        decreases idx@.len() - i,
    {
        let cand = idx[i];
        assert(idx@[i as int] as int == sidx[i as int]);
        let id = segments[cand].id;
        let mut dup = false;
        let mut q: usize = 0;
        while q < kept.len()
            invariant
                q <= kept@.len(),
                forall|r: int| 0 <= r < kept@.len() ==> (#[trigger] kept@[r]) < n,
                n == segments@.len(),
                dup == exists|r: int| 0 <= r < q && segments@[kept@[r] as int].id == id,
            decreases kept@.len() - q,
        {
            if segments[kept[q]].id == id {
                dup = true;
            }
            q += 1;
        }
        let ghost prev_rows = Seq::new(kept@.len(), |q: int| segments@[kept@[q] as int]);
        proof {
            let next = picked.subrange(0, i + 1);
            assert(next.drop_last() =~= picked.subrange(0, i as int));
            assert(next.last() == segments@[cand as int]);
            if dup {
                let r = choose|r: int| 0 <= r < kept@.len() && segments@[kept@[r] as int].id == id;
                assert(prev_rows[r].id == id);
            } else {
                assert forall|r: int| 0 <= r < prev_rows.len() implies prev_rows[r].id != id by {
                    assert(prev_rows[r] == segments@[kept@[r] as int]);
                }
            }
        }
        if !dup {
            kept.push(cand);
            proof {
                assert(Seq::new(kept@.len(), |q: int| segments@[kept@[q] as int]) =~= prev_rows.push(segments@[cand as int]));
            }
        }
        i += 1;
    }
    proof {
        assert(picked.subrange(0, idx@.len() as int) =~= picked);
    }
    let ghost rows = dedup_by_id(picked);
    let ghost lines = Seq::new(rows.len(), |q: int| context_line(rows[q]));
    proof {
        let si = sample_indices(segments@.len() as int);
        let sp = Seq::new(si.len(), |q: int| segments@[si[q]]);
        assert(sp =~= picked);
        assert(Seq::new(dedup_by_id(sp).len(), |q: int| context_line(dedup_by_id(sp)[q])) =~= lines);
        assert(spec_transcript_context(segments@, max_chars as int) == within_budget(lines, max_chars as int));
    }
    let mut out = String::new();
    let mut used: usize = 0;
    let mut k: usize = 0;
    proof {
        assert(lines.subrange(0, lines.len() as int) =~= lines);
        assert(out@ =~= Seq::<char>::empty());
        assert(out@ + within_budget(lines.subrange(0, lines.len() as int), max_chars as int) =~= within_budget(lines, max_chars as int));
    }
    while k < kept.len()
        invariant
            forall|q: int| 0 <= q < kept@.len() ==> (#[trigger] kept@[q]) < n,
            n == segments@.len(),
            rows == Seq::new(kept@.len(), |q: int| segments@[kept@[q] as int]),
            lines == Seq::new(rows.len(), |q: int| context_line(rows[q])),
            segments@.len() > 0,
            spec_transcript_context(segments@, max_chars as int) == within_budget(lines, max_chars as int),
            k <= kept@.len(),
            used <= max_chars,
            out@ + within_budget(lines.subrange(k as int, lines.len() as int), max_chars - used) == within_budget(lines, max_chars as int),
        decreases kept@.len() - k,
    {
        let seg = &segments[kept[k]];
        let mut line = String::from_str("[");
        let stamp = format_timestamp(seg.ts_ms);
        line.append(stamp.as_str());
        line.append("] ");
        line.append(seg.text.as_str());
        line.append("\n");
        let ghost rest = lines.subrange(k as int, lines.len() as int);
        assert(rest[0] == line@);
        assert(rest.drop_first() =~= lines.subrange(k + 1, lines.len() as int));
        let bytes = line.as_str().as_bytes().len();
        if bytes > max_chars - used {
            assert(within_budget(rest, max_chars - used) =~= Seq::<char>::empty());
            assert(out@ =~= within_budget(lines, max_chars as int));
            return out;
        }
        out.append(line.as_str());
        used = used + bytes;
        k += 1;
    }
    proof {
        assert(lines.subrange(k as int, lines.len() as int) =~= Seq::<Seq<char>>::empty());
        assert(out@ =~= within_budget(lines, max_chars as int));
    }
    out
}

/// The context of a one-meeting recipe: the transcript excerpt and the
/// user's notes, each with a placeholder when empty.
pub open spec fn spec_meeting_context(transcript: Seq<char>, notes: Seq<Seq<char>>) -> Seq<char> {
    let notes_text = seq_join(notes, "\n"@);
    "## Transcript\n"@ + (if transcript.len() == 0 { "(no transcript available)"@ } else { transcript })
        + "\n\n## User Notes\n"@ + (if notes_text.len() == 0 { "(no user notes)"@ } else { notes_text })
}

pub fn meeting_context(transcript: &str, notes: &[String]) -> (r: String)
    ensures
        r@ == spec_meeting_context(transcript@, views(notes@)),
{
    let notes_text = join_strings(notes, "\n");
    let mut out = String::from_str("## Transcript\n");
    if transcript.is_empty() {
        out.append("(no transcript available)");
    } else {
        out.append(transcript);
    }
    out.append("\n\n## User Notes\n");
    if notes_text.as_str().is_empty() {
        out.append("(no user notes)");
    } else {
        out.append(notes_text.as_str());
    }
    out
}

/// One recent meeting for a cross-meeting recipe: its title and, when its
/// transcript could be read, the transcript.
pub struct RecentMeeting {
    pub title: Option<String>,
    pub segments: Option<Vec<SegmentRow>>,
}

/// A recent meeting's part of the context, if its excerpt is not empty.
pub open spec fn recent_part(m: RecentMeeting) -> Option<Seq<char>> {
    match m.segments {
        Some(segs) => {
            let ex = if segs@.len() == 0 { Seq::<char>::empty() } else { spec_transcript_context(segs@, 600) };
            if ex.len() == 0 {
                None
            } else {
                Some("### "@ + (match m.title { Some(t) => t@, None => "Untitled meeting"@ }) + "\n"@ + ex)
            }
        },
        None => None,
    }
}

pub open spec fn recent_parts(ms: Seq<RecentMeeting>) -> Seq<Seq<char>>
    decreases ms.len(),
{
    if ms.len() == 0 {
        Seq::empty()
    } else {
        let prev = recent_parts(ms.drop_last());
        match recent_part(ms.last()) {
            Some(p) => prev.push(p),
            None => prev,
        }
    }
}

/// The context of a cross-meeting recipe over the ten most recent meetings.
pub open spec fn spec_recent_context(ms: Seq<RecentMeeting>) -> Seq<char> {
    let parts = recent_parts(if ms.len() <= 10 { ms } else { ms.subrange(0, 10) });
    if parts.len() == 0 {
        "(no recent meeting transcripts available)"@
    } else {
        seq_join(parts, "\n\n"@)
    }
}

pub fn recent_context(meetings: &[RecentMeeting]) -> (r: String)
    ensures
        r@ == spec_recent_context(meetings@),
{
    let n = if meetings.len() <= 10 { meetings.len() } else { 10 };
    let ghost ms = if meetings@.len() <= 10 { meetings@ } else { meetings@.subrange(0, 10) };
    assert(ms =~= meetings@.subrange(0, n as int));
    let mut parts: Vec<String> = Vec::new();
    let mut i: usize = 0;
    while i < n
        invariant
            n <= meetings@.len(),
            ms == meetings@.subrange(0, n as int),
            i <= n,
            views(parts@) == recent_parts(ms.subrange(0, i as int)),
        decreases n - i,
    {
        let m = &meetings[i];
        let ghost before = views(parts@);
        proof {
            assert(ms.subrange(0, i + 1).drop_last() =~= ms.subrange(0, i as int));
            assert(ms.subrange(0, i + 1).last() == meetings@[i as int]);
        }
        match &m.segments {
            Some(segs) => {
                let ex = build_transcript_context(segs.as_slice(), 600);
                if !ex.as_str().is_empty() {
                    let mut part = String::from_str("### ");
                    match &m.title {
                        Some(t) => part.append(t.as_str()),
                        None => part.append("Untitled meeting"),
                    }
                    part.append("\n");
                    part.append(ex.as_str());
                    parts.push(part);
                    assert(views(parts@) =~= before.push(part@));
                }
            },
            None => {},
        }
        i += 1;
    }
    assert(ms.subrange(0, n as int) =~= ms);
    if parts.len() == 0 {
        String::from_str("(no recent meeting transcripts available)")
    } else {
        join_strings(parts.as_slice(), "\n\n")
    }
}

/// Whether a recipe falls back to the rule-based notes when no model
/// answers (only the summary does).
pub fn has_rule_based_fallback(recipe_id: &str) -> (r: bool)
    ensures
        r == (recipe_id@ == "summary"@),
{
    str_eq(recipe_id, "summary")
}

/// The summary recipe's answer without a model: the rendered structured
/// note and a note on how to get a model's summary.
pub fn rule_based_summary(rendered_note: &str) -> (r: String)
    ensures
        r@ == rendered_note@ + "\n\n---\n*Rule-based summary. Add an API key (Anthropic, OpenAI, Gemini) or configure Ollama in Settings for AI-powered results.*"@,
{
    let mut t = String::from_str(rendered_note);
    t.append("\n\n---\n*Rule-based summary. Add an API key (Anthropic, OpenAI, Gemini) or configure Ollama in Settings for AI-powered results.*");
    t
}

/// The error of any other one-meeting recipe no model answered.
pub fn llm_required_error(recipe_id: &str) -> (e: ParaError)
    ensures
        match e {
            ParaError::Other(m) => m@ == "The \""@ + recipe_id@
                + "\" recipe requires an LLM provider. Add an API key (Anthropic, OpenAI, Gemini) or configure Ollama in Settings."@,
            _ => false,
        },
{
    let mut m = String::from_str("The \"");
    m.append(recipe_id);
    m.append("\" recipe requires an LLM provider. Add an API key (Anthropic, OpenAI, Gemini) or configure Ollama in Settings.");
    ParaError::Other(m)
}

/// The error of a cross-meeting recipe no model answered.
pub fn recent_recipe_failure(recipe_id: &str, reason: &str) -> (e: ParaError)
    ensures
        match e {
            ParaError::Other(m) => m@ == "The \""@ + recipe_id@ + "\" recipe requires an LLM provider. "@ + reason@,
            _ => false,
        },
{
    let mut m = String::from_str("The \"");
    m.append(recipe_id);
    m.append("\" recipe requires an LLM provider. ");
    m.append(reason);
    ParaError::Other(m)
}

} // verus!
