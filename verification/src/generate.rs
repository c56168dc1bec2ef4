//! Generating a structured note: the user's note lines and the transcript
//! evidence found for each section are sorted into the five sections,
//! without repeating an item within a section.

use vstd::prelude::*;
use crate::notes::{
    section_order, spec_classify_user_line, classify_user_line, spec_excerpt, excerpt, spec_ai_text,
    ai_text_for_segment, spec_build_summary, build_summary, max_items_for_section, template_query,
    spec_template_query,
};
use crate::structured::{SegmentRow, StructuredNoteCitation};
use crate::text::{
    str_eq, to_lowercase, unicode_lowercase, split_whitespace, words, join_strings, seq_join, views,
    to_owned_string,
};

verus! {

/// Where an item's retrieval confidence comes from.
#[derive(PartialEq, Eq, Structural, Clone, Copy)]
pub enum DraftConfidence {
    /// No evidence was found.
    Absent,
    /// `n / 3` for `n` (at most three) pieces of evidence.
    Thirds(u64),
    /// The segment's own confidence (bit pattern of the stored value), or
    /// the default of `0.6` when it has none.
    Segment(Option<u64>),
}

/// An item of a note being generated.
pub struct StructuredNoteItemDraft {
    pub position: i64,
    pub author_kind: String,
    pub text: String,
    pub confidence: DraftConfidence,
    pub evidence_count: i64,
    pub citations: Vec<StructuredNoteCitation>,
}

/// A section of a note being generated.
pub struct StructuredNoteSectionDraft {
    pub kind: String,
    pub items: Vec<StructuredNoteItemDraft>,
}

/// A generated note, before it is stored.
pub struct StructuredMeetingNoteDraft {
    pub template_kind: String,
    pub ownership_scope: String,
    pub summary: String,
    pub sections: Vec<StructuredNoteSectionDraft>,
}

/// A citation as plain values: segment id, timestamp, source, excerpt.
pub open spec fn cite_view(c: StructuredNoteCitation) -> (i64, i64, Seq<char>, Seq<char>) {
    (c.segment_id, c.ts_ms, c.source@, c.excerpt@)
}

pub open spec fn cite_views(cs: Seq<StructuredNoteCitation>) -> Seq<(i64, i64, Seq<char>, Seq<char>)> {
    Seq::new(cs.len(), |i: int| cite_view(cs[i]))
}

/// An item as plain values: author, text, citations, confidence.
pub open spec fn item_view(d: StructuredNoteItemDraft) -> (
    Seq<char>,
    Seq<char>,
    Seq<(i64, i64, Seq<char>, Seq<char>)>,
    DraftConfidence,
) {
    (d.author_kind@, d.text@, cite_views(d.citations@), d.confidence)
}

pub open spec fn item_views(items: Seq<StructuredNoteItemDraft>) -> Seq<
    (Seq<char>, Seq<char>, Seq<(i64, i64, Seq<char>, Seq<char>)>, DraftConfidence),
> {
    Seq::new(items.len(), |m: int| item_view(items[m]))
}

/// The citation a segment gives: its excerpt of at most 180 characters.
pub open spec fn seg_cite(s: SegmentRow) -> (i64, i64, Seq<char>, Seq<char>) {
    (s.id, s.ts_ms, s.source@, spec_excerpt(s.text@, 180))
}

pub open spec fn seg_cites(ss: Seq<SegmentRow>) -> Seq<(i64, i64, Seq<char>, Seq<char>)> {
    Seq::new(ss.len(), |i: int| seg_cite(ss[i]))
}

/// Confidence of a user item with `n` pieces of evidence.
pub open spec fn thirds(n: nat) -> DraftConfidence {
    if n == 0 {
        DraftConfidence::Absent
    } else if n >= 3 {
        DraftConfidence::Thirds(3)
    } else {
        DraftConfidence::Thirds(n as u64)
    }
}

/// The search results for entry `i`, none where the list is short.
pub open spec fn hits_at(h: Seq<Vec<SegmentRow>>, i: int) -> Seq<SegmentRow> {
    if 0 <= i < h.len() {
        h[i]@
    } else {
        Seq::empty()
    }
}

/// A user line as a candidate: its section and its item.
pub open spec fn user_cand(line: Seq<char>, hits: Seq<SegmentRow>) -> (
    Seq<char>,
    (Seq<char>, Seq<char>, Seq<(i64, i64, Seq<char>, Seq<char>)>, DraftConfidence),
) {
    (spec_classify_user_line(line), ("user"@, line, seg_cites(hits), thirds(hits.len())))
}

pub open spec fn user_cands(lines: Seq<Seq<char>>, h: Seq<Vec<SegmentRow>>) -> Seq<
    (Seq<char>, (Seq<char>, Seq<char>, Seq<(i64, i64, Seq<char>, Seq<char>)>, DraftConfidence)),
> {
    Seq::new(lines.len(), |i: int| user_cand(lines[i], hits_at(h, i)))
}

/// Transcript segments found for a section as candidates, skipping any
/// whose bullet text would be empty.
pub open spec fn ai_cands(kind: Seq<char>, segs: Seq<SegmentRow>) -> Seq<
    (Seq<char>, (Seq<char>, Seq<char>, Seq<(i64, i64, Seq<char>, Seq<char>)>, DraftConfidence)),
>
    decreases segs.len(),
{
    if segs.len() == 0 {
        Seq::empty()
    } else {
        let prev = ai_cands(kind, segs.drop_last());
        let text = spec_ai_text(kind, segs.last().text@);
        if text.len() == 0 {
            prev
        } else {
            prev.push(
                (kind, ("ai"@, text, seq![seg_cite(segs.last())], DraftConfidence::Segment(segs.last().confidence_bits))),
            )
        }
    }
}

/// Most transcript items a section takes.
pub open spec fn max_items(kind: Seq<char>) -> int {
    if kind == "quotes_highlights"@ { 5 } else { 4 }
}

pub open spec fn take_first<A>(s: Seq<A>, n: int) -> Seq<A> {
    if s.len() <= n { s } else { s.subrange(0, n) }
}

/// Transcript candidates of the first `k` sections, in section order.
pub open spec fn all_ai_cands(h: Seq<Vec<SegmentRow>>, k: nat) -> Seq<
    (Seq<char>, (Seq<char>, Seq<char>, Seq<(i64, i64, Seq<char>, Seq<char>)>, DraftConfidence)),
>
    decreases k,
{
    if k == 0 {
        Seq::empty()
    } else {
        let kind = section_order()[k - 1];
        all_ai_cands(h, (k - 1) as nat) + ai_cands(kind, take_first(hits_at(h, k - 1), max_items(kind)))
    }
}

/// What identifies an item within a section: the section and the item's
/// words, lower-cased, single-spaced.
pub open spec fn fingerprint(kind: Seq<char>, text: Seq<char>) -> Seq<char> {
    kind + "::"@ + unicode_lowercase(seq_join(words(text), " "@))
}

/// Position of a section kind in the section order.
pub open spec fn section_index(kind: Seq<char>) -> Option<int> {
    if kind == section_order()[0] {
        Some(0)
    } else if kind == section_order()[1] {
        Some(1)
    } else if kind == section_order()[2] {
        Some(2)
    } else if kind == section_order()[3] {
        Some(3)
    } else if kind == section_order()[4] {
        Some(4)
    } else {
        None
    }
}

/// The sections' items and the fingerprints seen after placing the
/// candidates in order: a candidate whose fingerprint was seen before is
/// dropped.
pub open spec fn placed(
    stream: Seq<(Seq<char>, (Seq<char>, Seq<char>, Seq<(i64, i64, Seq<char>, Seq<char>)>, DraftConfidence))>,
) -> (Seq<Seq<(Seq<char>, Seq<char>, Seq<(i64, i64, Seq<char>, Seq<char>)>, DraftConfidence)>>, Seq<Seq<char>>)
    decreases stream.len(),
{
    if stream.len() == 0 {
        (Seq::new(5, |j: int| Seq::empty()), Seq::empty())
    } else {
        let prev = placed(stream.drop_last());
        let kind = stream.last().0;
        let item = stream.last().1;
        let fp = fingerprint(kind, item.1);
        if prev.1.contains(fp) {
            prev
        } else {
            match section_index(kind) {
                Some(j) => (prev.0.update(j, prev.0[j].push(item)), prev.1.push(fp)),
                None => (prev.0, prev.1.push(fp)),
            }
        }
    }
}

proof fn lemma_placed_len(
    stream: Seq<(Seq<char>, (Seq<char>, Seq<char>, Seq<(i64, i64, Seq<char>, Seq<char>)>, DraftConfidence))>,
)
    ensures
        placed(stream).0.len() == 5,
    decreases stream.len(),
{
    if stream.len() > 0 {
        lemma_placed_len(stream.drop_last());
    }
}

/// The exec state matches the placement of `stream`.
pub open spec fn state_ok(
    sections: Seq<StructuredNoteSectionDraft>,
    seen: Seq<String>,
    stream: Seq<(Seq<char>, (Seq<char>, Seq<char>, Seq<(i64, i64, Seq<char>, Seq<char>)>, DraftConfidence))>,
) -> bool {
    let p = placed(stream);
    &&& sections.len() == 5
    &&& forall|j: int|
        0 <= j < 5 ==> (#[trigger] sections[j]).kind@ == section_order()[j] && item_views(sections[j].items@)
            == p.0[j]
    &&& forall|j: int, m: int|
        0 <= j < 5 && 0 <= m < sections[j].items@.len() ==> (#[trigger] sections[j].items@[m]).position == m
            && sections[j].items@[m].evidence_count == sections[j].items@[m].citations@.len()
    &&& views(seen) == p.1
}

fn fingerprint_of(kind: &str, text: &str) -> (r: String)
    ensures
        r@ == fingerprint(kind@, text@),
{
    let ws = split_whitespace(text);
    let joined = join_strings(ws.as_slice(), " ");
    let lower = to_lowercase(joined.as_str());
    let mut fp = String::from_str(kind);
    fp.append("::");
    fp.append(lower.as_str());
    fp
}

fn seen_contains(seen: &Vec<String>, fp: &str) -> (r: bool)
    ensures
        r == views(seen@).contains(fp@),
{
    let mut i: usize = 0;
    while i < seen.len()
        invariant
            i <= seen@.len(),
            forall|j: int| 0 <= j < i ==> views(seen@)[j] != fp@,
        decreases seen@.len() - i,
    {
        if str_eq(seen[i].as_str(), fp) {
            assert(views(seen@)[i as int] == fp@);
            return true;
        }
        i += 1;
    }
    false
}

fn find_section(sections: &Vec<StructuredNoteSectionDraft>, kind: &str) -> (r: Option<usize>)
    requires
        sections@.len() == 5,
        forall|j: int| 0 <= j < 5 ==> (#[trigger] sections@[j]).kind@ == section_order()[j],
    ensures
        match r {
            Some(j) => section_index(kind@) == Some(j as int),
            None => section_index(kind@) is None,
        },
{
    let mut j: usize = 0;
    while j < 5
        invariant
            sections@.len() == 5,
            forall|k: int| 0 <= k < 5 ==> (#[trigger] sections@[k]).kind@ == section_order()[k],
            j <= 5,
            forall|k: int| 0 <= k < j ==> section_order()[k] != kind@,
        decreases 5 - j,
    {
        if str_eq(sections[j].kind.as_str(), kind) {
            return Some(j);
        }
        j += 1;
    }
    None
}

/// Where the next item of a section kind goes: the section's length.
pub open spec fn next_pos(
    secs: Seq<Seq<(Seq<char>, Seq<char>, Seq<(i64, i64, Seq<char>, Seq<char>)>, DraftConfidence)>>,
    kind: Seq<char>,
) -> int {
    match section_index(kind) {
        Some(j) => secs[j].len() as int,
        None => 0,
    }
}

fn next_position(sections: &Vec<StructuredNoteSectionDraft>, kind: &str) -> (p: usize)
    requires
        sections@.len() == 5,
        forall|j: int| 0 <= j < 5 ==> (#[trigger] sections@[j]).kind@ == section_order()[j],
    ensures
        p == match section_index(kind@) {
            Some(j) => sections@[j].items@.len(),
            None => 0,
        },
{
    match find_section(sections, kind) {
        Some(j) => sections[j].items.len(),
        None => 0,
    }
}

fn push_item(
    sections: &mut Vec<StructuredNoteSectionDraft>,
    kind: &str,
    item: StructuredNoteItemDraft,
    seen: &mut Vec<String>,
    Ghost(stream): Ghost<Seq<(Seq<char>, (Seq<char>, Seq<char>, Seq<(i64, i64, Seq<char>, Seq<char>)>, DraftConfidence))>>,
)
    requires
        state_ok(old(sections)@, old(seen)@, stream),
        item.position == next_pos(placed(stream).0, kind@),
        item.evidence_count == item.citations@.len(),
    ensures
        state_ok(final(sections)@, final(seen)@, stream.push((kind@, item_view(item)))),
{
    let ghost next = stream.push((kind@, item_view(item)));
    let ghost prev = placed(stream);
    proof {
        assert(next.drop_last() =~= stream);
        lemma_placed_len(stream);
    }
    let fp = fingerprint_of(kind, item.text.as_str());
    if seen_contains(seen, fp.as_str()) {
        return;
    }
    let ghost seen_before = seen@;
    seen.push(fp);
    proof {
        assert(views(seen@) =~= views(seen_before).push(fingerprint(kind@, item.text@)));
    }
    match find_section(sections, kind) {
        Some(j) => {
            let ghost before = sections@;
            let ghost iv = item_view(item);
            assert(item.position == before[j as int].items@.len()) by {
                assert(item_views(before[j as int].items@) == prev.0[j as int]);
            }
            sections[j].items.push(item);
            proof {
                assert forall|k: int| 0 <= k < 5 implies (#[trigger] sections@[k]).kind@ == section_order()[k]
                    && item_views(sections@[k].items@) == placed(next).0[k] by {
                    if k == j {
                        assert(item_views(sections@[k].items@) =~= item_views(before[k].items@).push(iv));
                    } else {
                        assert(sections@[k] == before[k]);
                    }
                }
                assert forall|k: int, m: int|
                    0 <= k < 5 && 0 <= m < sections@[k].items@.len() implies (#[trigger] sections@[k].items@[m]).position
                        == m && sections@[k].items@[m].evidence_count == sections@[k].items@[m].citations@.len() by {
                    if k != j {
                        assert(sections@[k] == before[k]);
                    } else if m < before[k].items@.len() {
                        assert(sections@[k].items@[m] == before[k].items@[m]);
                    }
                }
            }
        },
        None => {},
    }
}

/// The empty sections, in section order.
fn new_sections() -> (v: Vec<StructuredNoteSectionDraft>)
    ensures
        v@.len() == 5,
        forall|j: int| 0 <= j < 5 ==> (#[trigger] v@[j]).kind@ == section_order()[j] && v@[j].items@.len() == 0,
{
    let mut v: Vec<StructuredNoteSectionDraft> = Vec::new();
    v.push(StructuredNoteSectionDraft { kind: String::from_str("key_decisions"), items: Vec::new() });
    v.push(StructuredNoteSectionDraft { kind: String::from_str("action_items"), items: Vec::new() });
    v.push(StructuredNoteSectionDraft { kind: String::from_str("open_questions"), items: Vec::new() });
    v.push(StructuredNoteSectionDraft { kind: String::from_str("risks_blockers"), items: Vec::new() });
    v.push(StructuredNoteSectionDraft { kind: String::from_str("quotes_highlights"), items: Vec::new() });
    v
}

fn segment_citation(seg: &SegmentRow) -> (c: StructuredNoteCitation)
    ensures
        cite_view(c) == seg_cite(*seg),
{
    StructuredNoteCitation {
        segment_id: seg.id,
        ts_ms: seg.ts_ms,
        source: to_owned_string(seg.source.as_str()),
        excerpt: excerpt(seg.text.as_str(), 180),
    }
}

fn citations_of(hits: &Vec<SegmentRow>) -> (cs: Vec<StructuredNoteCitation>)
    ensures
        cite_views(cs@) == seg_cites(hits@),
{
    let mut cs: Vec<StructuredNoteCitation> = Vec::new();
    let mut i: usize = 0;
    while i < hits.len()
        invariant
            i <= hits@.len(),
            cite_views(cs@) =~= seg_cites(hits@.subrange(0, i as int)),
        decreases hits@.len() - i,
    {
        let c = segment_citation(&hits[i]);
        let ghost before = cs@;
        cs.push(c);
        assert(cite_views(cs@) =~= cite_views(before).push(cite_view(c)));
        i += 1;
    }
    assert(hits@.subrange(0, hits@.len() as int) =~= hits@);
    cs
}

/// The search query of each section, in section order, for a template.
pub fn section_queries(template_kind: &str) -> (qs: Vec<&'static str>)
    ensures
        qs@.len() == 5,
        forall|j: int| 0 <= j < 5 ==> (#[trigger] qs@[j])@ == spec_template_query(template_kind@, section_order()[j]),
{
    let mut qs: Vec<&'static str> = Vec::new();
    qs.push(template_query(template_kind, "key_decisions"));
    qs.push(template_query(template_kind, "action_items"));
    qs.push(template_query(template_kind, "open_questions"));
    qs.push(template_query(template_kind, "risks_blockers"));
    qs.push(template_query(template_kind, "quotes_highlights"));
    qs
}

/// Builds the note of a meeting from its outline entries (`user_lines`),
/// the transcript evidence found for each entry (`line_hits[i]`, searched
/// with `citation_query`), the evidence found for each section
/// (`section_hits[j]`, searched with `section_queries`) and the transcript.
/// User items come first; each section takes at most four transcript items
/// (five quotes); an item whose words were already placed in its section
/// is dropped.
pub fn assemble_structured_note(
    template_kind: &str,
    user_lines: &[String],
    line_hits: &[Vec<SegmentRow>],
    section_hits: &[Vec<SegmentRow>],
    segments: &[SegmentRow],
) -> (d: StructuredMeetingNoteDraft)
    requires
        user_lines@.len() < 0x7fff_ffff_ffff_0000,
        forall|i: int| 0 <= i < line_hits@.len() ==> (#[trigger] line_hits@[i])@.len() < 0x7fff_ffff_ffff_ffff,
    ensures
        d.template_kind@ == template_kind@,
        d.ownership_scope@ == "local_only"@,
        d.summary@ == spec_build_summary(template_kind@, views(user_lines@), segments@),
        d.sections@.len() == 5,
        forall|j: int|
            0 <= j < 5 ==> (#[trigger] d.sections@[j]).kind@ == section_order()[j] && item_views(d.sections@[j].items@)
                == placed(user_cands(views(user_lines@), line_hits@) + all_ai_cands(section_hits@, 5)).0[j],
        forall|j: int, m: int|
            0 <= j < 5 && 0 <= m < d.sections@[j].items@.len() ==> (#[trigger] d.sections@[j].items@[m]).position == m
                && d.sections@[j].items@[m].evidence_count == d.sections@[j].items@[m].citations@.len(),
{
    let mut sections = new_sections();
    let mut seen: Vec<String> = Vec::new();
    let ghost lines = views(user_lines@);
    let ghost ucands = user_cands(lines, line_hits@);
    proof {
        assert forall|j: int| 0 <= j < 5 implies (#[trigger] sections@[j]).kind@ == section_order()[j]
            && item_views(sections@[j].items@) == placed(Seq::empty()).0[j] by {
            assert(item_views(sections@[j].items@) =~= Seq::empty());
        }
        assert(views(seen@) =~= Seq::<Seq<char>>::empty());
        assert(ucands.subrange(0, 0) =~= Seq::empty());
    }
    let mut i: usize = 0;
    while i < user_lines.len()
        invariant
            lines == views(user_lines@),
            ucands == user_cands(lines, line_hits@),
            user_lines@.len() < 0x7fff_ffff_ffff_0000,
            forall|k: int| 0 <= k < line_hits@.len() ==> (#[trigger] line_hits@[k])@.len() < 0x7fff_ffff_ffff_ffff,
            i <= user_lines@.len(),
            state_ok(sections@, seen@, ucands.subrange(0, i as int)),
            forall|j: int| 0 <= j < 5 ==> (#[trigger] sections@[j]).items@.len() <= i,
        decreases user_lines@.len() - i,
    {
        let line = user_lines[i].as_str();
        let kind = classify_user_line(line);
        let empty: Vec<SegmentRow> = Vec::new();
        let hits: &Vec<SegmentRow> = if i < line_hits.len() { &line_hits[i] } else { &empty };
        let citations = citations_of(hits);
        let n = citations.len();
        let confidence = if n == 0 {
            DraftConfidence::Absent
        } else if n >= 3 {
            DraftConfidence::Thirds(3)
        } else {
            DraftConfidence::Thirds(n as u64)
        };
        let pos = next_position(&sections, kind);
        let item = StructuredNoteItemDraft {
            position: pos as i64,
            author_kind: String::from_str("user"),
            text: to_owned_string(line),
            confidence,
            evidence_count: n as i64,
            citations,
        };
        proof {
            assert(hits@ == hits_at(line_hits@, i as int));
            assert(lines[i as int] == line@);
            assert(cite_views(item.citations@).len() == item.citations@.len());
            assert(seg_cites(hits@).len() == hits@.len());
            assert(item.confidence == thirds(hits@.len()));
            assert(item_view(item) == ("user"@, line@, seg_cites(hits@), thirds(hits@.len())));
            assert(ucands[i as int] == (kind@, item_view(item)));
            assert(ucands.subrange(0, i + 1) =~= ucands.subrange(0, i as int).push(ucands[i as int]));
            assert(item.position == next_pos(placed(ucands.subrange(0, i as int)).0, kind@)) by {
                match section_index(kind@) {
                    Some(j) => {
                        assert(item_views(sections@[j].items@) == placed(ucands.subrange(0, i as int)).0[j]);
                    },
                    None => {},
                }
            }
        }
        let ghost before = sections@;
        push_item(&mut sections, kind, item, &mut seen, Ghost(ucands.subrange(0, i as int)));
        proof {
            assert(ucands.subrange(0, i + 1).drop_last() =~= ucands.subrange(0, i as int));
            assert forall|j: int| 0 <= j < 5 implies (#[trigger] sections@[j]).items@.len() <= i + 1 by {
                assert(item_views(sections@[j].items@).len() == sections@[j].items@.len());
                assert(item_views(before[j].items@).len() == before[j].items@.len());
                assert(item_views(before[j].items@) == placed(ucands.subrange(0, i as int)).0[j]);
                assert(item_views(sections@[j].items@) == placed(ucands.subrange(0, i + 1)).0[j]);
                lemma_placed_step_len(ucands.subrange(0, i + 1), j);
            }
        }
        i += 1;
    }
    proof {
        assert(ucands.subrange(0, user_lines@.len() as int) =~= ucands);
    }
    let mut s: usize = 0;
    while s < 5
        invariant
            lines == views(user_lines@),
            ucands == user_cands(lines, line_hits@),
            user_lines@.len() < 0x7fff_ffff_ffff_0000,
            s <= 5,
            state_ok(sections@, seen@, ucands + all_ai_cands(section_hits@, s as nat)),
            forall|j: int| 0 <= j < 5 ==> (#[trigger] sections@[j]).items@.len() <= user_lines@.len() + 5 * s,
        decreases 5 - s,
    {
        let kind = if s == 0 {
            "key_decisions"
        } else if s == 1 {
            "action_items"
        } else if s == 2 {
            "open_questions"
        } else if s == 3 {
            "risks_blockers"
        } else {
            "quotes_highlights"
        };
        let empty: Vec<SegmentRow> = Vec::new();
        let hits: &Vec<SegmentRow> = if s < section_hits.len() { &section_hits[s] } else { &empty };
        let max = max_items_for_section(kind);
        let limit = if hits.len() < max { hits.len() } else { max };
        let ghost base = ucands + all_ai_cands(section_hits@, s as nat);
        let ghost segs = take_first(hits_at(section_hits@, s as int), max_items(kind@));
        proof {
            assert(hits@ == hits_at(section_hits@, s as int));
            assert(segs =~= hits@.subrange(0, limit as int));
            assert(ai_cands(kind@, segs.subrange(0, 0)) =~= Seq::empty());
            assert(base + ai_cands(kind@, segs.subrange(0, 0)) =~= base);
        }
        let mut t: usize = 0;
        while t < limit
            invariant
                limit <= hits@.len(),
                limit <= 5,
                segs == hits@.subrange(0, limit as int),
                t <= limit,
                state_ok(sections@, seen@, base + ai_cands(kind@, segs.subrange(0, t as int))),
                forall|j: int| 0 <= j < 5 ==> (#[trigger] sections@[j]).items@.len() <= user_lines@.len() + 5 * s + t,
                user_lines@.len() < 0x7fff_ffff_ffff_0000,
                s < 5,
            decreases limit - t,
        {
            let seg = &hits[t];
            let text = ai_text_for_segment(kind, seg);
            let ghost prefix = segs.subrange(0, t as int);
            proof {
                assert(segs.subrange(0, t + 1).drop_last() =~= prefix);
                assert(segs.subrange(0, t + 1).last() == *seg);
            }
            if !text.as_str().is_empty() {
                let mut citations: Vec<StructuredNoteCitation> = Vec::new();
                let c = segment_citation(seg);
                citations.push(c);
                let pos = next_position(&sections, kind);
                let item = StructuredNoteItemDraft {
                    position: pos as i64,
                    author_kind: String::from_str("ai"),
                    text,
                    confidence: DraftConfidence::Segment(seg.confidence_bits),
                    evidence_count: 1,
                    citations,
                };
                let ghost stream = base + ai_cands(kind@, prefix);
                proof {
                    assert(cite_views(item.citations@) =~= seq![seg_cite(*seg)]);
                    assert(ai_cands(kind@, segs.subrange(0, t + 1)) == ai_cands(kind@, prefix).push((kind@, item_view(item))));
                    assert(base + ai_cands(kind@, segs.subrange(0, t + 1)) =~= stream.push((kind@, item_view(item))));
                    assert(item.position == next_pos(placed(stream).0, kind@)) by {
                        match section_index(kind@) {
                            Some(j) => {
                                assert(item_views(sections@[j].items@) == placed(stream).0[j]);
                            },
                            None => {},
                        }
                    }
                }
                let ghost before = sections@;
                push_item(&mut sections, kind, item, &mut seen, Ghost(stream));
                proof {
                    assert(stream.push((kind@, item_view(item))).drop_last() =~= stream);
                    assert forall|j: int| 0 <= j < 5 implies (#[trigger] sections@[j]).items@.len() <= user_lines@.len() + 5 * s + t + 1 by {
                        assert(item_views(sections@[j].items@).len() == sections@[j].items@.len());
                        assert(item_views(before[j].items@).len() == before[j].items@.len());
                        assert(item_views(before[j].items@) == placed(stream).0[j]);
                        assert(item_views(sections@[j].items@) == placed(stream.push((kind@, item_view(item)))).0[j]);
                        lemma_placed_step_len(stream.push((kind@, item_view(item))), j);
                    }
                }
            } else {
                proof {
                    assert(ai_cands(kind@, segs.subrange(0, t + 1)) == ai_cands(kind@, prefix));
                }
            }
            t += 1;
        }
        proof {
            assert(segs.subrange(0, limit as int) =~= segs);
            assert(section_order()[s as int] == kind@);
            assert(all_ai_cands(section_hits@, (s + 1) as nat) == all_ai_cands(section_hits@, s as nat) + ai_cands(kind@, segs));
            assert(base + ai_cands(kind@, segs) =~= ucands + all_ai_cands(section_hits@, (s + 1) as nat));
        }
        s += 1;
    }
    let summary = build_summary(template_kind, user_lines, segments);
    StructuredMeetingNoteDraft {
        template_kind: to_owned_string(template_kind),
        ownership_scope: String::from_str("local_only"),
        summary,
        sections,
    }
}

proof fn lemma_placed_step_len(
    stream: Seq<(Seq<char>, (Seq<char>, Seq<char>, Seq<(i64, i64, Seq<char>, Seq<char>)>, DraftConfidence))>,
    j: int,
)
    requires
        stream.len() > 0,
        0 <= j < 5,
    ensures
        placed(stream).0[j].len() <= placed(stream.drop_last()).0[j].len() + 1,
{
    lemma_placed_len(stream.drop_last());
}

proof fn lemma_section_index(kind: Seq<char>)
    ensures
        match section_index(kind) {
            Some(j) => 0 <= j < 5 && section_order()[j] == kind,
            None => true,
        },
{
}

proof fn lemma_placed_distinct(
    stream: Seq<(Seq<char>, (Seq<char>, Seq<char>, Seq<(i64, i64, Seq<char>, Seq<char>)>, DraftConfidence))>,
)
    ensures
        placed(stream).0.len() == 5,
        forall|j: int, a: int|
            0 <= j < 5 && 0 <= a < placed(stream).0[j].len() ==> placed(stream).1.contains(
                fingerprint(section_order()[j], #[trigger] placed(stream).0[j][a].1),
            ),
        forall|j: int, a: int, b: int|
            0 <= j < 5 && 0 <= a < b < placed(stream).0[j].len() ==> fingerprint(
                section_order()[j],
                #[trigger] placed(stream).0[j][a].1,
            ) != fingerprint(section_order()[j], #[trigger] placed(stream).0[j][b].1),
    decreases stream.len(),
{
    if stream.len() > 0 {
        let prev = placed(stream.drop_last());
        lemma_placed_distinct(stream.drop_last());
        let kind = stream.last().0;
        let item = stream.last().1;
        let fp = fingerprint(kind, item.1);
        let cur = placed(stream);
        if !prev.1.contains(fp) {
            lemma_section_index(kind);
            match section_index(kind) {
                Some(j0) => {
                    assert forall|j: int, a: int|
                        0 <= j < 5 && 0 <= a < cur.0[j].len() implies cur.1.contains(
                        fingerprint(section_order()[j], #[trigger] cur.0[j][a].1),
                    ) by {
                        if j == j0 && a == prev.0[j].len() {
                            assert(cur.1[prev.1.len() as int] == fp);
                        } else {
                            assert(cur.0[j][a] == prev.0[j][a]);
                            let k = choose|k: int| 0 <= k < prev.1.len() && prev.1[k] == fingerprint(section_order()[j], prev.0[j][a].1);
                            assert(cur.1[k] == prev.1[k]);
                        }
                    }
                    assert forall|j: int, a: int, b: int|
                        0 <= j < 5 && 0 <= a < b < cur.0[j].len() implies fingerprint(
                        section_order()[j],
                        #[trigger] cur.0[j][a].1,
                    ) != fingerprint(section_order()[j], #[trigger] cur.0[j][b].1) by {
                        assert(cur.0[j][a] == prev.0[j][a]);
                        if j == j0 && b == prev.0[j].len() {
                            assert(prev.1.contains(fingerprint(section_order()[j], prev.0[j][a].1)));
                        } else {
                            assert(cur.0[j][b] == prev.0[j][b]);
                        }
                    }
                },
                None => {
                    assert forall|j: int, a: int|
                        0 <= j < 5 && 0 <= a < cur.0[j].len() implies cur.1.contains(
                        fingerprint(section_order()[j], #[trigger] cur.0[j][a].1),
                    ) by {
                        let k = choose|k: int| 0 <= k < prev.1.len() && prev.1[k] == fingerprint(section_order()[j], prev.0[j][a].1);
                        assert(cur.1[k] == prev.1[k]);
                    }
                },
            }
        }
    }
}

/// A generated note never holds two items of one section with the same
/// words (compared lower-cased and single-spaced).
pub proof fn law_no_repeated_item(
    stream: Seq<(Seq<char>, (Seq<char>, Seq<char>, Seq<(i64, i64, Seq<char>, Seq<char>)>, DraftConfidence))>,
)
    ensures
        forall|j: int, a: int, b: int|
            0 <= j < 5 && 0 <= a < b < placed(stream).0[j].len() ==> fingerprint(
                section_order()[j],
                #[trigger] placed(stream).0[j][a].1,
            ) != fingerprint(section_order()[j], #[trigger] placed(stream).0[j][b].1),
{
    lemma_placed_distinct(stream);
}

/// Transcript (`ai`) items among a section's items.
pub open spec fn transcript_items(
    items: Seq<(Seq<char>, Seq<char>, Seq<(i64, i64, Seq<char>, Seq<char>)>, DraftConfidence)>,
) -> int
    decreases items.len(),
{
    if items.len() == 0 {
        0
    } else {
        transcript_items(items.drop_last()) + if items.last().0 == "ai"@ { 1int } else { 0int }
    }
}

/// Transcript candidates of section kind `kind` in a stream.
pub open spec fn transcript_cands(
    s: Seq<(Seq<char>, (Seq<char>, Seq<char>, Seq<(i64, i64, Seq<char>, Seq<char>)>, DraftConfidence))>,
    kind: Seq<char>,
) -> int
    decreases s.len(),
{
    if s.len() == 0 {
        0
    } else {
        transcript_cands(s.drop_last(), kind) + if s.last().0 == kind && s.last().1.0 == "ai"@ { 1int } else { 0int }
    }
}

proof fn lemma_transcript_cands_concat(
    a: Seq<(Seq<char>, (Seq<char>, Seq<char>, Seq<(i64, i64, Seq<char>, Seq<char>)>, DraftConfidence))>,
    b: Seq<(Seq<char>, (Seq<char>, Seq<char>, Seq<(i64, i64, Seq<char>, Seq<char>)>, DraftConfidence))>,
    kind: Seq<char>,
)
    ensures
        transcript_cands(a + b, kind) == transcript_cands(a, kind) + transcript_cands(b, kind),
    decreases b.len(),
{
    if b.len() == 0 {
        assert(a + b =~= a);
    } else {
        lemma_transcript_cands_concat(a, b.drop_last(), kind);
        assert((a + b).drop_last() =~= a + b.drop_last());
        assert((a + b).last() == b.last());
    }
}

proof fn lemma_transcript_cands_bounds(
    s: Seq<(Seq<char>, (Seq<char>, Seq<char>, Seq<(i64, i64, Seq<char>, Seq<char>)>, DraftConfidence))>,
    kind: Seq<char>,
)
    ensures
        0 <= transcript_cands(s, kind) <= s.len(),
        (forall|i: int| 0 <= i < s.len() ==> (#[trigger] s[i]).0 != kind || s[i].1.0 != "ai"@) ==> transcript_cands(
            s,
            kind,
        ) == 0,
    decreases s.len(),
{
    if s.len() > 0 {
        lemma_transcript_cands_bounds(s.drop_last(), kind);
        assert forall|i: int| 0 <= i < s.len() - 1 implies #[trigger] s.drop_last()[i] == s[i] by {}
        assert(s.last() == s[s.len() - 1]);
    }
}

proof fn lemma_ai_cands_shape(kind: Seq<char>, segs: Seq<SegmentRow>)
    ensures
        ai_cands(kind, segs).len() <= segs.len(),
        forall|i: int| 0 <= i < ai_cands(kind, segs).len() ==> (#[trigger] ai_cands(kind, segs)[i]).0 == kind,
    decreases segs.len(),
{
    if segs.len() > 0 {
        lemma_ai_cands_shape(kind, segs.drop_last());
    }
}

/// Transcript candidates of one kind in the candidates of the first `k`
/// sections: only that kind's own section contributes, at most its cap.
proof fn lemma_all_ai_cands_cap(h: Seq<Vec<SegmentRow>>, k: nat, j: int)
    requires
        k <= 5,
        0 <= j < 5,
    ensures
        transcript_cands(all_ai_cands(h, k), section_order()[j]) <= (if j < k { max_items(section_order()[j]) } else { 0 }),
    decreases k,
{
    reveal_strlit("key_decisions");
    reveal_strlit("action_items");
    reveal_strlit("open_questions");
    reveal_strlit("risks_blockers");
    reveal_strlit("quotes_highlights");
    if k > 0 {
        let kind = section_order()[k - 1];
        let chunk = ai_cands(kind, take_first(hits_at(h, k - 1), max_items(kind)));
        lemma_all_ai_cands_cap(h, (k - 1) as nat, j);
        lemma_transcript_cands_concat(all_ai_cands(h, (k - 1) as nat), chunk, section_order()[j]);
        lemma_ai_cands_shape(kind, take_first(hits_at(h, k - 1), max_items(kind)));
        lemma_transcript_cands_bounds(chunk, section_order()[j]);
        if j != k - 1 {
            assert(section_order()[j] != kind) by {
                assert(section_order()[j].len() != kind.len() || section_order()[j][0] != kind[0]
                    || section_order()[j][1] != kind[1]);
            }
            assert forall|i: int| 0 <= i < chunk.len() implies (#[trigger] chunk[i]).0 != section_order()[j]
                || chunk[i].1.0 != "ai"@ by {}
        }
    }
}

proof fn lemma_placed_transcript(
    s: Seq<(Seq<char>, (Seq<char>, Seq<char>, Seq<(i64, i64, Seq<char>, Seq<char>)>, DraftConfidence))>,
    j: int,
)
    requires
        0 <= j < 5,
    ensures
        placed(s).0.len() == 5,
        transcript_items(placed(s).0[j]) <= transcript_cands(s, section_order()[j]),
    decreases s.len(),
{
    lemma_placed_len(s);
    if s.len() > 0 {
        lemma_placed_transcript(s.drop_last(), j);
        lemma_placed_len(s.drop_last());
        lemma_section_index(s.last().0);
        let prev = placed(s.drop_last());
        let fp = fingerprint(s.last().0, s.last().1.1);
        if !prev.1.contains(fp) {
            match section_index(s.last().0) {
                Some(jj) => {
                    if jj == j {
                        assert(placed(s).0[j] == prev.0[j].push(s.last().1));
                        assert(placed(s).0[j].drop_last() =~= prev.0[j]);
                    } else {
                        assert(placed(s).0[j] == prev.0[j]);
                    }
                },
                None => {},
            }
        }
    }
}

/// A generated note never holds more transcript items in a section than
/// that section's cap (five quotes, four of anything else), whatever the
/// user's lines and the evidence found.
pub proof fn law_section_transcript_cap(lines: Seq<Seq<char>>, line_hits: Seq<Vec<SegmentRow>>, section_hits: Seq<Vec<SegmentRow>>, j: int)
    requires
        0 <= j < 5,
    ensures
        transcript_items(placed(user_cands(lines, line_hits) + all_ai_cands(section_hits, 5)).0[j]) <= max_items(
            section_order()[j],
        ),
{
    reveal_strlit("user");
    reveal_strlit("ai");
    let u = user_cands(lines, line_hits);
    let a = all_ai_cands(section_hits, 5);
    lemma_placed_transcript(u + a, j);
    lemma_transcript_cands_concat(u, a, section_order()[j]);
    assert("user"@ != "ai"@) by {
        assert("user"@.len() != "ai"@.len());
    }
    assert forall|i: int| 0 <= i < u.len() implies (#[trigger] u[i]).0 != section_order()[j] || u[i].1.0 != "ai"@ by {}
    lemma_transcript_cands_bounds(u, section_order()[j]);
    lemma_all_ai_cands_cap(section_hits, 5, j);
}

} // verus!
