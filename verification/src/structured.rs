//! Stored structured meeting notes: the records, how stored items are
//! grouped into sections, and the Markdown forms of a meeting.

use vstd::prelude::*;
use crate::text::{trim, trim_seq, str_eq, seq_join, views, join_strings, i64_pad2, pad2};
use crate::notes::{spec_format_timestamp, format_timestamp, rem_trunc, spec_section_label, section_label};
use crate::ops::div_trunc;

verus! {

/// Transcript evidence attached to a note item.
pub struct StructuredNoteCitation {
    pub segment_id: i64,
    pub ts_ms: i64,
    pub source: String,
    pub excerpt: String,
}

/// A stored note item. The retrieval confidence is carried as the bit
/// pattern of the stored floating-point value.
pub struct StructuredNoteItem {
    pub id: i64,
    pub section_kind: String,
    pub position: i64,
    pub author_kind: String,
    pub text: String,
    pub retrieval_confidence_bits: Option<u64>,
    pub evidence_count: i64,
    pub citations: Vec<StructuredNoteCitation>,
}

/// Items of one section kind, with the section's heading.
pub struct StructuredNoteSection {
    pub kind: String,
    pub label: String,
    pub items: Vec<StructuredNoteItem>,
}

/// The structured note of a meeting as stored.
pub struct StructuredMeetingNote {
    pub meeting_id: String,
    pub template_kind: String,
    pub ownership_scope: String,
    pub summary: String,
    pub generated_at: i64,
    pub updated_at: i64,
    pub sections: Vec<StructuredNoteSection>,
}

/// Heading of a stored section kind; unlike generated notes, stored notes
/// also know a `summary` section.
pub open spec fn spec_stored_section_label(kind: Seq<char>) -> Seq<char> {
    if kind == "summary"@ {
        "Summary"@
    } else {
        spec_section_label(kind)
    }
}

pub fn stored_section_label(kind: &str) -> (r: &'static str)
    ensures
        r@ == spec_stored_section_label(kind@),
{
    if str_eq(kind, "summary") {
        "Summary"
    } else {
        section_label(kind)
    }
}

/// Section kinds of `items` in order of first appearance.
pub open spec fn kinds_in_order(items: Seq<StructuredNoteItem>) -> Seq<Seq<char>>
    decreases items.len(),
{
    if items.len() == 0 {
        Seq::empty()
    } else {
        let prev = kinds_in_order(items.drop_last());
        if prev.contains(items.last().section_kind@) {
            prev
        } else {
            prev.push(items.last().section_kind@)
        }
    }
}

/// The items of one kind, in their original order.
pub open spec fn items_of_kind(items: Seq<StructuredNoteItem>, kind: Seq<char>) -> Seq<StructuredNoteItem>
    decreases items.len(),
{
    if items.len() == 0 {
        Seq::empty()
    } else {
        let prev = items_of_kind(items.drop_last(), kind);
        if items.last().section_kind@ == kind {
            prev.push(items.last())
        } else {
            prev
        }
    }
}

/// `sections` is the grouping of `items`: one section per kind, in order of
/// the kind's first appearance, holding that kind's items in order.
pub open spec fn grouped(items: Seq<StructuredNoteItem>, sections: Seq<StructuredNoteSection>) -> bool {
    let kinds = kinds_in_order(items);
    &&& sections.len() == kinds.len()
    &&& forall|j: int|
        0 <= j < sections.len() ==> {
            &&& (#[trigger] sections[j]).kind@ == kinds[j]
            &&& sections[j].label@ == spec_stored_section_label(kinds[j])
            &&& sections[j].items@ == items_of_kind(items, kinds[j])
        }
}

proof fn lemma_kinds_distinct(items: Seq<StructuredNoteItem>)
    ensures
        forall|a: int, b: int|
            0 <= a < b < kinds_in_order(items).len() ==> kinds_in_order(items)[a] != kinds_in_order(items)[b],
    decreases items.len(),
{
    if items.len() > 0 {
        let prev = kinds_in_order(items.drop_last());
        lemma_kinds_distinct(items.drop_last());
        if !prev.contains(items.last().section_kind@) {
            assert forall|a: int, b: int|
                0 <= a < b < kinds_in_order(items).len() implies kinds_in_order(items)[a] != kinds_in_order(items)[b] by {
                if b == prev.len() {
                    assert(prev[a] != items.last().section_kind@);
                }
            }
        }
    }
}

/// Groups stored items (already in position order) into sections.
pub fn group_note_items(items: Vec<StructuredNoteItem>) -> (sections: Vec<StructuredNoteSection>)
    ensures
        grouped(items@, sections@),
{
    let ghost all = items@;
    let mut sections: Vec<StructuredNoteSection> = Vec::new();
    for item in it: items
        invariant
            it.seq() == all,
            grouped(all.subrange(0, it.index() as int), sections@),
    {
        let ghost prefix = all.subrange(0, it.index() as int);
        let ghost next = all.subrange(0, it.index() + 1);
        proof {
            assert(next.drop_last() =~= prefix);
            assert(next.last() == item);
            lemma_kinds_distinct(prefix);
        }
        let mut j: usize = 0;
        let mut found = false;
        while j < sections.len() && !found
            invariant
                j <= sections@.len(),
                found ==> j < sections@.len() && sections@[j as int].kind@ == item.section_kind@,
                forall|k: int| 0 <= k < j ==> (#[trigger] sections@[k]).kind@ != item.section_kind@,
            decreases sections@.len() - j + (if found { 0int } else { 1int }),
        {
            if str_eq(sections[j].kind.as_str(), item.section_kind.as_str()) {
                found = true;
            } else {
                j += 1;
            }
        }
        if found {
            let ghost before = sections@;
            assert(kinds_in_order(prefix).contains(item.section_kind@)) by {
                assert(kinds_in_order(prefix)[j as int] == item.section_kind@);
            }
            sections[j].items.push(item);
            proof {
                assert(kinds_in_order(next) == kinds_in_order(prefix));
                assert forall|k: int| 0 <= k < sections@.len() implies {
                    &&& (#[trigger] sections@[k]).kind@ == kinds_in_order(next)[k]
                    &&& sections@[k].label@ == spec_stored_section_label(kinds_in_order(next)[k])
                    &&& sections@[k].items@ == items_of_kind(next, kinds_in_order(next)[k])
                } by {
                    if k != j {
                        assert(sections@[k] == before[k]);
                    }
                }
            }
        } else {
            let ghost before = sections@;
            assert(!kinds_in_order(prefix).contains(item.section_kind@)) by {
                if kinds_in_order(prefix).contains(item.section_kind@) {
                    let k = choose|k: int| 0 <= k < kinds_in_order(prefix).len() && kinds_in_order(prefix)[k] == item.section_kind@;
                    assert(sections@[k].kind@ == item.section_kind@);
                }
            }
            let kind = crate::text::to_owned_string(item.section_kind.as_str());
            let label = String::from_str(stored_section_label(item.section_kind.as_str()));
            let mut list: Vec<StructuredNoteItem> = Vec::new();
            list.push(item);
            sections.push(StructuredNoteSection { kind, label, items: list });
            proof {
                assert(items_of_kind(prefix, item.section_kind@).len() == 0) by {
                    lemma_absent_kind_empty(prefix, item.section_kind@);
                }
                assert(items_of_kind(prefix, item.section_kind@) =~= Seq::<StructuredNoteItem>::empty());
                assert forall|k: int| 0 <= k < sections@.len() implies {
                    &&& (#[trigger] sections@[k]).kind@ == kinds_in_order(next)[k]
                    &&& sections@[k].label@ == spec_stored_section_label(kinds_in_order(next)[k])
                    &&& sections@[k].items@ == items_of_kind(next, kinds_in_order(next)[k])
                } by {
                    if k < before.len() {
                        assert(sections@[k] == before[k]);
                    } else {
                        assert(sections@[k].items@ =~= seq![item]);
                    }
                }
            }
        }
    }
    proof {
        assert(all.subrange(0, all.len() as int) =~= all);
    }
    sections
}

proof fn lemma_absent_kind_empty(items: Seq<StructuredNoteItem>, kind: Seq<char>)
    requires
        !kinds_in_order(items).contains(kind),
    ensures
        items_of_kind(items, kind).len() == 0,
    decreases items.len(),
{
    if items.len() > 0 {
        let prev = kinds_in_order(items.drop_last());
        if prev.contains(kind) {
            let k = choose|k: int| 0 <= k < prev.len() && prev[k] == kind;
            assert(kinds_in_order(items).contains(kind)) by {
                if !prev.contains(items.last().section_kind@) {
                    assert(kinds_in_order(items)[k] == kind);
                }
            }
        }
        if items.last().section_kind@ == kind {
            if prev.contains(kind) {
            } else {
                assert(kinds_in_order(items).last() == kind);
                assert(kinds_in_order(items).contains(kind));
            }
        }
        lemma_absent_kind_empty(items.drop_last(), kind);
    }
}

/// Number of items over all sections.
pub open spec fn total_items(sections: Seq<StructuredNoteSection>) -> nat
    decreases sections.len(),
{
    if sections.len() == 0 {
        0
    } else {
        total_items(sections.drop_last()) + sections.last().items@.len()
    }
}

/// Number of items of each of `kinds`, added up.
spec fn count_sum(items: Seq<StructuredNoteItem>, kinds: Seq<Seq<char>>) -> nat
    decreases kinds.len(),
{
    if kinds.len() == 0 {
        0
    } else {
        count_sum(items, kinds.drop_last()) + items_of_kind(items, kinds.last()).len()
    }
}

proof fn lemma_count_sum_push(items: Seq<StructuredNoteItem>, x: StructuredNoteItem, kinds: Seq<Seq<char>>)
    requires
        forall|a: int, b: int| 0 <= a < b < kinds.len() ==> kinds[a] != kinds[b],
    ensures
        count_sum(items.push(x), kinds) == count_sum(items, kinds) + (if kinds.contains(x.section_kind@) { 1nat } else { 0nat }),
    decreases kinds.len(),
{
    if kinds.len() > 0 {
        let ks = kinds.drop_last();
        lemma_count_sum_push(items, x, ks);
        assert(items.push(x).drop_last() =~= items);
        if kinds.last() == x.section_kind@ {
            assert(!ks.contains(x.section_kind@)) by {
                if ks.contains(x.section_kind@) {
                    let a = choose|a: int| 0 <= a < ks.len() && ks[a] == x.section_kind@;
                    assert(kinds[a] == kinds[kinds.len() - 1]);
                }
            }
            assert(kinds.contains(x.section_kind@)) by {
                assert(kinds[kinds.len() - 1] == x.section_kind@);
            }
        } else {
            assert(ks.contains(x.section_kind@) == kinds.contains(x.section_kind@)) by {
                if kinds.contains(x.section_kind@) {
                    let a = choose|a: int| 0 <= a < kinds.len() && kinds[a] == x.section_kind@;
                    assert(ks[a] == x.section_kind@);
                }
                if ks.contains(x.section_kind@) {
                    let a = choose|a: int| 0 <= a < ks.len() && ks[a] == x.section_kind@;
                    assert(kinds[a] == x.section_kind@);
                }
            }
        }
    }
}

proof fn lemma_count_sum_all(items: Seq<StructuredNoteItem>)
    ensures
        count_sum(items, kinds_in_order(items)) == items.len(),
    decreases items.len(),
{
    if items.len() > 0 {
        let p = items.drop_last();
        let x = items.last();
        assert(p.push(x) =~= items);
        lemma_count_sum_all(p);
        lemma_kinds_distinct(p);
        lemma_count_sum_push(p, x, kinds_in_order(p));
        if !kinds_in_order(p).contains(x.section_kind@) {
            lemma_absent_kind_empty(p, x.section_kind@);
            let kinds = kinds_in_order(items);
            assert(kinds.drop_last() =~= kinds_in_order(p));
        }
    }
}

proof fn lemma_total_prefix(items: Seq<StructuredNoteItem>, sections: Seq<StructuredNoteSection>, n: int)
    requires
        grouped(items, sections),
        0 <= n <= sections.len(),
    ensures
        total_items(sections.take(n)) == count_sum(items, kinds_in_order(items).take(n)),
    decreases n,
{
    if n > 0 {
        lemma_total_prefix(items, sections, n - 1);
        assert(sections.take(n).drop_last() =~= sections.take(n - 1));
        assert(kinds_in_order(items).take(n).drop_last() =~= kinds_in_order(items).take(n - 1));
        assert(sections[n - 1].kind@ == kinds_in_order(items)[n - 1]);
    }
}

proof fn lemma_item_in_its_kind(items: Seq<StructuredNoteItem>, i: int)
    requires
        0 <= i < items.len(),
    ensures
        kinds_in_order(items).contains(items[i].section_kind@),
        items_of_kind(items, items[i].section_kind@).contains(items[i]),
    decreases items.len(),
{
    let p = items.drop_last();
    let k = items[i].section_kind@;
    if i == items.len() - 1 {
        let q = items_of_kind(items, k);
        assert(q.last() == items[i]);
        assert(q.contains(items[i]));
        if !kinds_in_order(p).contains(k) {
            assert(kinds_in_order(items).last() == k);
        }
    } else {
        lemma_item_in_its_kind(p, i);
        assert(p[i] == items[i]);
        let j = choose|j: int| 0 <= j < kinds_in_order(p).len() && kinds_in_order(p)[j] == k;
        assert(kinds_in_order(items)[j] == k);
        let m = choose|m: int| 0 <= m < items_of_kind(p, k).len() && items_of_kind(p, k)[m] == items[i];
        assert(items_of_kind(items, k)[m] == items[i]);
    }
}

/// Grouping keeps every stored item exactly once: the sections hold as
/// many items as were stored, and each item is in the section of its kind.
pub proof fn law_grouping_keeps_every_item(items: Seq<StructuredNoteItem>, sections: Seq<StructuredNoteSection>)
    requires
        grouped(items, sections),
    ensures
        total_items(sections) == items.len(),
        forall|i: int|
            0 <= i < items.len() ==> exists|j: int|
                0 <= j < sections.len() && (#[trigger] sections[j]).kind@ == (#[trigger] items[i]).section_kind@
                    && sections[j].items@.contains(items[i]),
{
    lemma_total_prefix(items, sections, sections.len() as int);
    assert(sections.take(sections.len() as int) =~= sections);
    assert(kinds_in_order(items).take(sections.len() as int) =~= kinds_in_order(items));
    lemma_count_sum_all(items);
    assert forall|i: int| 0 <= i < items.len() implies exists|j: int|
        0 <= j < sections.len() && (#[trigger] sections[j]).kind@ == (#[trigger] items[i]).section_kind@
            && sections[j].items@.contains(items[i]) by {
        lemma_item_in_its_kind(items, i);
        let k = items[i].section_kind@;
        let j = choose|j: int| 0 <= j < kinds_in_order(items).len() && kinds_in_order(items)[j] == k;
        assert(sections[j].kind@ == k);
    }
}

/// A transcript segment as stored; the recognizer's confidence is carried
/// as the bit pattern of the stored floating-point value.
pub struct SegmentRow {
    pub id: i64,
    pub source: String,
    pub ts_ms: i64,
    pub text: String,
    pub confidence_bits: Option<u64>,
}

/// `mm:ss` stamps of the citations, in order.
pub open spec fn cite_stamps(c: Seq<StructuredNoteCitation>) -> Seq<Seq<char>> {
    Seq::new(c.len(), |i: int| spec_format_timestamp(c[i].ts_ms))
}

/// A bullet for an item: its text, then its citation stamps in brackets
/// when it has any.
pub open spec fn item_line(it: StructuredNoteItem) -> Seq<char> {
    "- "@ + it.text@ + (if it.citations@.len() == 0 {
        Seq::<char>::empty()
    } else {
        " ["@ + seq_join(cite_stamps(it.citations@), ", "@) + "]"@
    }) + "\n"@
}

pub open spec fn item_lines(items: Seq<StructuredNoteItem>) -> Seq<char>
    decreases items.len(),
{
    if items.len() == 0 {
        Seq::empty()
    } else {
        item_lines(items.drop_last()) + item_line(items.last())
    }
}

/// A section: heading, then its bullets and a blank line, or `- (none)`.
pub open spec fn section_block(heading: Seq<char>, items: Seq<StructuredNoteItem>) -> Seq<char> {
    heading + "\n\n"@ + (if items.len() == 0 {
        "- (none)\n\n"@
    } else {
        item_lines(items) + "\n"@
    })
}

/// Sections under `##` headings named after their kinds.
pub open spec fn rendered_sections(sections: Seq<StructuredNoteSection>) -> Seq<char>
    decreases sections.len(),
{
    if sections.len() == 0 {
        Seq::empty()
    } else {
        rendered_sections(sections.drop_last()) + section_block(
            "## "@ + spec_section_label(sections.last().kind@),
            sections.last().items@,
        )
    }
}

/// Sections under `###` headings taken from their stored labels.
pub open spec fn exported_sections(sections: Seq<StructuredNoteSection>) -> Seq<char>
    decreases sections.len(),
{
    if sections.len() == 0 {
        Seq::empty()
    } else {
        exported_sections(sections.drop_last()) + section_block(
            "### "@ + sections.last().label@,
            sections.last().items@,
        )
    }
}

/// Only white space.
pub open spec fn blank(s: Seq<char>) -> bool {
    trim_seq(s).len() == 0
}

fn is_blank(s: &str) -> (r: bool)
    ensures
        r == blank(s@),
{
    let t = trim(s);
    t.as_str().is_empty()
}

fn citation_stamps(c: &Vec<StructuredNoteCitation>) -> (r: String)
    ensures
        r@ == seq_join(cite_stamps(c@), ", "@),
{
    let mut stamps: Vec<String> = Vec::new();
    let mut i: usize = 0;
    while i < c.len()
        invariant
            i <= c@.len(),
            views(stamps@) =~= cite_stamps(c@).subrange(0, i as int),
        decreases c@.len() - i,
    {
        let stamp = format_timestamp(c[i].ts_ms);
        let ghost before = stamps@;
        stamps.push(stamp);
        proof {
            assert(stamps@ =~= before.push(stamp));
            assert(views(stamps@) =~= views(before).push(stamp@));
        }
        i += 1;
    }
    assert(cite_stamps(c@).subrange(0, c@.len() as int) =~= cite_stamps(c@));
    join_strings(stamps.as_slice(), ", ")
}

fn append_item_lines(out: &mut String, items: &Vec<StructuredNoteItem>)
    ensures
        final(out)@ == old(out)@ + item_lines(items@),
{
    let ghost start = out@;
    let mut i: usize = 0;
    while i < items.len()
        invariant
            i <= items@.len(),
            out@ == start + item_lines(items@.subrange(0, i as int)),
        decreases items@.len() - i,
    {
        let ghost before = out@;
        let item = &items[i];
        out.append("- ");
        out.append(item.text.as_str());
        if item.citations.len() > 0 {
            let refs = citation_stamps(&item.citations);
            out.append(" [");
            out.append(refs.as_str());
            out.append("]");
        }
        out.append("\n");
        proof {
            let next = items@.subrange(0, i + 1);
            assert(next.drop_last() =~= items@.subrange(0, i as int));
            assert(out@ =~= before + item_line(items@[i as int]));
            assert(out@ =~= start + item_lines(next));
        }
        i += 1;
    }
    assert(items@.subrange(0, items@.len() as int) =~= items@);
}

fn append_section(out: &mut String, heading_mark: &str, label: &str, items: &Vec<StructuredNoteItem>)
    ensures
        final(out)@ == old(out)@ + section_block(heading_mark@ + label@, items@),
{
    let ghost start = out@;
    out.append(heading_mark);
    out.append(label);
    out.append("\n\n");
    if items.len() == 0 {
        out.append("- (none)\n\n");
    } else {
        append_item_lines(out, items);
        out.append("\n");
    }
    assert(out@ =~= start + section_block(heading_mark@ + label@, items@));
}

/// The Markdown of a structured note: its summary, then each section with
/// its items and their citation stamps.
pub open spec fn spec_render_markdown(note: StructuredMeetingNote) -> Seq<char> {
    "# Meeting Notes\n\n"@ + "## Summary\n\n"@ + (if blank(note.summary@) {
        "- (no summary generated)\n\n"@
    } else {
        note.summary@ + "\n\n"@
    }) + rendered_sections(note.sections@)
}

pub fn render_markdown(note: &StructuredMeetingNote) -> (md: String)
    ensures
        md@ == spec_render_markdown(*note),
{
    let mut out = String::from_str("# Meeting Notes\n\n");
    out.append("## Summary\n\n");
    if is_blank(note.summary.as_str()) {
        out.append("- (no summary generated)\n\n");
    } else {
        out.append(note.summary.as_str());
        out.append("\n\n");
    }
    let ghost head = out@;
    let mut i: usize = 0;
    while i < note.sections.len()
        invariant
            i <= note.sections@.len(),
            out@ == head + rendered_sections(note.sections@.subrange(0, i as int)),
        decreases note.sections@.len() - i,
    {
        let section = &note.sections[i];
        append_section(&mut out, "## ", section_label(section.kind.as_str()), &section.items);
        proof {
            let next = note.sections@.subrange(0, i + 1);
            assert(next.drop_last() =~= note.sections@.subrange(0, i as int));
        }
        i += 1;
    }
    assert(note.sections@.subrange(0, note.sections@.len() as int) =~= note.sections@);
    out
}

/// A transcript line: `[mm:ss] [source] text`.
pub open spec fn spec_format_segment(seg: SegmentRow) -> Seq<char> {
    "["@ + spec_format_timestamp(seg.ts_ms) + "] ["@ + seg.source@ + "] "@ + seg.text@
}

pub fn format_segment(seg: &SegmentRow) -> (r: String)
    ensures
        r@ == spec_format_segment(*seg),
{
    let mut out = String::from_str("[");
    let stamp = format_timestamp(seg.ts_ms);
    out.append(stamp.as_str());
    out.append("] [");
    out.append(seg.source.as_str());
    out.append("] ");
    out.append(seg.text.as_str());
    out
}

/// A bullet for a user note; a note that already ends in a line break
/// gets no second one.
pub open spec fn note_line(n: Seq<char>) -> Seq<char> {
    "- "@ + n + (if n.len() > 0 && n.last() == '\n' { Seq::<char>::empty() } else { "\n"@ })
}

pub open spec fn note_lines(notes: Seq<Seq<char>>) -> Seq<char>
    decreases notes.len(),
{
    if notes.len() == 0 {
        Seq::empty()
    } else {
        note_lines(notes.drop_last()) + note_line(notes.last())
    }
}

pub open spec fn segment_lines(segs: Seq<SegmentRow>) -> Seq<char>
    decreases segs.len(),
{
    if segs.len() == 0 {
        Seq::empty()
    } else {
        segment_lines(segs.drop_last()) + "- "@ + spec_format_segment(segs.last()) + "\n"@
    }
}

fn ends_with_newline(s: &str) -> (r: bool)
    ensures
        r == (s@.len() > 0 && s@.last() == '\n'),
{
    let v = crate::text::chars_vec(s);
    v.len() > 0 && v[v.len() - 1] == '\n'
}

fn append_note_lines(out: &mut String, notes: &[String])
    ensures
        final(out)@ == old(out)@ + note_lines(views(notes@)),
{
    let ghost start = out@;
    let mut i: usize = 0;
    while i < notes.len()
        invariant
            i <= notes@.len(),
            out@ == start + note_lines(views(notes@.subrange(0, i as int))),
        decreases notes@.len() - i,
    {
        let ghost before = out@;
        out.append("- ");
        out.append(notes[i].as_str());
        if !ends_with_newline(notes[i].as_str()) {
            out.append("\n");
        }
        proof {
            let next = views(notes@.subrange(0, i + 1));
            assert(next.drop_last() =~= views(notes@.subrange(0, i as int)));
            assert(next.last() == notes@[i as int]@);
            assert(out@ =~= before + note_line(notes@[i as int]@));
        }
        i += 1;
    }
    assert(notes@.subrange(0, notes@.len() as int) =~= notes@);
}

fn append_segment_lines(out: &mut String, segs: &[SegmentRow])
    ensures
        final(out)@ == old(out)@ + segment_lines(segs@),
{
    let ghost start = out@;
    let mut i: usize = 0;
    while i < segs.len()
        invariant
            i <= segs@.len(),
            out@ == start + segment_lines(segs@.subrange(0, i as int)),
        decreases segs@.len() - i,
    {
        let ghost before = out@;
        out.append("- ");
        let line = format_segment(&segs[i]);
        out.append(line.as_str());
        out.append("\n");
        proof {
            let next = segs@.subrange(0, i + 1);
            assert(next.drop_last() =~= segs@.subrange(0, i as int));
            assert(out@ =~= before + "- "@ + spec_format_segment(segs@[i as int]) + "\n"@);
        }
        i += 1;
    }
    assert(segs@.subrange(0, segs@.len() as int) =~= segs@);
}

/// The notes document written when a capture ends: the user's notes as
/// key points, then the transcript.
pub open spec fn spec_meeting_notes_markdown(notes: Seq<Seq<char>>, segs: Seq<SegmentRow>) -> Seq<char> {
    "# Meeting Notes\n\n"@ + "## Key points\n\n"@ + (if notes.len() == 0 {
        "- (no notes taken during meeting)\n"@
    } else {
        note_lines(notes)
    }) + "\n## Transcript\n\n"@ + (if segs.len() == 0 {
        "- (no transcript captured)\n"@
    } else {
        segment_lines(segs)
    })
}

pub fn meeting_notes_markdown(notes: &[String], segments: &[SegmentRow]) -> (md: String)
    ensures
        md@ == spec_meeting_notes_markdown(views(notes@), segments@),
{
    let mut md = String::from_str("# Meeting Notes\n\n");
    md.append("## Key points\n\n");
    if notes.len() == 0 {
        md.append("- (no notes taken during meeting)\n");
    } else {
        append_note_lines(&mut md, notes);
    }
    md.append("\n## Transcript\n\n");
    if segments.len() == 0 {
        md.append("- (no transcript captured)\n");
    } else {
        append_segment_lines(&mut md, segments);
    }
    md
}

/// The structured-note part of an export.
pub open spec fn export_structured_part(structured: Option<StructuredMeetingNote>) -> Seq<char> {
    match structured {
        Some(note) => "## Structured Notes\n\n"@ + (if blank(note.summary@) {
            "- (no structured summary)\n"@
        } else {
            note.summary@ + "\n\n"@
        }) + exported_sections(note.sections@) + "## User Notes\n\n"@,
        None => "## Notes\n\n"@,
    }
}

/// The user notes and transcript part of an export.
pub open spec fn export_tail(notes: Seq<Seq<char>>, segs: Seq<SegmentRow>) -> Seq<char> {
    (if notes.len() == 0 {
        "- (no notes)\n"@
    } else {
        note_lines(notes)
    }) + "\n## Transcript\n\n"@ + (if segs.len() == 0 {
        "- (no transcript)\n"@
    } else {
        segment_lines(segs)
    })
}

/// The export document of a meeting: its structured note when there is
/// one, the user's notes, and the transcript.
pub open spec fn spec_export_markdown(
    meeting_id: Seq<char>,
    notes: Seq<Seq<char>>,
    structured: Option<StructuredMeetingNote>,
    segs: Seq<SegmentRow>,
) -> Seq<char> {
    "# Audire Export\n\n"@ + "Meeting: `"@ + meeting_id + "`\n\n"@ + export_structured_part(structured)
        + export_tail(notes, segs)
}

fn append_structured_part(md: &mut String, structured: Option<&StructuredMeetingNote>)
    ensures
        final(md)@ == old(md)@ + export_structured_part(match structured { Some(n) => Some(*n), None => None }),
{
    let ghost start = md@;
    match structured {
        Some(note) => {
            md.append("## Structured Notes\n\n");
            if is_blank(note.summary.as_str()) {
                md.append("- (no structured summary)\n");
            } else {
                md.append(note.summary.as_str());
                md.append("\n\n");
            }
            let ghost head = md@;
            let mut i: usize = 0;
            while i < note.sections.len()
                invariant
                    i <= note.sections@.len(),
                    md@ == head + exported_sections(note.sections@.subrange(0, i as int)),
                decreases note.sections@.len() - i,
            {
                let section = &note.sections[i];
                append_section(md, "### ", section.label.as_str(), &section.items);
                proof {
                    let next = note.sections@.subrange(0, i + 1);
                    assert(next.drop_last() =~= note.sections@.subrange(0, i as int));
                }
                i += 1;
            }
            assert(note.sections@.subrange(0, note.sections@.len() as int) =~= note.sections@);
            md.append("## User Notes\n\n");
            assert(md@ =~= start + export_structured_part(Some(*note)));
        },
        None => {
            md.append("## Notes\n\n");
        },
    }
}

fn append_export_tail(md: &mut String, notes: &[String], segments: &[SegmentRow])
    ensures
        final(md)@ == old(md)@ + export_tail(views(notes@), segments@),
{
    let ghost start = md@;
    if notes.len() == 0 {
        md.append("- (no notes)\n");
    } else {
        append_note_lines(md, notes);
    }
    md.append("\n## Transcript\n\n");
    if segments.len() == 0 {
        md.append("- (no transcript)\n");
    } else {
        append_segment_lines(md, segments);
    }
    assert(md@ =~= start + export_tail(views(notes@), segments@));
}

pub fn export_markdown(
    meeting_id: &str,
    notes: &[String],
    structured: Option<&StructuredMeetingNote>,
    segments: &[SegmentRow],
) -> (md: String)
    ensures
        md@ == spec_export_markdown(
            meeting_id@,
            views(notes@),
            match structured { Some(n) => Some(*n), None => None },
            segments@,
        ),
{
    let mut md = String::from_str("# Audire Export\n\n");
    md.append("Meeting: `");
    md.append(meeting_id);
    md.append("`\n\n");
    append_structured_part(&mut md, structured);
    append_export_tail(&mut md, notes, segments);
    md
}

} // verus!
