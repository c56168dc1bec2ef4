use audire::generate::{assemble_structured_note, section_queries, DraftConfidence};
use audire::notes::{
    citation_query, classify_user_line, excerpt, extract_user_note_lines, format_timestamp, keyword_query,
    normalize_template_kind, section_label, template_options, template_query, NoteRow,
};
use audire::retrieval::{ask_answer, map_segment_hit, plan_ask, AskPlan, SegmentSearchHit};
use audire::structured::{
    export_markdown, group_note_items, meeting_notes_markdown, render_markdown, SegmentRow, StructuredMeetingNote,
    StructuredNoteCitation, StructuredNoteItem,
};

fn seg(id: i64, ts_ms: i64, text: &str, confidence: Option<f64>) -> SegmentRow {
    SegmentRow {
        id,
        source: "SYS".to_string(),
        ts_ms,
        text: text.to_string(),
        confidence_bits: confidence.map(|c| c.to_bits()),
    }
}

fn note(id: i64, text: &str) -> NoteRow {
    NoteRow { id, meeting_id: "m1".to_string(), ts_ms: 0, text: text.to_string() }
}

#[test]
fn generates_structured_notes_with_user_and_ai_items() {
    let ts = 1_700_000_000_000i64;
    let s1 = seg(1, ts, "We decided to ship the pilot next Friday and Sam will send the rollout plan.", Some(0.91));
    let s2 = seg(2, ts + 1000, "The blocker is incomplete legal review for the client agreement.", Some(0.88));
    let rows = vec![note(1, "Decision: ship pilot next Friday"), note(2, "Action: Sam sends rollout plan")];
    let template = normalize_template_kind(Some("client_review"));
    let lines = extract_user_note_lines(&rows);
    // What the transcript search finds for each line's keywords.
    let line_hits: Vec<Vec<SegmentRow>> = lines
        .iter()
        .map(|line| match citation_query(line) {
            Some(_) => vec![seg(1, ts, &s1.text, Some(0.91))],
            None => Vec::new(),
        })
        .collect();
    // What the search finds for each section's query: only the risks query
    // matches the second segment.
    let section_hits = vec![Vec::new(), Vec::new(), Vec::new(), vec![seg(2, ts + 1000, &s2.text, Some(0.88))], Vec::new()];
    let note = assemble_structured_note(&template, &lines, &line_hits, &section_hits, &[s1, s2]);
    assert_eq!(note.template_kind, "client_review");
    assert!(note.sections.iter().any(|s| !s.items.is_empty()));
    assert!(note.sections.iter().flat_map(|s| s.items.iter()).any(|item| item.author_kind == "user"));
    assert!(note.sections.iter().flat_map(|s| s.items.iter()).any(|item| !item.citations.is_empty()));
}

#[test]
fn ask_returns_grounded_citations() {
    let query = "What was decided about launch?";
    let plan = plan_ask(query, "folder", None, Some(1));
    let folder_id = match plan {
        AskPlan::Global { folder_id, text_query, .. } => {
            assert_eq!(text_query, query);
            folder_id
        }
        _ => panic!("a folder question searches across meetings"),
    };
    assert_eq!(folder_id, Some(1));
    let hit = SegmentSearchHit {
        meeting_id: "m1".to_string(),
        meeting_title: None,
        folder_id: Some(1),
        folder_name: Some("Roadmap".to_string()),
        segment: seg(1, 1000, "We decided to delay launch until legal approves the contract.", Some(0.9)),
    };
    let resp = ask_answer(query, vec![map_segment_hit(hit)]);
    assert!(!resp.citations.is_empty());
    assert!(resp.answer.contains("Grounded answer"));
}

#[test]
fn test_notes_and_generate() {
    let mut notes = vec!["discuss roadmap".to_string()];
    let segments = vec![seg(1, 0, "let us discuss the roadmap", None)];
    let md = meeting_notes_markdown(&notes, &segments);
    notes.push(md);
    assert!(notes.len() >= 2);
    assert!(notes.last().unwrap().contains("# Meeting Notes"));
}

#[test]
fn meeting_notes_markdown_layout() {
    let md = meeting_notes_markdown(&["first".to_string(), "second\n".to_string()], &[seg(1, 61_000, "hi", None)]);
    assert_eq!(md, "# Meeting Notes\n\n## Key points\n\n- first\n- second\n\n## Transcript\n\n- [01:01] [SYS] hi\n");
    let empty = meeting_notes_markdown(&[], &[]);
    assert_eq!(empty, "# Meeting Notes\n\n## Key points\n\n- (no notes taken during meeting)\n\n## Transcript\n\n- (no transcript captured)\n");
}

#[test]
fn keyword_queries() {
    assert_eq!(keyword_query("Decision: ship pilot next Friday"), "decision OR ship OR pilot OR next OR friday");
    assert_eq!(keyword_query("the and with from that this"), "");
    assert_eq!(keyword_query("one two three four five six seven eight"), "three OR four OR five OR seven OR eight");
    assert_eq!(citation_query("a b c"), None);
    assert_eq!(audire::retrieval::keyword_query("What was decided about launch?"), "what OR was OR decided OR about OR launch");
}

#[test]
fn note_lines_are_cleaned() {
    let rows = vec![note(1, "# Meeting Notes\n- - first point\r\n\n  second  \n# Summary here"), note(2, "third")];
    let lines = extract_user_note_lines(&rows);
    assert_eq!(lines, vec!["first point".to_string(), "second".to_string(), "third".to_string()]);
}

#[test]
fn lines_are_classified_by_keyword_order() {
    assert_eq!(classify_user_line("We DECIDED to go"), "key_decisions");
    assert_eq!(classify_user_line("todo: send deck"), "action_items");
    assert_eq!(classify_user_line("is this clear?"), "open_questions");
    assert_eq!(classify_user_line("launch delay"), "risks_blockers");
    assert_eq!(classify_user_line("great demo"), "quotes_highlights");
}

#[test]
fn excerpts_collapse_space_and_cut() {
    assert_eq!(excerpt("  a   b \n c ", 10), "a b c");
    assert_eq!(excerpt("hello world", 6), "hello...");
    assert_eq!(excerpt("hello world", 11), "hello world");
}

#[test]
fn timestamps_are_minutes_and_seconds() {
    assert_eq!(format_timestamp(0), "00:00");
    assert_eq!(format_timestamp(61_000), "01:01");
    assert_eq!(format_timestamp(3_600_000 + 5_000), "00:05");
    assert_eq!(format_timestamp(-61_000), "-1:-1");
}

#[test]
fn templates_and_queries() {
    let opts = template_options();
    assert_eq!(opts.len(), 6);
    assert_eq!(opts[2].label, "1:1");
    assert_eq!(normalize_template_kind(Some("  Sales_Call ")), "sales_call");
    assert_eq!(normalize_template_kind(Some("unknown")), "generic");
    assert_eq!(normalize_template_kind(None), "generic");
    assert_eq!(template_query("standup", "risks_blockers"), "blocker OR blocked OR dependency OR risk");
    assert_eq!(template_query("generic", "quotes_highlights"), "important OR highlight OR notable OR quote");
    assert_eq!(template_query("generic", "other"), "important");
    assert_eq!(section_queries("interview")[0], "decision OR recommend OR pass OR hire");
    assert_eq!(section_label("risks_blockers"), "Risks / blockers");
    assert_eq!(section_label("summary"), "Notes");
}

#[test]
fn repeated_items_are_placed_once() {
    let lines = vec!["Decision: ship it".to_string(), "decision:   SHIP it".to_string()];
    let note = assemble_structured_note("generic", &lines, &[], &[], &[]);
    assert_eq!(note.sections[0].items.len(), 1);
    assert_eq!(note.sections[0].items[0].position, 0);
    assert!(matches!(note.sections[0].items[0].confidence, DraftConfidence::Absent));
    assert_eq!(note.summary, "Human notes led the outline: Decision: ship it decision:   SHIP it");
}

#[test]
fn transcript_items_are_capped_and_quoted() {
    let hits: Vec<SegmentRow> = (0..7).map(|i| seg(i, i * 1000, &format!("quote number {}", i), None)).collect();
    let section_hits = vec![Vec::new(), Vec::new(), Vec::new(), Vec::new(), hits];
    let note = assemble_structured_note("generic", &[], &[], &section_hits, &[]);
    assert_eq!(note.sections[4].kind, "quotes_highlights");
    assert_eq!(note.sections[4].items.len(), 5);
    assert_eq!(note.sections[4].items[1].text, "\"quote number 1\"");
    assert_eq!(note.sections[4].items[4].position, 4);
    assert!(matches!(note.sections[4].items[0].confidence, DraftConfidence::Segment(None)));
    assert_eq!(note.summary, "No transcript or notes were available to generate a structured summary.");
}

fn item(id: i64, kind: &str, text: &str, ts: Option<i64>) -> StructuredNoteItem {
    StructuredNoteItem {
        id,
        section_kind: kind.to_string(),
        position: 0,
        author_kind: "user".to_string(),
        text: text.to_string(),
        retrieval_confidence_bits: None,
        evidence_count: ts.map(|_| 1).unwrap_or(0),
        citations: ts
            .map(|t| vec![StructuredNoteCitation { segment_id: 1, ts_ms: t, source: "SYS".to_string(), excerpt: "e".to_string() }])
            .unwrap_or_default(),
    }
}

#[test]
fn stored_items_group_by_first_appearance() {
    let items = vec![
        item(1, "action_items", "a", None),
        item(2, "key_decisions", "b", None),
        item(3, "action_items", "c", None),
        item(4, "summary", "d", None),
    ];
    let sections = group_note_items(items);
    assert_eq!(sections.len(), 3);
    assert_eq!(sections[0].kind, "action_items");
    assert_eq!(sections[0].label, "Action items");
    assert_eq!(sections[0].items.len(), 2);
    assert_eq!(sections[0].items[1].id, 3);
    assert_eq!(sections[2].label, "Summary");
}

#[test]
fn rendered_and_exported_markdown() {
    let sections = group_note_items(vec![item(1, "key_decisions", "Ship", Some(65_000)), item(2, "risks_blockers", "Legal", None)]);
    let note = StructuredMeetingNote {
        meeting_id: "m1".to_string(),
        template_kind: "generic".to_string(),
        ownership_scope: "local_only".to_string(),
        summary: "  ".to_string(),
        generated_at: 0,
        updated_at: 0,
        sections,
    };
    let md = render_markdown(&note);
    assert_eq!(
        md,
        "# Meeting Notes\n\n## Summary\n\n- (no summary generated)\n\n## Key decisions\n\n- Ship [01:05]\n\n## Risks / blockers\n\n- Legal\n\n"
    );
    let exported = export_markdown("m1", &[], Some(&note), &[]);
    assert_eq!(
        exported,
        "# Audire Export\n\nMeeting: `m1`\n\n## Structured Notes\n\n- (no structured summary)\n### Key decisions\n\n- Ship [01:05]\n\n### Risks / blockers\n\n- Legal\n\n## User Notes\n\n- (no notes)\n\n## Transcript\n\n- (no transcript)\n"
    );
    let plain = export_markdown("m2", &["n".to_string()], None, &[seg(1, 0, "t", None)]);
    assert_eq!(plain, "# Audire Export\n\nMeeting: `m2`\n\n## Notes\n\n- n\n\n## Transcript\n\n- [00:00] [SYS] t\n");
}
