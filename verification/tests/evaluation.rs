use vidodo::evaluation::{
    ack_tally, patch_safety_issue, patch_tally, summarize, sync_tally, transition_review, EvaluationIssue,
    EvaluationSpan, EventFacts,
};

fn timing_event(event_id: &str, bar: u32) -> EventFacts {
    EventFacts {
        event_id: event_id.to_string(),
        kind: String::from("timing.section.enter"),
        bar,
        ack_status: None,
        patch_fallback_revision: None,
    }
}

fn audio_event(event_id: &str, bar: u32) -> EventFacts {
    EventFacts {
        event_id: event_id.to_string(),
        kind: String::from("audio.launch_asset"),
        bar,
        ack_status: Some(String::from("ok")),
        patch_fallback_revision: None,
    }
}

fn visual_event(event_id: &str, bar: u32) -> EventFacts {
    EventFacts {
        event_id: event_id.to_string(),
        kind: String::from("visual.scene_switch"),
        bar,
        ack_status: Some(String::from("ok")),
        patch_fallback_revision: None,
    }
}

fn patch_event(event_id: &str, bar: u32, ack: Option<&str>, fallback: u64) -> EventFacts {
    EventFacts {
        event_id: event_id.to_string(),
        kind: String::from("patch.applied"),
        bar,
        ack_status: ack.map(String::from),
        patch_fallback_revision: Some(fallback),
    }
}

fn ratio(a: usize, b: usize) -> f64 {
    a as f64 / b as f64
}

#[test]
fn sync_score_is_perfect_when_all_sections_have_events() {
    let events = vec![
        timing_event("evt-001", 1),
        audio_event("evt-002", 1),
        timing_event("evt-003", 9),
        audio_event("evt-004", 9),
    ];
    let (synced, sections) = sync_tally(&events).unwrap();
    assert!((ratio(synced, sections) - 1.0).abs() < f64::EPSILON);
}

#[test]
fn sync_score_drops_when_sections_lack_content_events() {
    let events = vec![timing_event("evt-001", 1), timing_event("evt-003", 9), audio_event("evt-004", 9)];
    let (synced, sections) = sync_tally(&events).unwrap();
    assert!((ratio(synced, sections) - 0.5).abs() < f64::EPSILON);
}

#[test]
fn resource_stability_is_perfect_with_all_ok_acks() {
    let events = vec![audio_event("evt-001", 1), audio_event("evt-002", 9)];
    let (acked, ok) = ack_tally(&events);
    assert!((ratio(ok, acked) - 1.0).abs() < f64::EPSILON);
}

#[test]
fn patch_safety_perfect_when_no_patches() {
    let events = vec![timing_event("evt-001", 1)];
    let (patches, _, _, _) = patch_tally(&events);
    assert_eq!(patches, 0);
}

#[test]
fn sync_tally_needs_a_timing_event() {
    assert_eq!(sync_tally(&vec![audio_event("a", 1)]), None);
    let mut only_timing = timing_event("t", 1);
    only_timing.kind = String::from("timing.tick");
    assert_eq!(sync_tally(&vec![only_timing]), Some((0, 0)));
}

#[test]
fn off_boundary_visual_events_raise_numbered_warnings() {
    let events = vec![
        timing_event("evt-001", 1),
        visual_event("evt-002", 1),
        visual_event("evt-003", 4),
        timing_event("evt-004", 9),
        visual_event("evt-005", 12),
    ];
    let mut next_issue = 7;
    let (aligned, visual, issues) = transition_review(&events, &mut next_issue).unwrap();
    assert_eq!((aligned, visual), (1, 3));
    assert_eq!(next_issue, 9);
    assert_eq!(issues.len(), 2);
    assert_eq!(issues[0].issue_id, "issue-007");
    assert_eq!(issues[0].code, "visual_transition_off_boundary");
    assert_eq!(issues[0].severity, "warning");
    assert_eq!(issues[0].message, "visual event evt-003 at bar 4 is not aligned with a section boundary");
    assert_eq!(issues[0].span, Some(EvaluationSpan { from_bar: 4, to_bar: 5 }));
    assert_eq!(issues[0].evidence_refs, vec!["evt-003".to_string()]);
    assert_eq!(issues[1].issue_id, "issue-008");
}

#[test]
fn transition_review_needs_sections_and_visuals() {
    let mut next_issue = 1;
    assert!(transition_review(&vec![visual_event("v", 2)], &mut next_issue).is_none());
    assert!(transition_review(&vec![timing_event("t", 2)], &mut next_issue).is_none());
    assert_eq!(next_issue, 1);
}

#[test]
fn patch_tally_and_issue_cover_every_patch_event() {
    let events = vec![
        patch_event("p1", 1, Some("ok"), 3),
        timing_event("t", 1),
        patch_event("p2", 2, Some("failed"), 0),
        patch_event("p3", 3, None, 1),
    ];
    assert_eq!(patch_tally(&events), (3, 2, 1, 2));
    let mut next_issue = 1000;
    let issue = patch_safety_issue(&events, &mut next_issue);
    assert_eq!(issue.issue_id, "issue-1000");
    assert_eq!(issue.code, "patch_safety_low");
    assert_eq!(issue.evidence_refs, vec!["p1".to_string(), "p2".to_string(), "p3".to_string()]);
    assert_eq!(next_issue, 1001);
}

fn issue_with(severity: &str) -> EvaluationIssue {
    EvaluationIssue {
        issue_id: String::from("issue-001"),
        code: String::from("c"),
        severity: severity.to_string(),
        message: String::from("m"),
        span: None,
        evidence_refs: vec![],
    }
}

#[test]
fn verdict_follows_the_worst_severity() {
    let clean = summarize(&vec![]);
    assert_eq!(clean.verdict, "clean");
    assert_eq!(clean.recommended_action, "no action needed");
    let warned = summarize(&vec![issue_with("info"), issue_with("warning")]);
    assert_eq!(warned.verdict, "usable_with_patch");
    assert_eq!(warned.recommended_action, "review warnings and consider targeted patches");
    let failed = summarize(&vec![issue_with("warning"), issue_with("error")]);
    assert_eq!(failed.verdict, "needs_revision");
    assert_eq!(failed.recommended_action, "address error-level issues before next run");
}
