use vidodo::runtimes::{process_lighting_events, process_visual_events, PayloadFacts, RuntimeEventFacts};

fn make_lighting_event(event_id: &str, bar: u32, cue_set_id: &str, source_ref: &str) -> RuntimeEventFacts {
    RuntimeEventFacts {
        event_id: String::from(event_id),
        bar,
        payload: PayloadFacts::Lighting { cue_set_id: String::from(cue_set_id), source_ref: String::from(source_ref) },
    }
}

fn make_timing_event(event_id: &str, bar: u32, downbeat: bool) -> RuntimeEventFacts {
    RuntimeEventFacts { event_id: String::from(event_id), bar, payload: PayloadFacts::Timing { downbeat } }
}

fn make_visual_event(event_id: &str, scene_id: &str, bar: u32) -> RuntimeEventFacts {
    RuntimeEventFacts {
        event_id: event_id.into(),
        bar,
        payload: PayloadFacts::Visual { scene_id: scene_id.into(), shader_program: "shader-a".into() },
    }
}

#[test]
fn lighting_event_produces_cue_executed_ack() {
    let events = vec![make_lighting_event("evt-1", 1, "cue-set-a", "scene/intro")];
    let acks = process_lighting_events(&events);
    assert_eq!(acks.len(), 1);
    assert_eq!(acks[0].status, "cue_executed");
    assert_eq!(acks[0].cue_set_id, "cue-set-a");
    assert_eq!(acks[0].source_ref, "scene/intro");
}

#[test]
fn timing_downbeat_after_lighting_produces_synced_ack() {
    let events =
        vec![make_lighting_event("evt-1", 1, "cue-set-a", "scene/drop"), make_timing_event("evt-2", 2, true)];
    let acks = process_lighting_events(&events);
    assert_eq!(acks.len(), 2);
    assert_eq!(acks[0].status, "cue_executed");
    assert_eq!(acks[1].status, "synced");
    assert_eq!(acks[1].cue_set_id, "cue-set-a");
}

#[test]
fn timing_downbeat_without_active_cue_produces_no_ack() {
    let events = vec![make_timing_event("evt-1", 1, true)];
    let acks = process_lighting_events(&events);
    assert!(acks.is_empty());
}

#[test]
fn non_downbeat_timing_produces_no_ack() {
    let events = vec![make_lighting_event("evt-1", 1, "cue-a", "scene/intro"), make_timing_event("evt-2", 1, false)];
    let acks = process_lighting_events(&events);
    assert_eq!(acks.len(), 1);
}

#[test]
fn processes_visual_events_into_acks() {
    let events = vec![make_visual_event("evt-01", "scene_intro", 1), make_visual_event("evt-02", "scene_drop", 9)];
    let acks = process_visual_events(&events);
    assert_eq!(acks.len(), 2);
    assert_eq!(acks[0].scene_id, "scene_intro");
    assert_eq!(acks[0].status, "rendered");
    assert_eq!(acks[1].scene_id, "scene_drop");
}

#[test]
fn timing_events_produce_sync_acks_after_scene() {
    let events = vec![make_visual_event("evt-01", "scene_intro", 1), make_timing_event("evt-02", 5, true)];
    let acks = process_visual_events(&events);
    assert_eq!(acks.len(), 2);
    assert_eq!(acks[1].status, "synced");
    assert_eq!(acks[1].scene_id, "scene_intro");
}

#[test]
fn timing_before_any_scene_does_not_produce_sync() {
    let events = vec![make_timing_event("evt-01", 1, true)];
    let acks = process_visual_events(&events);
    assert!(acks.is_empty());
}

#[test]
fn synced_acks_follow_the_latest_cue_and_skip_inactive_names() {
    let events = vec![
        make_lighting_event("e1", 1, "cue-a", "s1"),
        make_timing_event("e2", 2, true),
        make_lighting_event("e3", 3, "cue-b", "s2"),
        make_timing_event("e4", 4, true),
        make_lighting_event("e5", 5, "none", "s3"),
        make_timing_event("e6", 6, true),
        make_lighting_event("e7", 7, "", "s4"),
        make_timing_event("e8", 8, true),
        RuntimeEventFacts { event_id: "e9".into(), bar: 9, payload: PayloadFacts::Other },
    ];
    let acks = process_lighting_events(&events);
    let got: Vec<(&str, &str, &str, u32, &str)> = acks
        .iter()
        .map(|a| (a.event_id.as_str(), a.cue_set_id.as_str(), a.source_ref.as_str(), a.bar, a.status.as_str()))
        .collect();
    assert_eq!(
        got,
        vec![
            ("e1", "cue-a", "s1", 1, "cue_executed"),
            ("e2", "cue-a", "timing-sync", 2, "synced"),
            ("e3", "cue-b", "s2", 3, "cue_executed"),
            ("e4", "cue-b", "timing-sync", 4, "synced"),
            ("e5", "none", "s3", 5, "cue_executed"),
            ("e7", "", "s4", 7, "cue_executed"),
        ]
    );
}
