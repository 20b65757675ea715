use std::collections::BTreeMap;
use vidodo::ir::{
    AssetRecord, BackendHealthSnapshot, EffectiveWindow, LivePatchProposal, PatchChange, PatchScope, ResourceHandleState, StructureIr,
    StructureSection, StructureSpan, TimelineEntry, TimelineScheduler,
};
use vidodo::patch::{
    apply_patch, build_released_handles, check_patch, deferred_rollback, final_bar, rollback_patch, section_for_bar,
    rollback_patch_with_reason, rollback_with_checkpoint, sort_timeline, PatchAction, PatchLayer, RevisionState,
};

fn asset(id: &str, warm: Option<&str>, ready: Option<&str>) -> AssetRecord {
    AssetRecord {
        asset_id: id.to_string(),
        asset_kind: String::from("audio"),
        content_hash: String::from("sha256:0"),
        raw_locator: None,
        normalized_locator: None,
        status: String::from("analyzed"),
        analysis_refs: vec![],
        derived_refs: vec![],
        tags: vec![],
        warm_status: warm.map(String::from),
        readiness: ready.map(String::from),
    }
}

fn section(id: &str, start: u32, end: u32) -> StructureSection {
    StructureSection {
        section_id: id.to_string(),
        order: 0,
        span: StructureSpan { start_bar: start, end_bar: end },
        targets: BTreeMap::new(),
        locks: BTreeMap::new(),
    }
}

fn entry(id: &str, channel: &str, from_bar: u32, priority: i32) -> TimelineEntry {
    TimelineEntry {
        type_: String::from("timeline_entry"),
        id: id.to_string(),
        show_id: String::from("show-phase0"),
        revision: 1,
        channel: channel.to_string(),
        target_ref: id.to_string(),
        effective_window: EffectiveWindow { from_bar, to_bar: from_bar + 7 },
        scheduler: TimelineScheduler { lookahead_ms: 100, priority, conflict_group: String::new() },
        guards: BTreeMap::new(),
    }
}

/// The parts of the minimal phase-0 show that patches read: one pad layer
/// playing pad-a through 32 bars, pad-b warmed as a replacement, a front
/// wash fixture.
fn minimal_revision() -> RevisionState {
    RevisionState {
        show_id: String::from("show-phase0"),
        revision: 1,
        base_revision: 0,
        compile_run_id: String::from("compile-show-phase0"),
        allowed_patch_scopes: vec![String::from("next_phrase_boundary")],
        structure: StructureIr {
            type_: String::from("structure_ir"),
            id: String::from("structure-show-phase0"),
            show_id: String::from("show-phase0"),
            sections: vec![section("intro", 1, 16), section("drop", 17, 32)],
            transitions: vec![],
        },
        lighting_fixture_ids: Some(vec![String::from("fx-front-wash")]),
        layers: vec![PatchLayer {
            layer_id: String::from("texture-bed"),
            asset_candidates: vec![String::from("audio.loop.pad-a")],
        }],
        assets: vec![
            asset("audio.loop.pad-a", Some("warmed"), Some("live_candidate")),
            asset("audio.loop.pad-b", Some("warmed"), Some("live_candidate")),
            asset("audio.loop.cold", None, Some("live_candidate")),
        ],
        actions: vec![
            PatchAction { layer_id: String::from("texture-bed"), target_asset_id: Some(String::from("audio.loop.pad-a")), bar: 1 },
            PatchAction { layer_id: String::from("texture-bed"), target_asset_id: Some(String::from("audio.loop.pad-a")), bar: 9 },
            PatchAction { layer_id: String::from("texture-bed"), target_asset_id: Some(String::from("audio.loop.pad-a")), bar: 17 },
        ],
        timeline: vec![entry("timeline-intro", "audio", 1, 50), entry("timeline-drop", "audio", 17, 50)],
        patch_history: vec![],
    }
}

fn minimal_proposal(patch_id: &str, base_revision: u64) -> LivePatchProposal {
    LivePatchProposal {
        patch_id: String::from(patch_id),
        submitted_by: Some(String::from("tests")),
        patch_class: String::from("local_content"),
        base_revision,
        scope: PatchScope { from_bar: 9, to_bar: 16, window: String::from("next_phrase_boundary") },
        intent: BTreeMap::new(),
        changes: vec![PatchChange {
            op: String::from("replace_asset"),
            target: String::from("texture-bed"),
            from: String::from("audio.loop.pad-a"),
            to: String::from("audio.loop.pad-b"),
        }],
        fallback_revision: 1,
    }
}

fn lighting_proposal(patch_id: &str, base_revision: u64, fixture_target: &str) -> LivePatchProposal {
    LivePatchProposal {
        patch_id: String::from(patch_id),
        submitted_by: Some(String::from("tests")),
        patch_class: String::from("lighting_cue"),
        base_revision,
        scope: PatchScope { from_bar: 1, to_bar: 8, window: String::from("next_phrase_boundary") },
        intent: BTreeMap::new(),
        changes: vec![PatchChange {
            op: String::from("swap_cue"),
            target: String::from(fixture_target),
            from: String::from("cue-intro-wash"),
            to: String::from("cue-drop-wash"),
        }],
        fallback_revision: 1,
    }
}

fn codes(ds: &[vidodo::ir::Diagnostic]) -> Vec<String> {
    ds.iter().map(|d| d.code.clone()).collect()
}

#[test]
fn applies_a_local_content_patch() {
    let compiled = minimal_revision();
    let proposal = minimal_proposal("patch-phase0-pad-swap", 1);
    assert!(check_patch(&compiled, &proposal).is_empty());
    let patched = apply_patch(compiled, &proposal).expect("patch should apply");
    assert_eq!(patched.revision, 2);
    assert!(patched.actions.iter().any(|action| action.target_asset_id.as_deref() == Some("audio.loop.pad-b")));
}

#[test]
fn rejects_base_revision_mismatch() {
    let compiled = minimal_revision();
    let proposal = minimal_proposal("patch-wrong-rev", 999);
    let diagnostics = check_patch(&compiled, &proposal);
    assert!(diagnostics.iter().any(|d| d.code == "PAT-001"));
}

#[test]
fn rejects_non_local_content_patch_class() {
    let compiled = minimal_revision();
    let mut proposal = minimal_proposal("patch-structural", 1);
    proposal.patch_class = String::from("structural");
    let diagnostics = check_patch(&compiled, &proposal);
    assert!(diagnostics.iter().any(|d| d.code == "PAT-002"));
}

#[test]
fn rejects_scope_outside_timeline() {
    let compiled = minimal_revision();
    let mut proposal = minimal_proposal("patch-out-of-range", 1);
    proposal.scope = PatchScope { from_bar: 200, to_bar: 300, window: String::from("next_phrase_boundary") };
    let diagnostics = check_patch(&compiled, &proposal);
    assert!(diagnostics.iter().any(|d| d.code == "PAT-004"));
}

#[test]
fn rejects_unknown_replacement_asset() {
    let compiled = minimal_revision();
    let mut proposal = minimal_proposal("patch-unknown-asset", 1);
    proposal.changes = vec![PatchChange {
        op: String::from("replace_asset"),
        target: String::from("texture-bed"),
        from: String::from("audio.loop.pad-a"),
        to: String::from("audio.loop.nonexistent"),
    }];
    let diagnostics = check_patch(&compiled, &proposal);
    assert!(diagnostics.iter().any(|d| d.code == "PAT-007"));
}

#[test]
fn rollback_fails_for_unknown_patch_id() {
    let compiled = minimal_revision();
    let result = rollback_patch(&compiled, "nonexistent-patch");
    assert!(result.is_err());
    let diagnostic = result.unwrap_err();
    assert_eq!(diagnostic.code, "PAT-010");
    assert_eq!(diagnostic.message, "patch nonexistent-patch was not found in revision 1");
}

#[test]
fn rollback_restores_fallback_revision() {
    let compiled = minimal_revision();
    let proposal = minimal_proposal("patch-phase0-pad-swap", 1);
    let patched = apply_patch(compiled, &proposal).expect("patch should apply");
    let rollback = rollback_patch(&patched, "patch-phase0-pad-swap").expect("rollback should succeed");
    assert_eq!(rollback.decision, "rolled_back");
    assert_eq!(rollback.fallback_revision, 1);
    assert_eq!(rollback.base_revision, 2);
    assert_eq!(rollback.reasons, vec!["manual rollback requested"]);
}

#[test]
fn deferred_rollback_on_anomaly() {
    let compiled = minimal_revision();
    let proposal = minimal_proposal("patch-phase0-pad-swap", 1);
    let patched = apply_patch(compiled, &proposal).expect("patch should apply");
    let decision = deferred_rollback(&patched, "patch-phase0-pad-swap", "resource_overload: GPU > 90%")
        .expect("deferred rollback should succeed");
    assert_eq!(decision.decision, "deferred_rollback");
    assert_eq!(decision.candidate_revision, 1);
    assert!(decision.reasons[0].contains("resource_overload"));
    assert_eq!(decision.reasons[0], "deferred rollback: resource_overload: GPU > 90%");
}

#[test]
fn deferred_rollback_unknown_patch_fails() {
    let compiled = minimal_revision();
    let result = deferred_rollback(&compiled, "no-such-patch", "anomaly");
    assert!(result.is_err());
    assert_eq!(result.unwrap_err().code, "PAT-010");
}

#[test]
fn rollback_checkpoint_marks_resources_released() {
    let base = minimal_revision();
    let proposal = minimal_proposal("patch-phase0-pad-swap", 1);
    let patched = apply_patch(base.clone(), &proposal).unwrap();
    let (_, checkpoint) = rollback_with_checkpoint(
        &patched,
        &base,
        "patch-phase0-pad-swap",
        "gpu overload",
        &[],
        (),
        "2026-04-04T00:00:00Z",
    )
    .expect("should succeed");
    assert!(!checkpoint.resource_handles.is_empty());
    assert!(checkpoint.resource_handles.iter().all(|rh| rh.state == ResourceHandleState::Released));
}

#[test]
fn released_handles_name_each_asset() {
    let compiled = minimal_revision();
    let proposal = minimal_proposal("patch-phase0-pad-swap", 1);
    let patched = apply_patch(compiled, &proposal).unwrap();
    let decision = rollback_patch_with_reason(&patched, "patch-phase0-pad-swap", "operator abort").unwrap();
    assert_eq!(decision.reasons, vec!["operator abort"]);
    let handles = build_released_handles(&patched.assets);
    assert_eq!(handles.len(), patched.assets.len());
    for (h, a) in handles.iter().zip(patched.assets.iter()) {
        assert_eq!(h.resource_id, a.asset_id);
        assert_eq!(h.state, ResourceHandleState::Released);
        assert_eq!(h.backend_kind.as_deref(), Some("audio"));
    }
}

#[test]
fn accepts_lighting_patch_with_valid_fixture() {
    let compiled = minimal_revision();
    let proposal = lighting_proposal("patch-lighting-ok", 1, "fx-front-wash");
    let diagnostics = check_patch(&compiled, &proposal);
    assert!(diagnostics.is_empty(), "valid lighting patch should pass: {diagnostics:?}");
}

#[test]
fn rejects_lighting_patch_missing_fixture() {
    let compiled = minimal_revision();
    let proposal = lighting_proposal("patch-lighting-missing", 1, "fx-nonexistent");
    let diagnostics = check_patch(&compiled, &proposal);
    assert!(diagnostics.iter().any(|d| d.code == "PAT-012"), "missing fixture should produce PAT-012: {diagnostics:?}");
}

#[test]
fn every_problem_is_reported_in_order() {
    let compiled = minimal_revision();
    let proposal = LivePatchProposal {
        patch_id: String::from("bad"),
        submitted_by: None,
        patch_class: String::from("structural"),
        base_revision: 7,
        scope: PatchScope { from_bar: 20, to_bar: 10, window: String::from("immediately") },
        intent: BTreeMap::new(),
        changes: vec![
            PatchChange {
                op: String::from("mute"),
                target: String::from("nope"),
                from: String::from("x"),
                to: String::from("audio.loop.cold"),
            },
            PatchChange {
                op: String::from("replace_asset"),
                target: String::from("texture-bed"),
                from: String::from("audio.loop.pad-a"),
                to: String::from("missing"),
            },
        ],
        fallback_revision: 1,
    };
    let ds = check_patch(&compiled, &proposal);
    assert_eq!(
        codes(&ds),
        vec!["PAT-001", "PAT-002", "PAT-003", "PAT-004", "PAT-005", "PAT-006", "PAT-008", "PAT-009", "PAT-007", "PAT-009"]
    );
    assert_eq!(ds[0].message, "patch base_revision 7 does not match active revision 1");
    assert_eq!(ds[2].message, "patch window immediately is not allowed by the active constraint set");
    assert_eq!(ds[4].message, "unsupported patch operation mute");
    assert_eq!(ds[7].message, "patch change x -> audio.loop.cold does not match any performance action inside the requested scope");
    assert!(ds.iter().all(|d| d.severity == "error"));
    assert!(apply_patch(compiled, &proposal).unwrap_err().len() == 10);
}

#[test]
fn applied_patch_updates_only_the_scoped_actions_and_records_itself() {
    let compiled = minimal_revision();
    let proposal = minimal_proposal("swap", 1);
    let patched = apply_patch(compiled, &proposal).unwrap();
    let targets: Vec<Option<&str>> = patched.actions.iter().map(|a| a.target_asset_id.as_deref()).collect();
    assert_eq!(targets, vec![Some("audio.loop.pad-a"), Some("audio.loop.pad-b"), Some("audio.loop.pad-a")]);
    assert_eq!(patched.layers[0].asset_candidates, vec!["audio.loop.pad-b"]);
    assert_eq!(patched.base_revision, 1);
    assert_eq!(patched.compile_run_id, "patch-swap-rev-2");
    let decision = patched.patch_history.last().unwrap();
    assert_eq!(decision.decision, "applied");
    assert_eq!(decision.candidate_revision, 2);
    assert_eq!(decision.reasons, vec!["local content patch accepted"]);
    let ids: Vec<&str> = patched.timeline.iter().map(|e| e.id.as_str()).collect();
    assert_eq!(ids, vec!["timeline-intro", "timeline-patch-swap", "timeline-drop"]);
    assert_eq!(patched.timeline[1].scheduler.conflict_group, "patch-swap");
}

#[test]
fn final_bar_defaults_to_one() {
    let mut s = minimal_revision().structure;
    assert_eq!(final_bar(&s), 32);
    s.sections.clear();
    assert_eq!(final_bar(&s), 1);
}

#[test]
fn timeline_sort_orders_by_bar_priority_channel_and_id() {
    let sorted = sort_timeline(vec![
        entry("b", "visual", 5, 1),
        entry("a", "visual", 5, 1),
        entry("z", "audio", 5, 1),
        entry("c", "audio", 5, 0),
        entry("first", "zzz", 1, 9),
    ]);
    let ids: Vec<&str> = sorted.iter().map(|e| e.id.as_str()).collect();
    assert_eq!(ids, vec!["first", "c", "z", "a", "b"]);
}

#[test]
fn rollback_with_checkpoint_records_what_was_restored() {
    let compiled = minimal_revision();
    let patched = apply_patch(compiled.clone(), &minimal_proposal("patch-phase0-pad-swap", 1)).expect("patch should apply");
    let snapshot = BackendHealthSnapshot {
        backend_ref: String::from("audio-main"),
        plugin_ref: String::from("fake_audio"),
        status: String::from("healthy"),
        timestamp: String::from("2025-01-01T00:00:00Z"),
        latency_ms_bits: Some(2.0f64.to_bits()),
        error_count: Some(0),
        last_ack_lag_ms_bits: None,
        degrade_reason: None,
    };
    let (decision, checkpoint) = rollback_with_checkpoint(
        &patched,
        &compiled,
        "patch-phase0-pad-swap",
        "latency spike",
        &[snapshot.clone()],
        "restored-state",
        "2025-01-01T00:00:05Z",
    )
    .expect("rollback should succeed");
    assert_eq!(decision.decision, "rolled_back");
    assert_eq!(decision.reasons, vec!["latency spike"]);
    assert_eq!(checkpoint.patch_id, "patch-phase0-pad-swap");
    assert_eq!(checkpoint.base_revision, 2);
    assert_eq!(checkpoint.rollback_target_revision, 1);
    assert_eq!(checkpoint.resource_handles.len(), 3);
    assert!(checkpoint.resource_handles.iter().all(|h| h.state == ResourceHandleState::Released));
    assert_eq!(checkpoint.backend_snapshots, vec![snapshot]);
    assert_eq!(checkpoint.show_state_snapshot, "restored-state");
    assert_eq!(checkpoint.reason, "latency spike");
    assert_eq!(checkpoint.timestamp, "2025-01-01T00:00:05Z");
    let missing = rollback_with_checkpoint(&patched, &compiled, "nope", "r", &[], (), "t");
    assert!(missing.is_err());
}

#[test]
fn section_for_bar_finds_the_section_spanning_it() {
    let revision = minimal_revision();
    assert_eq!(section_for_bar(&revision.structure, 1).map(|s| s.section_id.as_str()), Some("intro"));
    assert_eq!(section_for_bar(&revision.structure, 16).map(|s| s.section_id.as_str()), Some("intro"));
    assert_eq!(section_for_bar(&revision.structure, 17).map(|s| s.section_id.as_str()), Some("drop"));
    assert!(section_for_bar(&revision.structure, 33).is_none());
    assert!(section_for_bar(&revision.structure, 0).is_none());
}
