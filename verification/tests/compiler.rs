use vidodo::cli::required_arg;
use vidodo::compiler::{build_performance, build_visual, compile_plan};
use vidodo::ir::Diagnostic;
use vidodo::compiler::{
    build_structure, build_timeline, sanitize, PlanSection, TimelineAudioAction, TimelineCueSet, TimelineVisualAction,
};
use vidodo::patch::sort_timeline;

fn plan_section(id: &str, length_bars: u32) -> PlanSection {
    PlanSection {
        section_id: id.to_string(),
        length_bars,
        energy_target_bits: Some(0.5f64.to_bits()),
        density_target_bits: None,
        visual_intent: None,
    }
}

#[test]
fn sanitize_keeps_safe_characters_only() {
    assert_eq!(sanitize("show-phase0"), "show-phase0");
    assert_eq!(sanitize("my show/v2.1"), "my-show-v2-1");
    assert_eq!(sanitize("Été_x"), "-t-_x");
    assert_eq!(sanitize(""), "");
}

#[test]
fn structure_lays_sections_end_to_end() {
    let sections = vec![plan_section("intro", 8), plan_section("break", 0), plan_section("drop", 4)];
    let locked = vec![String::from("drop")];
    let s = build_structure("show phase0", &sections, &locked);
    assert_eq!(s.type_, "structure_ir");
    assert_eq!(s.id, "structure-show-phase0");
    assert_eq!(s.show_id, "show phase0");
    let spans: Vec<(u32, u32)> = s.sections.iter().map(|x| (x.span.start_bar, x.span.end_bar)).collect();
    assert_eq!(spans, vec![(1, 8), (9, 9), (10, 13)]);
    assert_eq!(s.sections[2].order, 2);
    assert_eq!(s.sections[2].locks.get("locked").map(String::as_str), Some("true"));
    assert_eq!(s.sections[0].locks.get("locked").map(String::as_str), Some("false"));
    assert!(s.sections[0].targets.is_empty());
}

#[test]
fn timeline_has_audio_visual_and_lighting_entries() {
    let sections = vec![plan_section("intro", 16), plan_section("drop", 16)];
    let structure = build_structure("show-phase0", &sections, &vec![]);
    let audio = vec![
        TimelineAudioAction { action_id: String::from("audio-intro-pad"), section: String::from("intro"), priority: 20 },
        TimelineAudioAction { action_id: String::from("audio-nowhere"), section: String::from("outro"), priority: 10 },
    ];
    let visual = vec![TimelineVisualAction {
        visual_action_id: String::from("visual-drop"),
        scene_id: String::from("scene_drop"),
    }];
    let cues = vec![TimelineCueSet {
        cue_set_id: String::from("cues-a"),
        source_refs: vec![String::from("drop"), String::from("none"), String::from("intro")],
    }];
    let t = build_timeline("show-phase0", 1, &structure, &audio, &visual, &cues);
    let ids: Vec<&str> = t.iter().map(|e| e.id.as_str()).collect();
    assert_eq!(
        ids,
        vec!["timeline-audio-intro-pad", "timeline-visual-drop", "timeline-lighting-cues-a-0", "timeline-lighting-cues-a-2"]
    );
    assert_eq!(t[0].effective_window.from_bar, 1);
    assert_eq!(t[0].scheduler.conflict_group, "audio-intro");
    assert_eq!(t[1].effective_window.from_bar, 17);
    assert_eq!(t[1].scheduler.priority, 30);
    assert_eq!(t[3].target_ref, "cues-a:2");
    assert_eq!(t[3].scheduler.lookahead_ms, 250);
    let sorted = sort_timeline(t);
    let order: Vec<&str> = sorted.iter().map(|e| e.id.as_str()).collect();
    assert_eq!(
        order,
        vec!["timeline-audio-intro-pad", "timeline-lighting-cues-a-2", "timeline-visual-drop", "timeline-lighting-cues-a-0"]
    );
}

fn layer(id: &str, role: &str, refs: &[&str]) -> vidodo::compiler::PlanLayer {
    vidodo::compiler::PlanLayer {
        layer_id: id.to_string(),
        role: role.to_string(),
        asset_candidates: vec![format!("audio.loop.{id}")],
        section_refs: refs.iter().map(|s| s.to_string()).collect(),
        quantize: String::from("bar"),
        output_backend_hint: None,
        route_group_ref: None,
    }
}

fn scene(id: &str) -> vidodo::ir::VisualScene {
    vidodo::ir::VisualScene {
        scene_id: id.to_string(),
        program_ref: format!("prog-{id}"),
        output_backend: None,
        view_group_ref: None,
        display_topology_ref: None,
        calibration_profile_ref: None,
        inputs: std::collections::BTreeMap::new(),
        semantic_binding: std::collections::BTreeMap::new(),
        uniform_defaults: std::collections::BTreeMap::from([(String::from("u"), String::from("1"))]),
    }
}

#[test]
fn performance_plan_enters_target_sections() {
    let sections = vec![plan_section("intro", 8), plan_section("drop", 16)];
    let structure = build_structure("s", &sections, &vec![]);
    let layers = vec![layer("kick", "rhythm", &[]), layer("pad", "texture", &["drop", "missing"])];
    let actions = build_performance(&structure, &layers);
    let ids: Vec<&str> = actions.iter().map(|a| a.action_id.as_str()).collect();
    assert_eq!(ids, vec!["audio-intro-kick", "audio-drop-kick", "audio-drop-pad"]);
    assert_eq!(actions[0].priority, 10);
    assert_eq!(actions[2].priority, 20);
    assert_eq!(actions[1].bar, 9);
    assert_eq!(actions[1].phrase, 2);
    assert_eq!(actions[1].duration_beats, 64);
    assert_eq!(actions[2].target_asset_id.as_deref(), Some("audio.loop.pad"));
    assert_eq!(actions[2].rollback_token, "rollback-drop-pad");
    assert_eq!(actions[2].route_group, "stereo-main");
    assert_eq!(actions[0].op, "launch_asset");
}

#[test]
fn visual_plan_uses_intent_or_first_scene() {
    let mut sections = vec![plan_section("intro", 4), plan_section("drop", 4)];
    sections[1].visual_intent = Some(String::from("scene_drop"));
    let structure = build_structure("s", &sections, &vec![]);
    let scenes = vec![scene("scene_intro"), scene("scene_drop")];
    let vs = build_visual(&structure, &sections, &scenes);
    assert_eq!(vs.len(), 2);
    assert_eq!(vs[0].scene_id, "scene_intro");
    assert_eq!(vs[1].scene_id, "scene_drop");
    assert_eq!(vs[1].visual_action_id, "visual-drop");
    assert_eq!(vs[1].duration_beats, 16);
    assert_eq!(vs[1].blend_mode.as_deref(), Some("replace"));
    assert_eq!(vs[1].fallback_scene_id.as_deref(), Some("scene_intro"));
    assert_eq!(vs[1].uniform_set.get("u").map(String::as_str), Some("1"));
    assert!(build_visual(&structure, &sections, &vec![]).is_empty());
}

#[test]
fn required_arg_finds_values() {
    let args: Vec<String> = ["--run-id", "r1", "--flag"].iter().map(|s| s.to_string()).collect();
    assert_eq!(required_arg(&args, "--run-id").unwrap(), "r1");
    assert_eq!(required_arg(&args, "--flag").unwrap_err(), "missing value for --flag");
    assert_eq!(required_arg(&args, "--other").unwrap_err(), "missing required argument: --other");
}

#[test]
fn compile_refuses_a_plan_with_errors_and_keeps_only_errors() {
    let validation = vec![
        Diagnostic::warning("VAL-W1", "just a warning"),
        Diagnostic::error("VAL-001", "first"),
        Diagnostic::error("VAL-002", "second"),
    ];
    let sections = vec![plan_section("intro", 4)];
    let r = compile_plan(validation, "show", 3, &sections, &vec![], &vec![], &vec![], &vec![]);
    let errs = r.unwrap_err();
    let codes: Vec<&str> = errs.iter().map(|d| d.code.as_str()).collect();
    assert_eq!(codes, vec!["VAL-001", "VAL-002"]);
}

#[test]
fn compile_assembles_the_next_revision() {
    let validation = vec![Diagnostic::warning("VAL-W1", "only a warning")];
    let mut drop = plan_section("drop", 8);
    drop.visual_intent = Some(String::from("scene_drop"));
    let sections = vec![plan_section("intro", 4), drop];
    let layers = vec![layer("pad", "pad", &[]), layer("kick", "rhythm", &["drop"])];
    let scenes = vec![scene("scene_intro"), scene("scene_drop")];
    let cues = vec![TimelineCueSet { cue_set_id: String::from("cues-a"), source_refs: vec![String::from("intro")] }];
    let c = compile_plan(validation, "my show", 6, &sections, &vec![String::from("drop")], &layers, &scenes, &cues)
        .unwrap();
    assert_eq!(c.revision, 7);
    assert_eq!(c.base_revision, 6);
    assert_eq!(c.show_id, "my show");
    assert_eq!(c.compile_run_id, "compile-my-show-rev-7");
    assert_eq!(c.structure.id, "structure-my-show");
    assert_eq!(c.structure.sections.len(), 2);
    assert_eq!(c.performance.len(), 3);
    assert_eq!(c.visual.len(), 2);
    assert_eq!(c.visual[0].scene_id, "scene_intro");
    assert_eq!(c.visual[1].scene_id, "scene_drop");
    assert_eq!(c.timeline.len(), 3 + 2 + 1);
    assert!(c.timeline.iter().all(|e| e.revision == 7));
    for w in c.timeline.windows(2) {
        let a = &w[0];
        let b = &w[1];
        assert!(a.effective_window.from_bar <= b.effective_window.from_bar);
    }
}
