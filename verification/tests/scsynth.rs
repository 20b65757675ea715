use vidodo::audio::{ActionStatus, ScynthHealth};
use vidodo::audio_backend::AudioScynthBackend;
use vidodo::ir::{BackendTopology, DegradeMode, ExecutablePayload};
use vidodo::osc::{OscArg, OscMessage};
use vidodo::scsynth_monitor::{AckCollector, HealthMonitor, ServerStatus, StatusReplyError};

fn ms(v: f64) -> u64 {
    v.to_bits()
}

fn done_msg(node_id: i32) -> OscMessage {
    OscMessage::new("/done", vec![OscArg::Int(node_id)])
}

fn fail_msg(node_id: i32) -> OscMessage {
    OscMessage::new("/fail", vec![OscArg::Int(node_id)])
}

/// The actions whose send time is at least the timeout before `now_ms`,
/// failed as the caller's clock finds them.
fn check_timeouts(collector: &mut AckCollector, now_ms: f64) -> Vec<String> {
    let timeout = f64::from_bits(collector.timeout_ms_bits());
    let mut out = Vec::new();
    for (id, sent) in collector.pending_actions() {
        if now_ms - f64::from_bits(sent) >= timeout && collector.fail_pending(&id) {
            out.push(id);
        }
    }
    out
}

fn expired(monitor: &HealthMonitor, now_ms: f64) -> bool {
    now_ms - f64::from_bits(monitor.last_poll_ms_bits()) >= f64::from_bits(monitor.timeout_ms_bits())
}

// ---- acknowledgements ----

#[test]
fn register_and_receive_done() {
    let mut collector = AckCollector::new(ms(5000.0));
    collector.register("bass", 1000, ms(0.0));
    assert_eq!(collector.status("bass"), Some(ActionStatus::Pending));
    let result = collector.process_reply(&done_msg(1000));
    assert_eq!(result, Some(("bass".into(), ActionStatus::Loaded)));
    assert_eq!(collector.status("bass"), Some(ActionStatus::Loaded));
}

#[test]
fn receive_fail_marks_failed() {
    let mut collector = AckCollector::new(ms(5000.0));
    collector.register("synth-1", 1001, ms(0.0));
    let result = collector.process_reply(&fail_msg(1001));
    assert_eq!(result, Some(("synth-1".into(), ActionStatus::Failed)));
}

#[test]
fn timeout_marks_pending_as_failed() {
    let mut collector = AckCollector::new(ms(5000.0));
    collector.register("pad", 1002, ms(100.0));
    assert_eq!(collector.pending_count(), 1);
    let timed_out = check_timeouts(&mut collector, 5100.0);
    assert_eq!(timed_out, vec!["pad"]);
    assert_eq!(collector.status("pad"), Some(ActionStatus::Failed));
    assert_eq!(collector.pending_count(), 0);
}

#[test]
fn unknown_node_id_ignored() {
    let mut collector = AckCollector::new(ms(5000.0));
    collector.register("a", 1000, ms(0.0));
    let result = collector.process_reply(&done_msg(9999));
    assert!(result.is_none());
    assert_eq!(collector.status("a"), Some(ActionStatus::Pending));
}

#[test]
fn drain_completed_removes_finished_actions() {
    let mut collector = AckCollector::new(ms(5000.0));
    collector.register("a", 1000, ms(0.0));
    collector.register("b", 1001, ms(0.0));
    collector.process_reply(&done_msg(1000));
    let completed = collector.drain_completed();
    assert_eq!(completed.len(), 1);
    assert_eq!(completed[0].0, "a");
    assert!(collector.status("a").is_none());
    assert_eq!(collector.pending_count(), 1);
}

#[test]
fn other_addresses_and_non_integer_ids_are_ignored() {
    let mut collector = AckCollector::new(ms(5000.0));
    collector.register("a", 1000, ms(0.0));
    assert!(collector.process_reply(&OscMessage::new("/status.reply", vec![OscArg::Int(1000)])).is_none());
    assert!(collector.process_reply(&OscMessage::new("/done", vec![OscArg::String("1000".into())])).is_none());
    assert!(collector.process_reply(&OscMessage::new("/done", vec![])).is_none());
    assert_eq!(collector.status("a"), Some(ActionStatus::Pending));
}

#[test]
fn timeout_does_not_touch_answered_or_recent_actions() {
    let mut collector = AckCollector::new(ms(5000.0));
    collector.register("answered", 1, ms(0.0));
    collector.register("recent", 2, ms(4000.0));
    collector.register("old", 3, ms(0.0));
    collector.process_reply(&done_msg(1));
    assert_eq!(check_timeouts(&mut collector, 5000.0), vec!["old"]);
    assert_eq!(collector.status("answered"), Some(ActionStatus::Loaded));
    assert_eq!(collector.status("recent"), Some(ActionStatus::Pending));
    assert!(!collector.fail_pending("answered"));
    assert!(!collector.fail_pending("missing"));
}

// ---- health monitoring ----

fn status_reply() -> OscMessage {
    OscMessage::new(
        "/status.reply",
        vec![
            OscArg::Int(1),
            OscArg::Int(0),
            OscArg::Int(0),
            OscArg::Int(0),
            OscArg::Int(0),
            OscArg::Float(0.0f32.to_bits()),
            OscArg::Float(0.0f32.to_bits()),
        ],
    )
}

#[test]
fn initial_state_is_healthy() {
    let monitor = HealthMonitor::new(ms(5000.0));
    assert_eq!(monitor.health(), ScynthHealth::Healthy);
}

#[test]
fn poll_generates_status_message() {
    let mut monitor = HealthMonitor::new(ms(5000.0));
    let e = expired(&monitor, 0.0);
    let msg = monitor.poll(ms(0.0), e);
    assert!(msg.is_some());
    assert_eq!(msg.unwrap().address, "/status");
}

#[test]
fn reply_within_timeout_stays_healthy() {
    let mut monitor = HealthMonitor::new(ms(5000.0));
    let e = expired(&monitor, 0.0);
    monitor.poll(ms(0.0), e);
    monitor.process_reply(&status_reply(), ms(1000.0));
    let e = expired(&monitor, 1000.0);
    assert_eq!(monitor.evaluate(e), ScynthHealth::Healthy);
}

#[test]
fn no_reply_within_timeout_degrades() {
    let mut monitor = HealthMonitor::new(ms(5000.0));
    let e = expired(&monitor, 0.0);
    monitor.poll(ms(0.0), e);
    let e = expired(&monitor, 5000.0);
    assert_eq!(monitor.evaluate(e), ScynthHealth::Degraded);
}

#[test]
fn recover_from_degraded_on_reply() {
    let mut monitor = HealthMonitor::new(ms(5000.0));
    let e = expired(&monitor, 0.0);
    monitor.poll(ms(0.0), e);
    let e = expired(&monitor, 5000.0);
    assert_eq!(monitor.evaluate(e), ScynthHealth::Degraded);
    monitor.process_reply(&status_reply(), ms(5500.0));
    assert_eq!(monitor.health(), ScynthHealth::Healthy);
}

#[test]
fn mark_offline() {
    let mut monitor = HealthMonitor::new(ms(5000.0));
    monitor.mark_offline();
    assert_eq!(monitor.health(), ScynthHealth::Offline);
}

#[test]
fn poll_in_flight_is_not_repeated_until_it_expires() {
    let mut monitor = HealthMonitor::new(ms(5000.0));
    assert!(monitor.poll(ms(0.0), false).is_some());
    assert!(monitor.poll_in_flight());
    assert!(monitor.poll(ms(1000.0), false).is_none());
    assert_eq!(monitor.last_poll_ms_bits(), ms(0.0));
    assert!(monitor.poll(ms(6000.0), true).is_some());
    assert_eq!(monitor.health(), ScynthHealth::Degraded);
    assert_eq!(monitor.last_poll_ms_bits(), ms(6000.0));
    assert!(!monitor.process_reply(&OscMessage::new("/done", vec![]), ms(6100.0)));
    assert!(monitor.process_reply(&status_reply(), ms(6200.0)));
    assert_eq!(monitor.last_reply_ms_bits(), ms(6200.0));
}

// ---- server status ----

fn make_status_reply() -> OscMessage {
    OscMessage {
        address: "/status.reply".to_string(),
        args: vec![
            OscArg::Int(1),
            OscArg::Int(5),
            OscArg::Int(2),
            OscArg::Int(3),
            OscArg::Int(10),
            OscArg::Float(12.5f32.to_bits()),
            OscArg::Float(25.0f32.to_bits()),
            OscArg::Float(44100.0f32.to_bits()),
            OscArg::Float(44099.8f32.to_bits()),
        ],
    }
}

#[test]
fn parse_valid_status_reply() {
    let msg = make_status_reply();
    let status = ServerStatus::from_status_reply(&msg).unwrap();
    assert_eq!(status.num_ugens, 5);
    assert_eq!(status.num_synths, 2);
    assert_eq!(status.num_groups, 3);
    assert_eq!(status.num_synthdefs, 10);
    assert!((f32::from_bits(status.avg_cpu_bits) - 12.5).abs() < f32::EPSILON);
    assert!((f32::from_bits(status.peak_cpu_bits) - 25.0).abs() < f32::EPSILON);
    assert!((f32::from_bits(status.nominal_sample_rate_bits) - 44100.0).abs() < f32::EPSILON);
}

#[test]
fn wrong_address_returns_error() {
    let msg = OscMessage::new("/wrong", vec![]);
    assert!(ServerStatus::from_status_reply(&msg).is_err());
}

#[test]
fn too_few_args_returns_error() {
    let msg = OscMessage { address: "/status.reply".to_string(), args: vec![OscArg::Int(1), OscArg::Int(2)] };
    assert!(ServerStatus::from_status_reply(&msg).is_err());
}

#[test]
fn wrong_arg_type_returns_error() {
    let mut msg = make_status_reply();
    msg.args[1] = OscArg::Float(5.0f32.to_bits());
    assert!(ServerStatus::from_status_reply(&msg).is_err());
}

#[test]
fn status_reply_errors_name_what_failed() {
    match ServerStatus::from_status_reply(&OscMessage::new("/wrong", vec![])) {
        Err(StatusReplyError::WrongAddress(a)) => assert_eq!(a, "/wrong"),
        other => panic!("unexpected {other:?}"),
    }
    let short = OscMessage { address: "/status.reply".to_string(), args: vec![OscArg::Int(1), OscArg::Int(2)] };
    match ServerStatus::from_status_reply(&short) {
        Err(StatusReplyError::TooFewArgs(n)) => assert_eq!(n, 2),
        other => panic!("unexpected {other:?}"),
    }
    let mut msg = make_status_reply();
    msg.args[1] = OscArg::Float(5.0f32.to_bits());
    match ServerStatus::from_status_reply(&msg) {
        Err(StatusReplyError::ExpectedInt(name, arg)) => {
            assert_eq!(name, "num_ugens");
            assert_eq!(arg, OscArg::Float(5.0f32.to_bits()));
        }
        other => panic!("unexpected {other:?}"),
    }
    let mut msg = make_status_reply();
    msg.args[7] = OscArg::Int(44100);
    match ServerStatus::from_status_reply(&msg) {
        Err(StatusReplyError::ExpectedFloat(name, arg)) => {
            assert_eq!(name, "nominal_sr");
            assert_eq!(arg, OscArg::Int(44100));
        }
        other => panic!("unexpected {other:?}"),
    }
}

// ---- audio backend ----

fn audio_topology() -> BackendTopology {
    BackendTopology::Audio {
        topology_ref: String::from("stereo-main"),
        calibration_profile: None,
        speaker_endpoints: vec![String::from("L"), String::from("R")],
    }
}

fn audio_payload(op: &str) -> ExecutablePayload {
    ExecutablePayload::Audio {
        layer_id: String::from("layer-1"),
        op: op.to_string(),
        target_asset_id: Some(String::from("kick.wav")),
        gain_db_bits: Some((-3.0f64).to_bits()),
        duration_beats: None,
        route_set_ref: None,
        speaker_group: vec![],
    }
}

fn amp_of(gain_db: f64) -> Option<u32> {
    Some((10.0_f64.powf(gain_db / 20.0) as f32).to_bits())
}

#[test]
fn describe_returns_name_and_version() {
    let backend = AudioScynthBackend::new("scsynth-v1", "3.13.0");
    let desc = backend.describe_backend();
    assert_eq!(desc.plugin_id, "scsynth-v1");
    assert_eq!(desc.backend_kind, "audio");
    assert_eq!(desc.status, "idle");
    assert!(desc.capabilities.contains(&String::from("asset_playback")));
}

#[test]
fn prepare_and_describe_ready() {
    let mut backend = AudioScynthBackend::new("scsynth-v1", "3.13.0");
    backend.prepare_backend(&audio_topology()).unwrap();
    assert_eq!(backend.describe_backend().status, "ready");
}

#[test]
fn execute_payload_translates_and_collects() {
    let mut backend = AudioScynthBackend::new("scsynth-v1", "3.13.0");
    backend.prepare_backend(&audio_topology()).unwrap();
    let ack = backend.execute_payload(&audio_payload("play"), amp_of(-3.0)).unwrap();
    assert_eq!(ack.status, "ok");
    assert_eq!(ack.target, "layer-1");
    assert!(ack.detail.contains("play"));
    assert_eq!(backend.execute_count(), 1);
    let msgs = backend.drain_outbox();
    assert!(!msgs.is_empty());
}

#[test]
fn shutdown_sends_quit_and_blocks_further_calls() {
    let mut backend = AudioScynthBackend::new("scsynth-v1", "3.13.0");
    backend.prepare_backend(&audio_topology()).unwrap();
    backend.shutdown_backend().unwrap();
    let msgs = backend.drain_outbox();
    assert!(msgs.iter().any(|m| m.address == "/quit"));
    assert!(backend.execute_payload(&audio_payload("play"), amp_of(-3.0)).is_err());
    assert_eq!(backend.describe_backend().status, "shutdown");
}

#[test]
fn apply_degrade_blocks_new_nodes() {
    let mut backend = AudioScynthBackend::new("scsynth-v1", "3.13.0");
    backend.prepare_backend(&audio_topology()).unwrap();
    backend
        .apply_degrade_mode(&DegradeMode {
            mode: String::from("reduced"),
            reason: String::from("high latency"),
            affected_backends: vec![],
            fallback_action: None,
        })
        .unwrap();
    assert!(backend.execute_payload(&audio_payload("play"), amp_of(-3.0)).is_err());
}

#[test]
fn collect_status_reports_health() {
    let backend = AudioScynthBackend::new("scsynth-v1", "3.13.0");
    let status = backend.collect_backend_status();
    assert_eq!(status.plugin_id, "scsynth-v1");
    assert_eq!(status.status, "healthy");
}

#[test]
fn audio_backend_wrong_topology_rejected() {
    let mut backend = AudioScynthBackend::new("scsynth-v1", "3.13.0");
    let bad_topo = BackendTopology::Lighting {
        topology_ref: String::from("dmx"),
        calibration_profile: None,
        fixture_endpoints: vec![],
    };
    assert!(backend.prepare_backend(&bad_topo).is_err());
}

#[test]
fn backend_errors_name_their_cause() {
    let mut backend = AudioScynthBackend::new("scsynth-v1", "3.13.0");
    let bad_topo = BackendTopology::Lighting {
        topology_ref: String::from("dmx"),
        calibration_profile: None,
        fixture_endpoints: vec![],
    };
    assert_eq!(backend.prepare_backend(&bad_topo), Err("SCSYNTH-002: expected Audio topology".to_string()));
    let visual = ExecutablePayload::Visual {
        scene_id: "s".into(),
        shader_program: "p".into(),
        uniforms: Default::default(),
        duration_beats: None,
        blend: None,
        view_group: None,
    };
    assert_eq!(backend.execute_payload(&visual, None), Err("SCSYNTH-005: expected Audio payload".to_string()));
    let degrade = DegradeMode { mode: "reduced".into(), reason: "r".into(), affected_backends: vec![], fallback_action: None };
    backend.apply_degrade_mode(&degrade).unwrap();
    assert_eq!(
        backend.execute_payload(&audio_payload("play"), None),
        Err("SCSYNTH-007: backend is degraded, new nodes blocked".to_string())
    );
    assert_eq!(backend.collect_backend_status().status, "degraded");
    assert_eq!(backend.collect_backend_status().detail.as_deref(), Some("degraded: no new nodes"));
    let normal = DegradeMode { mode: "normal".into(), reason: "r".into(), affected_backends: vec![], fallback_action: None };
    backend.apply_degrade_mode(&normal).unwrap();
    assert!(backend.execute_payload(&audio_payload("play"), None).is_ok());
    backend.shutdown_backend().unwrap();
    assert_eq!(backend.apply_show_state(), Err("SCSYNTH-003: backend already shut down".to_string()));
    assert_eq!(backend.prepare_backend(&audio_topology()), Err("SCSYNTH-001: backend already shut down".to_string()));
    assert_eq!(backend.execute_payload(&audio_payload("play"), None), Err("SCSYNTH-004: backend already shut down".to_string()));
    assert_eq!(backend.apply_degrade_mode(&normal), Err("SCSYNTH-006: backend already shut down".to_string()));
}

#[test]
fn executed_action_is_registered_and_acknowledged_by_node() {
    let mut backend = AudioScynthBackend::new("scsynth-v1", "3.13.0");
    backend.prepare_backend(&audio_topology()).unwrap();
    let ack = backend.execute_payload(&audio_payload("play"), None).unwrap();
    assert_eq!(ack.detail, "play kick.wav");
    let msgs = backend.drain_outbox();
    assert_eq!(msgs[0].address, "/b_allocRead");
    assert_eq!(msgs[1].address, "/s_new");
    assert_eq!(msgs[1].args[1], OscArg::Int(1000));
    assert!(backend.drain_outbox().is_empty());
    backend.process_reply(&done_msg(1001), ms(10.0));
    backend.process_reply(&status_reply(), ms(20.0));
    assert_eq!(backend.collect_backend_status().status, "healthy");
}
