use vidodo::adapters::{load_adapters, readiness_check, AdapterKind};
use vidodo::adapters::{AdapterRegistry, ExampleAudioAnalyzer, ExampleVisualExecutor, HealthSummary};
use vidodo::hub::{ResolvedResource, ResolverCache, ResourceHubRegistry};
use vidodo::ir::{
    AdapterPluginManifest, BackendDescription, BackendHealthSnapshot, BackendTopology, DegradeMode, ExecutablePayload,
    HealthContract, HubCompatibility, ResourceHubDescriptor,
};

fn sample_manifest(id: &str, backend: &str) -> AdapterPluginManifest {
    AdapterPluginManifest {
        plugin_id: id.to_string(),
        plugin_kind: String::from("audio_output"),
        backend_kind: backend.to_string(),
        version: String::from("1.0.0"),
        capabilities: vec![String::from("play")],
        target_topology_types: Vec::new(),
        health_contract: Some(HealthContract { reports_ack: true, reports_status: true, supports_degrade_mode: false }),
        status: Some(String::from("ready")),
    }
}

fn snapshot(plugin: &str, status: &str) -> BackendHealthSnapshot {
    BackendHealthSnapshot {
        backend_ref: String::from("b"),
        plugin_ref: plugin.to_string(),
        status: status.to_string(),
        timestamp: String::from("2026-01-01T00:00:00Z"),
        latency_ms_bits: None,
        error_count: None,
        last_ack_lag_ms_bits: None,
        degrade_reason: None,
    }
}

fn sample_hub(id: &str, kind: &str, provides: &[&str]) -> ResourceHubDescriptor {
    ResourceHubDescriptor {
        hub_id: id.to_string(),
        resource_kind: kind.to_string(),
        version: String::from("1.0.0"),
        locator: format!("file:///hubs/{id}"),
        provides: provides.iter().map(|s| s.to_string()).collect(),
        compatibility: Some(HubCompatibility {
            runtime: vec![String::from("vidodo-1.0")],
            backends: Vec::new(),
            schema_versions: Vec::new(),
        }),
        status: Some(String::from("available")),
        tags: Vec::new(),
    }
}

// ---- adapter registry ----

#[test]
fn lib_register_and_lookup() {
    let mut registry = AdapterRegistry::new();
    registry.register(sample_manifest("audio-1", "fake_audio_backend")).unwrap();
    let adapter = registry.lookup("audio-1").unwrap();
    assert_eq!(adapter.backend_kind, "fake_audio_backend");
}

#[test]
fn lib_duplicate_registration_returns_error() {
    let mut registry = AdapterRegistry::new();
    registry.register(sample_manifest("dup", "fake")).unwrap();
    let result = registry.register(sample_manifest("dup", "fake"));
    assert!(result.is_err());
    assert!(result.unwrap_err().contains("ADP-001"));
}

#[test]
fn lib_unknown_plugin_returns_error() {
    let registry = AdapterRegistry::new();
    let result = registry.lookup("nonexistent");
    assert!(result.is_err());
    assert!(result.unwrap_err().contains("ADP-002"));
}

#[test]
fn lib_list_and_filter_by_backend() {
    let mut registry = AdapterRegistry::new();
    registry.register(sample_manifest("a1", "fake_audio")).unwrap();
    registry.register(sample_manifest("v1", "fake_visual")).unwrap();
    registry.register(sample_manifest("a2", "fake_audio")).unwrap();
    assert_eq!(registry.list().len(), 3);
    assert_eq!(registry.list_by_backend("fake_audio").len(), 2);
    assert_eq!(registry.list_by_backend("fake_visual").len(), 1);
    assert!(registry.list_by_backend("unknown").is_empty());
}

#[test]
fn health_summary_aggregates_snapshots() {
    let mut registry = AdapterRegistry::new();
    registry.register(sample_manifest("p1", "fake")).unwrap();
    registry.register(sample_manifest("p2", "fake")).unwrap();
    registry.register(sample_manifest("p3", "fake")).unwrap();
    let snapshots = vec![
        snapshot("p1", "healthy"),
        BackendHealthSnapshot {
            backend_ref: String::from("b2"),
            plugin_ref: String::from("p2"),
            status: String::from("degraded"),
            timestamp: String::from("2026-01-01T00:00:00Z"),
            latency_ms_bits: Some(150.0f64.to_bits()),
            error_count: Some(3),
            last_ack_lag_ms_bits: None,
            degrade_reason: Some(String::from("high latency")),
        },
    ];
    let summary = registry.health_summary(&snapshots);
    assert_eq!(summary.total, 3);
    assert_eq!(summary.healthy, 1);
    assert_eq!(summary.degraded, 1);
    assert_eq!(summary.offline, 1);
}

#[test]
fn health_summary_ignores_unregistered_and_counts_each_snapshot() {
    let mut registry = AdapterRegistry::new();
    registry.register(sample_manifest("p1", "fake")).unwrap();
    registry.register(sample_manifest("p2", "fake")).unwrap();
    let snapshots = vec![
        snapshot("p1", "ok"),
        snapshot("p1", "error"),
        snapshot("ghost", "healthy"),
        snapshot("p1", "weird"),
    ];
    let summary = registry.health_summary(&snapshots);
    assert_eq!(summary, HealthSummary { total: 2, healthy: 1, degraded: 0, offline: 3 });
}

#[test]
fn registry_errors_and_order() {
    let mut registry = AdapterRegistry::new();
    registry.register(sample_manifest("zeta", "x")).unwrap();
    registry.register(sample_manifest("alpha", "x")).unwrap();
    assert_eq!(
        registry.register(sample_manifest("zeta", "y")).unwrap_err(),
        "ADP-001: adapter plugin 'zeta' is already registered"
    );
    assert_eq!(registry.lookup("zeta").unwrap().backend_kind, "x");
    assert_eq!(registry.lookup("nope").unwrap_err(), "ADP-002: unknown plugin_id 'nope'");
    let ids: Vec<&str> = registry.list().iter().map(|m| m.plugin_id.as_str()).collect();
    assert_eq!(ids, vec!["alpha", "zeta"]);
    assert!(registry.health_contract("alpha").unwrap().reports_ack);
    assert!(registry.health_contract("nope").is_none());
}

#[test]
fn analyzer_reports_ready() {
    let analyzer = ExampleAudioAnalyzer::new("example-audio-analyzer");
    assert!(analyzer.ready());
    assert_eq!(analyzer.analyzer_id(), "example-audio-analyzer");
}

#[test]
fn registry_can_load_and_query_analyzer() {
    let manifest = AdapterPluginManifest {
        plugin_id: String::from("example-audio-analyzer"),
        plugin_kind: String::from("audio_analyzer"),
        backend_kind: String::from("analysis"),
        version: String::from("0.1.0"),
        capabilities: vec![String::from("beat_track"), String::from("spectral_analysis")],
        target_topology_types: Vec::new(),
        health_contract: Some(HealthContract { reports_ack: false, reports_status: true, supports_degrade_mode: false }),
        status: Some(String::from("ready")),
    };
    let mut registry = AdapterRegistry::new();
    registry.register(manifest).unwrap();
    let adapter = registry.lookup("example-audio-analyzer").unwrap();
    assert_eq!(adapter.plugin_kind, "audio_analyzer");
    assert!(adapter.capabilities.contains(&String::from("beat_track")));
}

// ---- example visual executor ----

fn visual_topology() -> BackendTopology {
    BackendTopology::Visual {
        topology_ref: String::from("flat-display-a"),
        calibration_profile: None,
        display_endpoints: vec![],
    }
}

fn visual_payload() -> ExecutablePayload {
    ExecutablePayload::Visual {
        scene_id: String::from("scene_intro"),
        shader_program: String::from("default"),
        uniforms: std::collections::BTreeMap::new(),
        duration_beats: Some(4),
        blend: Some(String::from("alpha")),
        view_group: Some(String::from("main")),
    }
}

#[test]
fn prepare_and_execute_visual_payload() {
    let mut executor = ExampleVisualExecutor::new("example-vis-1");
    let desc = executor.describe_backend();
    assert_eq!(desc.backend_kind, "visual");
    assert_eq!(desc.status, "idle");
    executor.prepare_backend(&visual_topology()).unwrap();
    assert_eq!(executor.describe_backend().status, "ready");
    let ack = executor.execute_payload(&visual_payload()).unwrap();
    assert_eq!(ack.status, "ok");
    assert_eq!(ack.target, "scene_intro");
    assert_eq!(ack.detail, "rendered scene scene_intro");
    assert_eq!(executor.execute_count(), 1);
}

#[test]
fn reject_non_visual_payload() {
    let mut executor = ExampleVisualExecutor::new("example-vis-1");
    executor.prepare_backend(&visual_topology()).unwrap();
    let payload = ExecutablePayload::Audio {
        layer_id: String::from("layer-a"),
        op: String::from("start"),
        target_asset_id: None,
        gain_db_bits: None,
        duration_beats: Some(4),
        route_set_ref: None,
        speaker_group: vec![],
    };
    assert!(executor.execute_payload(&payload).is_err());
}

#[test]
fn shutdown_prevents_execution() {
    let mut executor = ExampleVisualExecutor::new("example-vis-1");
    executor.shutdown_backend().unwrap();
    assert!(executor.execute_payload(&visual_payload()).is_err());
}

#[test]
fn registry_can_load_and_query_visual_executor() {
    let executor = ExampleVisualExecutor::new("example-vis-1");
    let desc = executor.describe_backend();
    assert_eq!(desc.plugin_id, "example-vis-1");
    assert!(desc.capabilities.contains(&String::from("scene_switch")));
    let status = executor.collect_backend_status();
    assert_eq!(status.status, "idle");
    assert_eq!(status.error_count, Some(0));
}

#[test]
fn visual_executor_status_and_errors() {
    let mut executor = ExampleVisualExecutor::new("vis");
    let degrade = DegradeMode { mode: String::from("reduced"), reason: String::new(), affected_backends: vec![], fallback_action: None };
    assert!(executor.apply_degrade_mode(&degrade).is_ok());
    assert_eq!(executor.prepare_backend(&BackendTopology::Audio {
        topology_ref: String::from("a"),
        calibration_profile: None,
        speaker_endpoints: vec![],
    }).unwrap_err(), "EXVIS-002: expected Visual topology");
    executor.execute_payload(&visual_payload()).unwrap();
    executor.execute_payload(&visual_payload()).unwrap();
    let status = executor.collect_backend_status();
    assert_eq!(status.detail.as_deref(), Some("executed 2 payloads"));
    assert_eq!(status.latency_ms_bits, Some(0.5f64.to_bits()));
    assert!(executor.apply_show_state().is_ok());
    executor.shutdown_backend().unwrap();
    assert_eq!(executor.describe_backend().status, "shutdown");
    assert_eq!(executor.apply_show_state().unwrap_err(), "EXVIS-003: backend already shut down");
    assert_eq!(executor.prepare_backend(&visual_topology()).unwrap_err(), "EXVIS-001: backend already shut down");
    assert_eq!(executor.execute_payload(&visual_payload()).unwrap_err(), "EXVIS-004: backend already shut down");
}

// ---- resource hubs ----

#[test]
fn register_and_lookup_hub() {
    let mut registry = ResourceHubRegistry::new();
    registry.register_hub(sample_hub("audio-std", "audio_asset_hub", &["kick.wav", "snare.wav"])).unwrap();
    let hub = registry.lookup("audio-std").unwrap();
    assert_eq!(hub.resource_kind, "audio_asset_hub");
}

#[test]
fn lib_duplicate_hub_returns_error() {
    let mut registry = ResourceHubRegistry::new();
    registry.register_hub(sample_hub("dup", "audio_asset_hub", &["x"])).unwrap();
    let result = registry.register_hub(sample_hub("dup", "audio_asset_hub", &["y"]));
    assert!(result.is_err());
    assert!(result.unwrap_err().contains("HUB-001"));
}

#[test]
fn lib_unknown_hub_returns_error() {
    let registry = ResourceHubRegistry::new();
    let result = registry.lookup("nonexistent");
    assert!(result.is_err());
    assert!(result.unwrap_err().contains("HUB-002"));
}

#[test]
fn lib_list_and_filter_by_kind() {
    let mut registry = ResourceHubRegistry::new();
    registry.register_hub(sample_hub("a1", "audio_asset_hub", &["kick"])).unwrap();
    registry.register_hub(sample_hub("g1", "glsl_scene_hub", &["fade"])).unwrap();
    registry.register_hub(sample_hub("a2", "audio_asset_hub", &["snare"])).unwrap();
    assert_eq!(registry.list_hubs().len(), 3);
    assert_eq!(registry.list_by_kind("audio_asset_hub").len(), 2);
    assert_eq!(registry.list_by_kind("glsl_scene_hub").len(), 1);
    assert!(registry.list_by_kind("texture_hub").is_empty());
}

#[test]
fn lib_resolve_resource_finds_provider() {
    let mut registry = ResourceHubRegistry::new();
    registry.register_hub(sample_hub("audio-std", "audio_asset_hub", &["kick.wav", "snare.wav"])).unwrap();
    registry.register_hub(sample_hub("glsl-stage", "glsl_scene_hub", &["fade-shader"])).unwrap();
    let resolved = registry.resolve_resource("kick.wav").unwrap();
    assert_eq!(resolved.hub_id, "audio-std");
    assert_eq!(resolved.resource_kind, "audio_asset_hub");
    let resolved = registry.resolve_resource("fade-shader").unwrap();
    assert_eq!(resolved.hub_id, "glsl-stage");
}

#[test]
fn lib_resolve_unknown_resource_returns_error() {
    let registry = ResourceHubRegistry::new();
    let result = registry.resolve_resource("missing");
    assert!(result.is_err());
    assert!(result.unwrap_err().contains("HUB-003"));
}

#[test]
fn resolve_prefers_first_hub_in_id_order() {
    let mut registry = ResourceHubRegistry::new();
    registry.register_hub(sample_hub("zz", "audio", &["x.wav"])).unwrap();
    registry.register_hub(sample_hub("aa", "audio", &["x.wav"])).unwrap();
    assert_eq!(registry.resolve_resource("x.wav").unwrap().hub_id, "aa");
    assert_eq!(registry.resolve_resource("y.wav").unwrap_err(), "HUB-003: no hub provides resource 'y.wav'");
    assert_eq!(registry.register_hub(sample_hub("aa", "audio", &[])).unwrap_err(), "HUB-001: resource hub 'aa' is already registered");
    assert_eq!(registry.lookup("bb").unwrap_err(), "HUB-002: unknown hub_id 'bb'");
}

// ---- resolver cache ----

fn resolved(hub: &str) -> ResolvedResource {
    ResolvedResource { hub_id: hub.to_string(), locator: format!("file:///hubs/{hub}"), resource_kind: String::from("audio") }
}

#[test]
fn resolve_from_sqlite_then_cache() {
    let mut cache = ResolverCache::new(16);
    assert!(cache.lookup("kick.wav").is_none());
    cache.record_miss();
    cache.store("kick.wav", resolved("audio-std"));
    let stats1 = cache.stats();
    assert_eq!(stats1.hits, 0);
    assert_eq!(stats1.misses, 1);
    assert_eq!(stats1.entries, 1);
    let r2 = cache.lookup("kick.wav").unwrap();
    assert_eq!(r2, resolved("audio-std"));
    let stats2 = cache.stats();
    assert_eq!(stats2.hits, 1);
    assert_eq!(stats2.misses, 1);
}

#[test]
fn cache_eviction() {
    let mut cache = ResolverCache::new(2);
    for name in ["a.wav", "b.wav", "c.wav"] {
        assert!(cache.lookup(name).is_none());
        cache.record_miss();
        cache.store(name, resolved("hub-1"));
    }
    let stats = cache.stats();
    assert_eq!(stats.entries, 2);
    assert_eq!(stats.misses, 3);
    assert!(cache.lookup("a.wav").is_none());
    assert!(cache.lookup("c.wav").is_some());
}

#[test]
fn clear_cache_resets_entries() {
    let mut cache = ResolverCache::new(0);
    cache.store("x.wav", resolved("hub-x"));
    assert_eq!(cache.stats().entries, 1);
    cache.clear();
    assert_eq!(cache.stats().entries, 0);
    assert!(cache.lookup("x.wav").is_none());
}

#[test]
fn load_single_null_adapter() {
    let mut m = sample_manifest("audio-null", "fake_audio_backend");
    m.plugin_kind = String::from("null");
    assert_eq!(load_adapters(&[m]).unwrap(), vec![AdapterKind::Null]);
}

#[test]
fn load_multiple_adapters() {
    let kinds = ["audio_output", "visual_output", "lighting_output", "null_backend"];
    let manifests: Vec<AdapterPluginManifest> = kinds
        .iter()
        .enumerate()
        .map(|(i, k)| {
            let mut m = sample_manifest(&format!("p{i}"), "fake");
            m.plugin_kind = k.to_string();
            m
        })
        .collect();
    assert_eq!(
        load_adapters(&manifests).unwrap(),
        vec![AdapterKind::AudioOutput, AdapterKind::VisualOutput, AdapterKind::LightingOutput, AdapterKind::Null]
    );
}

#[test]
fn unknown_plugin_kind_returns_error() {
    let mut m = sample_manifest("bad", "fake");
    m.plugin_kind = String::from("quantum_backend");
    let result = load_adapters(&[sample_manifest("ok", "fake"), m]);
    // "audio_output" is the sample kind, so the first manifest loads
    let diag = result.unwrap_err();
    assert_eq!(diag.code, "LDR-001");
    assert!(diag.message.contains("quantum_backend"));
    assert_eq!(diag.message, "unknown plugin_kind 'quantum_backend' for plugin 'bad'");
}

fn description(id: &str, status: &str) -> BackendDescription {
    BackendDescription {
        plugin_id: id.to_string(),
        backend_kind: String::from("null"),
        capabilities: vec![],
        topology_types: vec![],
        status: status.to_string(),
    }
}

#[test]
fn readiness_check_filters_errored_adapters() {
    let mut a1 = sample_manifest("a1", "audio");
    a1.plugin_kind = String::from("null");
    let mut a2 = sample_manifest("a2", "visual");
    a2.plugin_kind = String::from("null");
    let manifests = vec![a1, a2];
    let loaded = load_adapters(&manifests).unwrap();
    let descriptions = vec![description("a1", "idle"), description("a2", "idle")];
    let (ready, rejected) = readiness_check(&loaded, descriptions);
    assert_eq!(ready.len(), 2);
    assert!(rejected.is_empty());
}

#[test]
fn readiness_check_hands_back_errored_descriptions_in_order() {
    let adapters = vec!["a", "b", "c", "d"];
    let descriptions =
        vec![description("a", "error"), description("b", "ready"), description("c", "error"), description("d", "idle")];
    let (ready, rejected) = readiness_check(&adapters, descriptions);
    assert_eq!(ready, vec![&"b", &"d"]);
    assert_eq!(rejected.iter().map(|d| d.plugin_id.as_str()).collect::<Vec<_>>(), vec!["a", "c"]);
}

#[test]
fn visual_count_is_the_accepted_payloads_of_a_run() {
    let mut executor = ExampleVisualExecutor::new("vis-run");
    assert_eq!(executor.execute_count(), 0);
    executor.prepare_backend(&visual_topology()).unwrap();
    let audio = ExecutablePayload::Audio {
        layer_id: String::from("layer-a"),
        op: String::from("start"),
        target_asset_id: None,
        gain_db_bits: None,
        duration_beats: None,
        route_set_ref: None,
        speaker_group: vec![],
    };
    assert!(executor.execute_payload(&visual_payload()).is_ok());
    assert!(executor.execute_payload(&audio).is_err());
    assert!(executor.execute_payload(&visual_payload()).is_ok());
    assert!(executor.apply_show_state().is_ok());
    executor.shutdown_backend().unwrap();
    assert!(executor.execute_payload(&visual_payload()).is_err());
    assert_eq!(executor.execute_count(), 2);
}
