use vidodo::capability::{
    error_envelope, mcp_tool_mappings, resolve_mcp_tool, route, CapabilityRegistry, OperationTracker, RouteTarget,
};
use vidodo::ir::{CapabilityRequest, Diagnostic};
use vidodo::policy::{ActorContext, PolicyDecision, PolicyEngine};

fn request(capability: &str) -> CapabilityRequest {
    CapabilityRequest {
        request_id: String::from("req-001"),
        capability: capability.to_string(),
        payload: serde_json::Value::Null,
        actor: None,
        metadata: None,
    }
}

fn actor(role: &str) -> ActorContext {
    ActorContext { role: role.to_string(), actor_id: String::from("test-actor") }
}

#[test]
fn default_registry_has_23_capabilities() {
    let registry = CapabilityRegistry::default();
    assert_eq!(registry.len(), 23);
}

#[test]
fn lookup_returns_descriptor() {
    let registry = CapabilityRegistry::default();
    let descriptor = registry.lookup("compile.run").expect("missing compile.run");
    assert_eq!(descriptor.execution_mode, "async");
    assert_eq!(descriptor.idempotency, "conditional");
}

#[test]
fn lookup_unknown_returns_none() {
    let registry = CapabilityRegistry::default();
    assert!(registry.lookup("unknown.verb").is_none());
}

#[test]
fn route_known_capability() {
    assert_eq!(route("asset.ingest"), Ok(RouteTarget::AssetIngest));
    assert_eq!(route("system.capabilities"), Ok(RouteTarget::SystemCapabilities));
}

#[test]
fn route_unknown_capability_returns_diagnostic() {
    let result = route("nonexistent.verb");
    assert!(result.is_err());
    let diag = result.unwrap_err();
    assert_eq!(diag.code, "CAP-001");
}

#[test]
fn operation_tracker_lifecycle() {
    let mut tracker = OperationTracker::new();
    let req = CapabilityRequest {
        request_id: String::from("req-001"),
        capability: String::from("compile.run"),
        payload: serde_json::Value::Null,
        actor: None,
        metadata: None,
    };
    let ticket = tracker.start(&req);
    assert_eq!(ticket.state, "running");
    assert_eq!(ticket.operation_id, "op-0001");
    assert!(ticket.started_at > 0, "started_at should be a real timestamp");
    assert!(ticket.updated_at.is_none());

    assert!(tracker.complete(&ticket.operation_id, vec![String::from("artifact.json")]));
    let updated = tracker.get(&ticket.operation_id).expect("missing ticket");
    assert_eq!(updated.state, "succeeded");
    assert_eq!(updated.artifact_refs, vec!["artifact.json"]);
    assert!(updated.updated_at.is_some(), "updated_at should be set on completion");
    assert!(updated.updated_at.unwrap() >= updated.started_at);
}

#[test]
fn operation_tracker_fail() {
    let mut tracker = OperationTracker::new();
    let req = CapabilityRequest {
        request_id: String::from("req-002"),
        capability: String::from("eval.run"),
        payload: serde_json::Value::Null,
        actor: None,
        metadata: None,
    };
    let ticket = tracker.start(&req);
    assert!(tracker.fail(&ticket.operation_id));
    let updated = tracker.get(&ticket.operation_id).expect("missing ticket");
    assert_eq!(updated.state, "failed");
    assert!(updated.updated_at.is_some(), "updated_at should be set on failure");
}

#[test]
fn start_if_async_creates_ticket_for_async_capability() {
    let mut tracker = OperationTracker::new();
    let registry = CapabilityRegistry::default();
    let req = CapabilityRequest {
        request_id: String::from("req-003"),
        capability: String::from("compile.run"),
        payload: serde_json::Value::Null,
        actor: None,
        metadata: None,
    };
    let ticket = tracker.start_if_async(&req, &registry);
    assert!(ticket.is_some(), "compile.run is async, should get a ticket");
    assert_eq!(tracker.list().len(), 1);
}

#[test]
fn start_if_async_skips_sync_capability() {
    let mut tracker = OperationTracker::new();
    let registry = CapabilityRegistry::default();
    let req = CapabilityRequest {
        request_id: String::from("req-004"),
        capability: String::from("asset.list"),
        payload: serde_json::Value::Null,
        actor: None,
        metadata: None,
    };
    let ticket = tracker.start_if_async(&req, &registry);
    assert!(ticket.is_none(), "asset.list is sync, should not get a ticket");
    assert!(tracker.list().is_empty());
}

#[test]
fn mcp_tool_mappings_has_23_entries() {
    let mappings = mcp_tool_mappings();
    assert_eq!(mappings.len(), 23);
    let registry = CapabilityRegistry::default();
    for m in &mappings {
        assert!(
            registry.lookup(&m.capability).is_some(),
            "MCP tool {} maps to unknown capability {}",
            m.tool_name,
            m.capability
        );
    }
}

#[test]
fn resolve_mcp_tool_known_and_unknown() {
    assert_eq!(resolve_mcp_tool("compile.run"), Some("compile.run"));
    assert_eq!(resolve_mcp_tool("patch.submit"), Some("patch.submit"));
    assert!(resolve_mcp_tool("nonexistent.tool").is_none());
}

#[test]
fn mcp_async_flags_match_capability_execution_mode() {
    let registry = CapabilityRegistry::default();
    for m in mcp_tool_mappings() {
        let desc = registry.lookup(&m.capability).unwrap();
        let expected_async = desc.execution_mode == "async";
        assert_eq!(
            m.is_async, expected_async,
            "MCP tool {} is_async={} but capability execution_mode={}",
            m.tool_name, m.is_async, desc.execution_mode
        );
    }
}

#[test]
fn first_descriptor_is_asset_ingest() {
    let registry = CapabilityRegistry::default();
    assert_eq!(registry.list()[0].capability, "asset.ingest");
    assert!(!registry.is_empty());
    assert!(CapabilityRegistry::new().is_empty());
}

#[test]
fn operation_ids_count_up_and_unknown_ids_are_refused() {
    let mut tracker = OperationTracker::new();
    let a = tracker.start(&request("compile.run"));
    let b = tracker.start(&request("eval.run"));
    assert_eq!(a.operation_id, "op-0001");
    assert_eq!(b.operation_id, "op-0002");
    assert!(!tracker.complete("op-9999", vec![]));
    assert!(!tracker.fail("op-9999"));
    assert!(tracker.get("op-9999").is_none());
    assert_eq!(tracker.list().len(), 2);
}

// ---- policy ----

#[test]
fn human_operator_full_access() {
    let engine = PolicyEngine::default_policy();
    let op = actor("human_operator");
    assert_eq!(engine.evaluate(&request("compile.run"), &op), PolicyDecision::Allow);
    assert_eq!(engine.evaluate(&request("patch.submit"), &op), PolicyDecision::Allow);
    assert_eq!(engine.evaluate(&request("patch.deferred_rollback"), &op), PolicyDecision::Allow);
    assert_eq!(engine.evaluate(&request("system.capabilities"), &op), PolicyDecision::Allow);
}

#[test]
fn external_agent_allowed_normal_capabilities() {
    let engine = PolicyEngine::default_policy();
    let agent = actor("external_agent");
    assert_eq!(engine.evaluate(&request("compile.run"), &agent), PolicyDecision::Allow);
    assert_eq!(engine.evaluate(&request("asset.list"), &agent), PolicyDecision::Allow);
    assert_eq!(engine.evaluate(&request("run.start"), &agent), PolicyDecision::Allow);
}

#[test]
fn external_agent_blocked_emergency_patch() {
    let engine = PolicyEngine::default_policy();
    let agent = actor("external_agent");
    let decision = engine.evaluate(&request("patch.submit"), &agent);
    assert!(matches!(decision, PolicyDecision::Deny { .. }));
    let decision2 = engine.evaluate(&request("patch.deferred_rollback"), &agent);
    assert!(matches!(decision2, PolicyDecision::Deny { .. }));
}

#[test]
fn auto_recovery_only_degrade_rollback() {
    let engine = PolicyEngine::default_policy();
    let auto = actor("auto_recovery");
    assert_eq!(engine.evaluate(&request("patch.rollback"), &auto), PolicyDecision::Allow);
    assert_eq!(engine.evaluate(&request("patch.deferred_rollback"), &auto), PolicyDecision::Allow);
    assert_eq!(engine.evaluate(&request("run.status"), &auto), PolicyDecision::Allow);
    assert_eq!(engine.evaluate(&request("system.doctor"), &auto), PolicyDecision::Allow);
    let denied = engine.evaluate(&request("compile.run"), &auto);
    assert!(matches!(denied, PolicyDecision::Deny { .. }));
    let denied2 = engine.evaluate(&request("patch.submit"), &auto);
    assert!(matches!(denied2, PolicyDecision::Deny { .. }));
}

#[test]
fn unknown_role_gets_default_deny() {
    let engine = PolicyEngine::default_policy();
    let unknown = actor("rogue_agent");
    let decision = engine.evaluate(&request("compile.run"), &unknown);
    assert!(matches!(decision, PolicyDecision::Deny { .. }));
}

#[test]
fn deny_diagnostic_produces_structured_error() {
    let decision = PolicyDecision::Deny { reason: String::from("AUZ-001: denied") };
    let diag = PolicyEngine::deny_diagnostic(&decision);
    assert!(diag.is_some());
    assert_eq!(diag.unwrap().code, "AUZ-001");
}

#[test]
fn allow_has_no_diagnostic() {
    assert!(PolicyEngine::deny_diagnostic(&PolicyDecision::Allow).is_none());
}

#[test]
fn error_envelope_carries_the_one_diagnostic() {
    let d = Diagnostic::error("CAP-001", "unsupported capability: nope");
    let e = error_envelope::<Vec<String>>("nope", "req-7", d.clone());
    assert_eq!(e.status, "error");
    assert_eq!(e.capability, "nope");
    assert_eq!(e.request_id, "req-7");
    assert!(e.data.is_empty());
    assert_eq!(e.diagnostics, vec![d]);
    assert!(e.artifacts.is_empty());
    assert!(e.next_actions.is_empty());
}

#[test]
fn operation_tracker_records_given_times() {
    let mut tracker = OperationTracker::new();
    let req = CapabilityRequest {
        request_id: String::from("req-7"),
        capability: String::from("compile.run"),
        payload: serde_json::Value::Null,
        actor: None,
        metadata: None,
    };
    let a = tracker.start_at(&req, 1_000);
    let b = tracker.start_at(&req, 1_500);
    assert_eq!(a.started_at, 1_000);
    assert_eq!(b.operation_id, "op-0002");
    assert!(tracker.complete_at(&a.operation_id, vec![String::from("x.json")], 2_000));
    assert!(tracker.fail_at(&b.operation_id, 2_500));
    assert!(!tracker.complete_at("op-9999", Vec::new(), 3_000));
    let ta = tracker.get(&a.operation_id).unwrap();
    assert_eq!(ta.state, "succeeded");
    assert_eq!(ta.started_at, 1_000);
    assert_eq!(ta.updated_at, Some(2_000));
    let tb = tracker.get(&b.operation_id).unwrap();
    assert_eq!(tb.state, "failed");
    assert_eq!(tb.updated_at, Some(2_500));
}

#[test]
fn route_accepts_exactly_the_default_registry_names() {
    let reg = CapabilityRegistry::default_registry();
    for d in reg.list() {
        assert!(route(&d.capability).is_ok(), "{} should route", d.capability);
    }
    for name in ["asset.ingest", "system.hubs", "nope", "asset", "ASSET.INGEST", ""] {
        assert_eq!(route(name).is_ok(), reg.lookup(name).is_some(), "{name}");
    }
}
