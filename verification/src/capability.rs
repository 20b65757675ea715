//! Capability registry, routing, tool mapping and operation tracking.

use vstd::prelude::*;
use crate::ir::{CapabilityDescriptor, CapabilityRequest, Diagnostic, OperationTicket, ResponseEnvelope};
use crate::text::{decimal, join2, push_decimal, push_padded_decimal, str_eq, zero_pad};

verus! {

// ---------------------------------------------------------------------------
// The built-in capability table
// ---------------------------------------------------------------------------

/// Names of the built-in capabilities, in registration order.
pub open spec fn builtin_names() -> Seq<Seq<char>> {
    seq![        "asset.ingest"@,
        "asset.list"@,
        "asset.show"@,
        "plan.validate"@,
        "plan.submit"@,
        "compile.run"@,
        "revision.list"@,
        "revision.publish"@,
        "revision.archive"@,
        "run.start"@,
        "run.status"@,
        "patch.check"@,
        "patch.submit"@,
        "patch.rollback"@,
        "patch.deferred_rollback"@,
        "trace.show"@,
        "trace.events"@,
        "eval.run"@,
        "export.audio"@,
        "system.doctor"@,
        "system.capabilities"@,
        "system.adapters"@,
        "system.hubs"@,
    ]
}
/// Execution modes of the built-in capabilities, by position.
pub open spec fn builtin_modes() -> Seq<Seq<char>> {
    seq![        "async"@,
        "sync"@,
        "sync"@,
        "sync"@,
        "async"@,
        "async"@,
        "sync"@,
        "sync"@,
        "sync"@,
        "async"@,
        "sync"@,
        "sync"@,
        "async"@,
        "sync"@,
        "sync"@,
        "sync"@,
        "sync"@,
        "async"@,
        "async"@,
        "sync"@,
        "sync"@,
        "sync"@,
        "sync"@,
    ]
}
/// Idempotency classes of the built-in capabilities, by position.
pub open spec fn builtin_idempotency() -> Seq<Seq<char>> {
    seq![        "conditional"@,
        "idempotent"@,
        "idempotent"@,
        "idempotent"@,
        "conditional"@,
        "conditional"@,
        "idempotent"@,
        "conditional"@,
        "conditional"@,
        "conditional"@,
        "idempotent"@,
        "idempotent"@,
        "conditional"@,
        "conditional"@,
        "conditional"@,
        "idempotent"@,
        "idempotent"@,
        "conditional"@,
        "conditional"@,
        "idempotent"@,
        "idempotent"@,
        "idempotent"@,
        "idempotent"@,
    ]
}
/// Authorized roles of the built-in capabilities, by position.
pub open spec fn builtin_authorization() -> Seq<Seq<Seq<char>>> {
    seq![        seq!["operator"@],
        seq!["operator"@, "planner"@],
        seq!["operator"@, "planner"@],
        seq!["planner"@],
        seq!["planner"@],
        seq!["planner"@],
        seq!["operator"@, "planner"@],
        seq!["operator"@],
        seq!["operator"@],
        seq!["operator"@],
        seq!["operator"@, "planner"@],
        seq!["planner"@],
        seq!["planner"@],
        seq!["operator"@],
        seq!["operator"@],
        seq!["operator"@, "planner"@],
        seq!["operator"@, "planner"@],
        seq!["planner"@],
        seq!["operator"@],
        seq!["operator"@],
        seq!["operator"@, "planner"@],
        seq!["operator"@],
        seq!["operator"@],
    ]
}
/// Descriptions of the built-in capabilities, by position.
pub open spec fn builtin_descriptions() -> Seq<Seq<char>> {
    seq![        "Import assets from a source directory"@,
        "List published assets"@,
        "Show asset details and analysis"@,
        "Validate a plan bundle"@,
        "Submit a plan bundle for compilation"@,
        "Compile a plan into a candidate revision"@,
        "List revisions for a show"@,
        "Publish a candidate revision"@,
        "Archive a revision"@,
        "Start a live or offline run"@,
        "Query current run status"@,
        "Pre-check a patch proposal"@,
        "Submit a patch proposal"@,
        "Roll back an active patch"@,
        "Trigger deferred rollback on anomaly"@,
        "Show trace manifest for a run"@,
        "Query trace events by bar range"@,
        "Generate evaluation report from a trace"@,
        "Export audio from a trace run"@,
        "Run full pipeline health check"@,
        "List available capabilities"@,
        "List registered adapter plugins"@,
        "List registered resource hubs"@,
    ]
}
/// Whether the tool of the same name is read-only, by position.
pub open spec fn builtin_read_only() -> Seq<bool> {
    seq![false, true, true, true, false, false, true, false, false, false, true, true, false, false, false, true, true, false, false, true, true, true, true]
}
/// Input and output JSON schemas of a capability (both empty when unknown).
pub open spec fn spec_schemas(capability: Seq<char>) -> (Seq<char>, Seq<char>) {
    if capability == "asset.ingest"@ {
        (r#"{"type":"object","properties":{"source_dir":{"type":"string"},"declared_kind":{"type":"string"},"tags":{"type":"array","items":{"type":"string"}},"asset_namespace":{"type":"string"}},"required":["source_dir","declared_kind"]}"#@, r#"{"type":"object","properties":{"ingestion_run_id":{"type":"string"},"discovered":{"type":"integer"},"published":{"type":"integer"},"assets":{"type":"array","items":{"type":"string"}}}}"#@)
    }     else if capability == "asset.list"@ {
        (r#"{"type":"object","properties":{"kind":{"type":"string"},"tag":{"type":"string"}}}"#@, r#"{"type":"object","properties":{"count":{"type":"integer"},"assets":{"type":"array"}}}"#@)
    }     else if capability == "asset.show"@ {
        (r#"{"type":"object","properties":{"asset_id":{"type":"string"}},"required":["asset_id"]}"#@, r#"{"type":"object","properties":{"asset":{"type":"object"},"analysis_entries":{"type":"array"},"analysis_jobs":{"type":"array"}}}"#@)
    }     else if capability == "plan.validate"@ {
        (r#"{"type":"object","properties":{"plan_dir":{"type":"string"},"plan":{"type":"object"}}}"#@, r#"{"type":"object","properties":{"show_id":{"type":"string"},"section_count":{"type":"integer"},"audio_layer_count":{"type":"integer"},"visual_scene_count":{"type":"integer"}}}"#@)
    }     else if capability == "plan.submit"@ {
        (r#"{"type":"object","properties":{"plan_dir":{"type":"string"},"plan":{"type":"object"}}}"#@, r#"{"type":"object","properties":{"show_id":{"type":"string"},"revision":{"type":"integer"},"compile_run_id":{"type":"string"},"timeline_entries":{"type":"integer"}}}"#@)
    }     else if capability == "compile.run"@ {
        (r#"{"type":"object","properties":{"plan_dir":{"type":"string"},"plan":{"type":"object"}}}"#@, r#"{"type":"object","properties":{"show_id":{"type":"string"},"revision":{"type":"integer"},"compile_run_id":{"type":"string"},"timeline_entries":{"type":"integer"}}}"#@)
    }     else if capability == "revision.list"@ {
        (r#"{"type":"object","properties":{"show_id":{"type":"string"}},"required":["show_id"]}"#@, r#"{"type":"object","properties":{"show_id":{"type":"string"},"revisions":{"type":"array"}}}"#@)
    }     else if capability == "revision.publish"@ || capability == "revision.archive"@ {
        (r#"{"type":"object","properties":{"show_id":{"type":"string"},"revision":{"type":"integer"}},"required":["show_id","revision"]}"#@, r#"{"type":"object","properties":{"note":{"type":"string"}}}"#@)
    }     else if capability == "run.start"@ {
        (r#"{"type":"object","properties":{"show_id":{"type":"string"},"revision":{"type":"integer"}},"required":["show_id","revision"]}"#@, r#"{"type":"object","properties":{"run_id":{"type":"string"},"show_id":{"type":"string"},"revision":{"type":"integer"},"event_count":{"type":"integer"},"trace_bundle_id":{"type":"string"}}}"#@)
    }     else if capability == "run.status"@ {
        (r#"{"type":"object","properties":{"show_id":{"type":"string"}},"required":["show_id"]}"#@, r#"{"type":"object","properties":{"show_id":{"type":"string"},"run_id":{"type":"string"},"revision":{"type":"integer"},"status":{"type":"string"}}}"#@)
    }     else if capability == "patch.check"@ {
        (r#"{"type":"object","properties":{"show_id":{"type":"string"},"patch":{"type":"object"}},"required":["show_id","patch"]}"#@, r#"{"type":"object","properties":{"show_id":{"type":"string"},"base_revision":{"type":"integer"},"patch_id":{"type":"string"}}}"#@)
    }     else if capability == "patch.submit"@ {
        (r#"{"type":"object","properties":{"show_id":{"type":"string"},"patch":{"type":"object"}},"required":["show_id","patch"]}"#@, r#"{"type":"object","properties":{"show_id":{"type":"string"},"patch_id":{"type":"string"},"effective_revision":{"type":"integer"}}}"#@)
    }     else if capability == "patch.rollback"@ {
        (r#"{"type":"object","properties":{"show_id":{"type":"string"},"patch_id":{"type":"string"}},"required":["show_id","patch_id"]}"#@, r#"{"type":"object","properties":{"show_id":{"type":"string"},"patch_id":{"type":"string"},"fallback_revision":{"type":"integer"}}}"#@)
    }     else if capability == "patch.deferred_rollback"@ {
        (r#"{"type":"object","properties":{"show_id":{"type":"string"},"patch_id":{"type":"string"},"anomaly":{"type":"string"}},"required":["show_id","patch_id","anomaly"]}"#@, r#"{"type":"object","properties":{"show_id":{"type":"string"},"patch_id":{"type":"string"},"decision":{"type":"string"},"fallback_revision":{"type":"integer"}}}"#@)
    }     else if capability == "trace.show"@ {
        (r#"{"type":"object","properties":{"run_id":{"type":"string"}},"required":["run_id"]}"#@, r#"{"type":"object","properties":{"trace_bundle_id":{"type":"string"},"show_id":{"type":"string"},"revision":{"type":"integer"}}}"#@)
    }     else if capability == "trace.events"@ {
        (r#"{"type":"object","properties":{"run_id":{"type":"string"},"from_bar":{"type":"integer"},"to_bar":{"type":"integer"}},"required":["run_id"]}"#@, r#"{"type":"object","properties":{"run_id":{"type":"string"},"event_count":{"type":"integer"},"events":{"type":"array"}}}"#@)
    }     else if capability == "eval.run"@ {
        (r#"{"type":"object","properties":{"show_id":{"type":"string"},"run_id":{"type":"string"}},"required":["show_id"]}"#@, r#"{"type":"object","properties":{"run_id":{"type":"string"},"metrics":{"type":"object"}}}"#@)
    }     else if capability == "export.audio"@ {
        (r#"{"type":"object","properties":{"run_id":{"type":"string"}},"required":["run_id"]}"#@, r#"{"type":"object","properties":{"artifact_id":{"type":"string"},"locator":{"type":"string"},"content_hash":{"type":"string"},"duration_sec":{"type":"number"}}}"#@)
    }     else if capability == "system.doctor"@ {
        (r#"{"type":"object","properties":{}}"#@, r#"{"type":"object","properties":{"status":{"type":"string"}}}"#@)
    }     else if capability == "system.capabilities"@ {
        (r#"{"type":"object","properties":{}}"#@, r#"{"type":"object","properties":{"count":{"type":"integer"},"capabilities":{"type":"array","items":{"type":"object","properties":{"capability":{"type":"string"},"version":{"type":"string"},"execution_mode":{"type":"string"},"description":{"type":"string"},"input_schema":{"type":"string"},"output_schema":{"type":"string"}}}}}}"#@)
    }     else if capability == "system.adapters"@ {
        (r#"{"type":"object","properties":{"backend_kind":{"type":"string"}}}"#@, r#"{"type":"object","properties":{"count":{"type":"integer"},"adapters":{"type":"array","items":{"type":"object"}}}}"#@)
    }     else if capability == "system.hubs"@ {
        (r#"{"type":"object","properties":{"resource_kind":{"type":"string"}}}"#@, r#"{"type":"object","properties":{"count":{"type":"integer"},"hubs":{"type":"array","items":{"type":"object"}}}}"#@)
    } else {
        (Seq::empty(), Seq::empty())
    }
}

/// The input and output schemas of `capability`.
fn capability_schemas(capability: &str) -> (r: (String, String))
    ensures
        r.0@ == spec_schemas(capability@).0,
        r.1@ == spec_schemas(capability@).1,
{
    if str_eq(capability, "asset.ingest") {
        (String::from_str(r#"{"type":"object","properties":{"source_dir":{"type":"string"},"declared_kind":{"type":"string"},"tags":{"type":"array","items":{"type":"string"}},"asset_namespace":{"type":"string"}},"required":["source_dir","declared_kind"]}"#), String::from_str(r#"{"type":"object","properties":{"ingestion_run_id":{"type":"string"},"discovered":{"type":"integer"},"published":{"type":"integer"},"assets":{"type":"array","items":{"type":"string"}}}}"#))
    }     else if str_eq(capability, "asset.list") {
        (String::from_str(r#"{"type":"object","properties":{"kind":{"type":"string"},"tag":{"type":"string"}}}"#), String::from_str(r#"{"type":"object","properties":{"count":{"type":"integer"},"assets":{"type":"array"}}}"#))
    }     else if str_eq(capability, "asset.show") {
        (String::from_str(r#"{"type":"object","properties":{"asset_id":{"type":"string"}},"required":["asset_id"]}"#), String::from_str(r#"{"type":"object","properties":{"asset":{"type":"object"},"analysis_entries":{"type":"array"},"analysis_jobs":{"type":"array"}}}"#))
    }     else if str_eq(capability, "plan.validate") {
        (String::from_str(r#"{"type":"object","properties":{"plan_dir":{"type":"string"},"plan":{"type":"object"}}}"#), String::from_str(r#"{"type":"object","properties":{"show_id":{"type":"string"},"section_count":{"type":"integer"},"audio_layer_count":{"type":"integer"},"visual_scene_count":{"type":"integer"}}}"#))
    }     else if str_eq(capability, "plan.submit") {
        (String::from_str(r#"{"type":"object","properties":{"plan_dir":{"type":"string"},"plan":{"type":"object"}}}"#), String::from_str(r#"{"type":"object","properties":{"show_id":{"type":"string"},"revision":{"type":"integer"},"compile_run_id":{"type":"string"},"timeline_entries":{"type":"integer"}}}"#))
    }     else if str_eq(capability, "compile.run") {
        (String::from_str(r#"{"type":"object","properties":{"plan_dir":{"type":"string"},"plan":{"type":"object"}}}"#), String::from_str(r#"{"type":"object","properties":{"show_id":{"type":"string"},"revision":{"type":"integer"},"compile_run_id":{"type":"string"},"timeline_entries":{"type":"integer"}}}"#))
    }     else if str_eq(capability, "revision.list") {
        (String::from_str(r#"{"type":"object","properties":{"show_id":{"type":"string"}},"required":["show_id"]}"#), String::from_str(r#"{"type":"object","properties":{"show_id":{"type":"string"},"revisions":{"type":"array"}}}"#))
    }     else if str_eq(capability, "revision.publish") || str_eq(capability, "revision.archive") {
        (String::from_str(r#"{"type":"object","properties":{"show_id":{"type":"string"},"revision":{"type":"integer"}},"required":["show_id","revision"]}"#), String::from_str(r#"{"type":"object","properties":{"note":{"type":"string"}}}"#))
    }     else if str_eq(capability, "run.start") {
        (String::from_str(r#"{"type":"object","properties":{"show_id":{"type":"string"},"revision":{"type":"integer"}},"required":["show_id","revision"]}"#), String::from_str(r#"{"type":"object","properties":{"run_id":{"type":"string"},"show_id":{"type":"string"},"revision":{"type":"integer"},"event_count":{"type":"integer"},"trace_bundle_id":{"type":"string"}}}"#))
    }     else if str_eq(capability, "run.status") {
        (String::from_str(r#"{"type":"object","properties":{"show_id":{"type":"string"}},"required":["show_id"]}"#), String::from_str(r#"{"type":"object","properties":{"show_id":{"type":"string"},"run_id":{"type":"string"},"revision":{"type":"integer"},"status":{"type":"string"}}}"#))
    }     else if str_eq(capability, "patch.check") {
        (String::from_str(r#"{"type":"object","properties":{"show_id":{"type":"string"},"patch":{"type":"object"}},"required":["show_id","patch"]}"#), String::from_str(r#"{"type":"object","properties":{"show_id":{"type":"string"},"base_revision":{"type":"integer"},"patch_id":{"type":"string"}}}"#))
    }     else if str_eq(capability, "patch.submit") {
        (String::from_str(r#"{"type":"object","properties":{"show_id":{"type":"string"},"patch":{"type":"object"}},"required":["show_id","patch"]}"#), String::from_str(r#"{"type":"object","properties":{"show_id":{"type":"string"},"patch_id":{"type":"string"},"effective_revision":{"type":"integer"}}}"#))
    }     else if str_eq(capability, "patch.rollback") {
        (String::from_str(r#"{"type":"object","properties":{"show_id":{"type":"string"},"patch_id":{"type":"string"}},"required":["show_id","patch_id"]}"#), String::from_str(r#"{"type":"object","properties":{"show_id":{"type":"string"},"patch_id":{"type":"string"},"fallback_revision":{"type":"integer"}}}"#))
    }     else if str_eq(capability, "patch.deferred_rollback") {
        (String::from_str(r#"{"type":"object","properties":{"show_id":{"type":"string"},"patch_id":{"type":"string"},"anomaly":{"type":"string"}},"required":["show_id","patch_id","anomaly"]}"#), String::from_str(r#"{"type":"object","properties":{"show_id":{"type":"string"},"patch_id":{"type":"string"},"decision":{"type":"string"},"fallback_revision":{"type":"integer"}}}"#))
    }     else if str_eq(capability, "trace.show") {
        (String::from_str(r#"{"type":"object","properties":{"run_id":{"type":"string"}},"required":["run_id"]}"#), String::from_str(r#"{"type":"object","properties":{"trace_bundle_id":{"type":"string"},"show_id":{"type":"string"},"revision":{"type":"integer"}}}"#))
    }     else if str_eq(capability, "trace.events") {
        (String::from_str(r#"{"type":"object","properties":{"run_id":{"type":"string"},"from_bar":{"type":"integer"},"to_bar":{"type":"integer"}},"required":["run_id"]}"#), String::from_str(r#"{"type":"object","properties":{"run_id":{"type":"string"},"event_count":{"type":"integer"},"events":{"type":"array"}}}"#))
    }     else if str_eq(capability, "eval.run") {
        (String::from_str(r#"{"type":"object","properties":{"show_id":{"type":"string"},"run_id":{"type":"string"}},"required":["show_id"]}"#), String::from_str(r#"{"type":"object","properties":{"run_id":{"type":"string"},"metrics":{"type":"object"}}}"#))
    }     else if str_eq(capability, "export.audio") {
        (String::from_str(r#"{"type":"object","properties":{"run_id":{"type":"string"}},"required":["run_id"]}"#), String::from_str(r#"{"type":"object","properties":{"artifact_id":{"type":"string"},"locator":{"type":"string"},"content_hash":{"type":"string"},"duration_sec":{"type":"number"}}}"#))
    }     else if str_eq(capability, "system.doctor") {
        (String::from_str(r#"{"type":"object","properties":{}}"#), String::from_str(r#"{"type":"object","properties":{"status":{"type":"string"}}}"#))
    }     else if str_eq(capability, "system.capabilities") {
        (String::from_str(r#"{"type":"object","properties":{}}"#), String::from_str(r#"{"type":"object","properties":{"count":{"type":"integer"},"capabilities":{"type":"array","items":{"type":"object","properties":{"capability":{"type":"string"},"version":{"type":"string"},"execution_mode":{"type":"string"},"description":{"type":"string"},"input_schema":{"type":"string"},"output_schema":{"type":"string"}}}}}}"#))
    }     else if str_eq(capability, "system.adapters") {
        (String::from_str(r#"{"type":"object","properties":{"backend_kind":{"type":"string"}}}"#), String::from_str(r#"{"type":"object","properties":{"count":{"type":"integer"},"adapters":{"type":"array","items":{"type":"object"}}}}"#))
    }     else if str_eq(capability, "system.hubs") {
        (String::from_str(r#"{"type":"object","properties":{"resource_kind":{"type":"string"}}}"#), String::from_str(r#"{"type":"object","properties":{"count":{"type":"integer"},"hubs":{"type":"array","items":{"type":"object"}}}}"#))
    } else {
        (String::new(), String::new())
    }
}

/// Whether `d` is the built-in descriptor at position `i` of the table.
pub open spec fn is_builtin_descriptor(d: CapabilityDescriptor, i: int) -> bool {
    &&& d.capability@ == builtin_names()[i]
    &&& d.version@ == "0.1"@
    &&& d.execution_mode@ == builtin_modes()[i]
    &&& d.idempotency@ == builtin_idempotency()[i]
    &&& d.authorization@.map_values(|s: String| s@) == builtin_authorization()[i]
    &&& d.description@ == builtin_descriptions()[i]
    &&& d.input_schema@ == spec_schemas(builtin_names()[i]).0
    &&& d.output_schema@ == spec_schemas(builtin_names()[i]).1
    &&& d.target_service@ == Seq::<char>::empty()
}

fn cap(
    capability: &str,
    execution_mode: &str,
    idempotency: &str,
    authorization: &[&str],
    description: &str,
) -> (d: CapabilityDescriptor)
    ensures
        d.capability@ == capability@,
        d.version@ == "0.1"@,
        d.execution_mode@ == execution_mode@,
        d.idempotency@ == idempotency@,
        d.authorization@.map_values(|s: String| s@) == authorization@.map_values(|s: &str| s@),
        d.description@ == description@,
        d.input_schema@ == spec_schemas(capability@).0,
        d.output_schema@ == spec_schemas(capability@).1,
        d.target_service@ == Seq::<char>::empty(),
{
    let (input_schema, output_schema) = capability_schemas(capability);
    let mut roles: Vec<String> = Vec::new();
    let mut i: usize = 0;
    while i < authorization.len()
        invariant
            i <= authorization@.len(),
            roles@.len() == i,
            forall|k: int| 0 <= k < i ==> #[trigger] roles@[k]@ == authorization@[k]@,
        decreases authorization@.len() - i,
    {
        roles.push(String::from_str(authorization[i]));
        i = i + 1;
    }
    assert(roles@.map_values(|s: String| s@) =~= authorization@.map_values(|s: &str| s@));
    CapabilityDescriptor {
        capability: String::from_str(capability),
        version: String::from_str("0.1"),
        execution_mode: String::from_str(execution_mode),
        idempotency: String::from_str(idempotency),
        authorization: roles,
        description: String::from_str(description),
        input_schema,
        output_schema,
        target_service: String::new(),
    }
}

/// The built-in capability descriptors, in table order.
fn builtin_descriptors() -> (v: Vec<CapabilityDescriptor>)
    ensures
        v@.len() == 23,
        forall|i: int| 0 <= i < 23 ==> is_builtin_descriptor(#[trigger] v@[i], i),
{
    let mut v: Vec<CapabilityDescriptor> = Vec::new();
    v.push(cap("asset.ingest", "async", "conditional", &["operator"], "Import assets from a source directory"));
    assert(is_builtin_descriptor(v@[0], 0)) by {
        assert(v@[0].authorization@.map_values(|s: String| s@) =~= builtin_authorization()[0]);
    }
    v.push(cap("asset.list", "sync", "idempotent", &["operator", "planner"], "List published assets"));
    assert(is_builtin_descriptor(v@[1], 1)) by {
        assert(v@[1].authorization@.map_values(|s: String| s@) =~= builtin_authorization()[1]);
    }
    v.push(cap("asset.show", "sync", "idempotent", &["operator", "planner"], "Show asset details and analysis"));
    assert(is_builtin_descriptor(v@[2], 2)) by {
        assert(v@[2].authorization@.map_values(|s: String| s@) =~= builtin_authorization()[2]);
    }
    v.push(cap("plan.validate", "sync", "idempotent", &["planner"], "Validate a plan bundle"));
    assert(is_builtin_descriptor(v@[3], 3)) by {
        assert(v@[3].authorization@.map_values(|s: String| s@) =~= builtin_authorization()[3]);
    }
    v.push(cap("plan.submit", "async", "conditional", &["planner"], "Submit a plan bundle for compilation"));
    assert(is_builtin_descriptor(v@[4], 4)) by {
        assert(v@[4].authorization@.map_values(|s: String| s@) =~= builtin_authorization()[4]);
    }
    v.push(cap("compile.run", "async", "conditional", &["planner"], "Compile a plan into a candidate revision"));
    assert(is_builtin_descriptor(v@[5], 5)) by {
        assert(v@[5].authorization@.map_values(|s: String| s@) =~= builtin_authorization()[5]);
    }
    v.push(cap("revision.list", "sync", "idempotent", &["operator", "planner"], "List revisions for a show"));
    assert(is_builtin_descriptor(v@[6], 6)) by {
        assert(v@[6].authorization@.map_values(|s: String| s@) =~= builtin_authorization()[6]);
    }
    v.push(cap("revision.publish", "sync", "conditional", &["operator"], "Publish a candidate revision"));
    assert(is_builtin_descriptor(v@[7], 7)) by {
        assert(v@[7].authorization@.map_values(|s: String| s@) =~= builtin_authorization()[7]);
    }
    v.push(cap("revision.archive", "sync", "conditional", &["operator"], "Archive a revision"));
    assert(is_builtin_descriptor(v@[8], 8)) by {
        assert(v@[8].authorization@.map_values(|s: String| s@) =~= builtin_authorization()[8]);
    }
    v.push(cap("run.start", "async", "conditional", &["operator"], "Start a live or offline run"));
    assert(is_builtin_descriptor(v@[9], 9)) by {
        assert(v@[9].authorization@.map_values(|s: String| s@) =~= builtin_authorization()[9]);
    }
    v.push(cap("run.status", "sync", "idempotent", &["operator", "planner"], "Query current run status"));
    assert(is_builtin_descriptor(v@[10], 10)) by {
        assert(v@[10].authorization@.map_values(|s: String| s@) =~= builtin_authorization()[10]);
    }
    v.push(cap("patch.check", "sync", "idempotent", &["planner"], "Pre-check a patch proposal"));
    assert(is_builtin_descriptor(v@[11], 11)) by {
        assert(v@[11].authorization@.map_values(|s: String| s@) =~= builtin_authorization()[11]);
    }
    v.push(cap("patch.submit", "async", "conditional", &["planner"], "Submit a patch proposal"));
    assert(is_builtin_descriptor(v@[12], 12)) by {
        assert(v@[12].authorization@.map_values(|s: String| s@) =~= builtin_authorization()[12]);
    }
    v.push(cap("patch.rollback", "sync", "conditional", &["operator"], "Roll back an active patch"));
    assert(is_builtin_descriptor(v@[13], 13)) by {
        assert(v@[13].authorization@.map_values(|s: String| s@) =~= builtin_authorization()[13]);
    }
    v.push(cap("patch.deferred_rollback", "sync", "conditional", &["operator"], "Trigger deferred rollback on anomaly"));
    assert(is_builtin_descriptor(v@[14], 14)) by {
        assert(v@[14].authorization@.map_values(|s: String| s@) =~= builtin_authorization()[14]);
    }
    v.push(cap("trace.show", "sync", "idempotent", &["operator", "planner"], "Show trace manifest for a run"));
    assert(is_builtin_descriptor(v@[15], 15)) by {
        assert(v@[15].authorization@.map_values(|s: String| s@) =~= builtin_authorization()[15]);
    }
    v.push(cap("trace.events", "sync", "idempotent", &["operator", "planner"], "Query trace events by bar range"));
    assert(is_builtin_descriptor(v@[16], 16)) by {
        assert(v@[16].authorization@.map_values(|s: String| s@) =~= builtin_authorization()[16]);
    }
    v.push(cap("eval.run", "async", "conditional", &["planner"], "Generate evaluation report from a trace"));
    assert(is_builtin_descriptor(v@[17], 17)) by {
        assert(v@[17].authorization@.map_values(|s: String| s@) =~= builtin_authorization()[17]);
    }
    v.push(cap("export.audio", "async", "conditional", &["operator"], "Export audio from a trace run"));
    assert(is_builtin_descriptor(v@[18], 18)) by {
        assert(v@[18].authorization@.map_values(|s: String| s@) =~= builtin_authorization()[18]);
    }
    v.push(cap("system.doctor", "sync", "idempotent", &["operator"], "Run full pipeline health check"));
    assert(is_builtin_descriptor(v@[19], 19)) by {
        assert(v@[19].authorization@.map_values(|s: String| s@) =~= builtin_authorization()[19]);
    }
    v.push(cap("system.capabilities", "sync", "idempotent", &["operator", "planner"], "List available capabilities"));
    assert(is_builtin_descriptor(v@[20], 20)) by {
        assert(v@[20].authorization@.map_values(|s: String| s@) =~= builtin_authorization()[20]);
    }
    v.push(cap("system.adapters", "sync", "idempotent", &["operator"], "List registered adapter plugins"));
    assert(is_builtin_descriptor(v@[21], 21)) by {
        assert(v@[21].authorization@.map_values(|s: String| s@) =~= builtin_authorization()[21]);
    }
    v.push(cap("system.hubs", "sync", "idempotent", &["operator"], "List registered resource hubs"));
    assert(is_builtin_descriptor(v@[22], 22)) by {
        assert(v@[22].authorization@.map_values(|s: String| s@) =~= builtin_authorization()[22]);
    }
    v
}

// ---------------------------------------------------------------------------
// Capability registry
// ---------------------------------------------------------------------------

/// The registered capability descriptors, in registration order; no two share a name.
pub struct CapabilityRegistry {
    descriptors: Vec<CapabilityDescriptor>,
}

/// The names of a sequence of descriptors.
pub open spec fn names_of(ds: Seq<CapabilityDescriptor>) -> Seq<Seq<char>> {
    ds.map_values(|d: CapabilityDescriptor| d.capability@)
}

/// No name occurs twice.
pub open spec fn names_unique(names: Seq<Seq<char>>) -> bool {
    forall|i: int, j: int| 0 <= i < j < names.len() ==> names[i] != names[j]
}

impl CapabilityRegistry {
    /// The registered descriptors, in registration order.
    pub closed spec fn descriptors_spec(self) -> Seq<CapabilityDescriptor> {
        self.descriptors@
    }

    /// Registered names are unique.
    pub open spec fn wf(self) -> bool {
        names_unique(names_of(self.descriptors_spec()))
    }

    /// An empty registry.
    pub fn new() -> (r: Self)
        ensures
            r.descriptors_spec() == Seq::<CapabilityDescriptor>::empty(),
            r.wf(),
    {
        CapabilityRegistry { descriptors: Vec::new() }
    }

    /// The registry holding every built-in capability, in table order.
    pub fn default_registry() -> (r: Self)
        ensures
            r.wf(),
            r.descriptors_spec().len() == 23,
            forall|i: int| 0 <= i < 23 ==> is_builtin_descriptor(#[trigger] r.descriptors_spec()[i], i),
    {
        let mut builtin = builtin_descriptors();
        let ghost all = builtin@;
        proof {
            lemma_builtin_names_unique();
        }
        let mut registry = Self::new();
        while builtin.len() > 0
            invariant
                all.len() == 23,
                forall|k: int| 0 <= k < 23 ==> is_builtin_descriptor(#[trigger] all[k], k),
                names_unique(builtin_names()),
                registry.wf(),
                registry.descriptors_spec().len() + builtin@.len() == 23,
                registry.descriptors_spec() + builtin@ == all,
            decreases builtin@.len(),
        {
            let ghost i = registry.descriptors_spec().len();
            let d = builtin.remove(0);
            proof {
                assert(all[i as int] == d) by {
                    assert((registry.descriptors_spec() + old_builtin_view(builtin@, d))[i as int] == d);
                }
                assert forall|k: int| 0 <= k < i implies #[trigger] names_of(registry.descriptors_spec())[k] != d.capability@ by {
                    assert(registry.descriptors_spec()[k] == all[k]);
                    assert(is_builtin_descriptor(all[k], k));
                    assert(is_builtin_descriptor(all[i as int], i as int));
                }
                assert(!names_of(registry.descriptors_spec()).contains(d.capability@));
            }
            let ghost before = registry.descriptors_spec();
            registry.register(d);
            assert(registry.descriptors_spec() + builtin@ =~= all) by {
                assert(registry.descriptors_spec() == before.push(d));
                assert(before + seq![d] + builtin@ =~= before + (seq![d] + builtin@));
            }
        }
        assert(registry.descriptors_spec() =~= all);
        registry
    }

    /// Adds `descriptor` unless a descriptor with its name is already registered.
    pub fn register(&mut self, descriptor: CapabilityDescriptor)
        requires
            old(self).wf(),
        ensures
            final(self).wf(),
            names_of(old(self).descriptors_spec()).contains(descriptor.capability@)
                ==> final(self).descriptors_spec() == old(self).descriptors_spec(),
            !names_of(old(self).descriptors_spec()).contains(descriptor.capability@)
                ==> final(self).descriptors_spec() == old(self).descriptors_spec().push(descriptor),
    {
        let mut i: usize = 0;
        while i < self.descriptors.len()
            invariant
                i <= self.descriptors@.len(),
                self.descriptors@ == old(self).descriptors@,
                old(self).wf(),
                forall|k: int| 0 <= k < i ==> #[trigger] self.descriptors@[k].capability@ != descriptor.capability@,
            decreases self.descriptors@.len() - i,
        {
            if self.descriptors[i].capability == descriptor.capability {
                assert(names_of(old(self).descriptors_spec())[i as int] == descriptor.capability@);
                return;
            }
            i = i + 1;
        }
        assert(!names_of(old(self).descriptors_spec()).contains(descriptor.capability@)) by {
            if names_of(old(self).descriptors_spec()).contains(descriptor.capability@) {
                let k = choose|k: int| 0 <= k < names_of(old(self).descriptors_spec()).len()
                    && names_of(old(self).descriptors_spec())[k] == descriptor.capability@;
                assert(self.descriptors@[k].capability@ != descriptor.capability@);
            }
        }
        self.descriptors.push(descriptor);
        assert(names_of(self.descriptors_spec()) =~= names_of(old(self).descriptors_spec()).push(descriptor.capability@));
    }

    /// The descriptor registered under `capability`, if any.
    pub fn lookup(&self, capability: &str) -> (r: Option<&CapabilityDescriptor>)
        requires
            self.wf(),
        ensures
            r is Some <==> names_of(self.descriptors_spec()).contains(capability@),
            r matches Some(d) ==> d.capability@ == capability@ && self.descriptors_spec().contains(*d),
    {
        let mut i: usize = 0;
        while i < self.descriptors.len()
            invariant
                i <= self.descriptors@.len(),
                forall|k: int| 0 <= k < i ==> #[trigger] self.descriptors@[k].capability@ != capability@,
            decreases self.descriptors@.len() - i,
        {
            if str_eq(self.descriptors[i].capability.as_str(), capability) {
                assert(names_of(self.descriptors_spec())[i as int] == capability@);
                assert(self.descriptors_spec()[i as int] == self.descriptors@[i as int]);
                return Some(&self.descriptors[i]);
            }
            i = i + 1;
        }
        assert(!names_of(self.descriptors_spec()).contains(capability@)) by {
            if names_of(self.descriptors_spec()).contains(capability@) {
                let k = choose|k: int| 0 <= k < names_of(self.descriptors_spec()).len()
                    && names_of(self.descriptors_spec())[k] == capability@;
                assert(self.descriptors@[k].capability@ != capability@);
            }
        }
        None
    }

    /// All registered descriptors, in registration order.
    pub fn list(&self) -> (r: &[CapabilityDescriptor])
        ensures
            r@ == self.descriptors_spec(),
    {
        self.descriptors.as_slice()
    }

    /// Number of registered descriptors.
    pub fn len(&self) -> (n: usize)
        ensures
            n == self.descriptors_spec().len(),
    {
        self.descriptors.len()
    }

    /// Whether nothing is registered.
    pub fn is_empty(&self) -> (b: bool)
        ensures
            b == (self.descriptors_spec().len() == 0),
    {
        self.descriptors.len() == 0
    }
}

impl Default for CapabilityRegistry {
    fn default() -> (r: Self)
        ensures
            r.wf(),
            r.descriptors_spec().len() == 23,
            forall|i: int| 0 <= i < 23 ==> is_builtin_descriptor(#[trigger] r.descriptors_spec()[i], i),
    {
        Self::default_registry()
    }
}

/// `rest` with `first` put back in front.
pub open spec fn old_builtin_view(rest: Seq<CapabilityDescriptor>, first: CapabilityDescriptor) -> Seq<CapabilityDescriptor> {
    seq![first] + rest
}

/// The built-in capability names are pairwise distinct.
pub proof fn lemma_builtin_names_unique()
    ensures
        names_unique(builtin_names()),
{
    assert forall|i: int, j: int| 0 <= i < j < 23 implies builtin_names()[i] != builtin_names()[j] by {
        lemma_builtin_name_pair(i, j);
    }
}

proof fn lemma_builtin_name_pair(i: int, j: int)
    requires
        0 <= i < j < 23,
    ensures
        builtin_names()[i] != builtin_names()[j],
{
    reveal_strlit("asset.ingest");
    reveal_strlit("asset.list");
    reveal_strlit("asset.show");
    reveal_strlit("plan.validate");
    reveal_strlit("plan.submit");
    reveal_strlit("compile.run");
    reveal_strlit("revision.list");
    reveal_strlit("revision.publish");
    reveal_strlit("revision.archive");
    reveal_strlit("run.start");
    reveal_strlit("run.status");
    reveal_strlit("patch.check");
    reveal_strlit("patch.submit");
    reveal_strlit("patch.rollback");
    reveal_strlit("patch.deferred_rollback");
    reveal_strlit("trace.show");
    reveal_strlit("trace.events");
    reveal_strlit("eval.run");
    reveal_strlit("export.audio");
    reveal_strlit("system.doctor");
    reveal_strlit("system.capabilities");
    reveal_strlit("system.adapters");
    reveal_strlit("system.hubs");

    if i == 0 && j == 1 {
        assert(builtin_names()[0].len() != builtin_names()[1].len());
    } else if i == 0 && j == 2 {
        assert(builtin_names()[0].len() != builtin_names()[2].len());
    } else if i == 0 && j == 3 {
        assert(builtin_names()[0].len() != builtin_names()[3].len());
    } else if i == 0 && j == 4 {
        assert(builtin_names()[0].len() != builtin_names()[4].len());
    } else if i == 0 && j == 5 {
        assert(builtin_names()[0].len() != builtin_names()[5].len());
    } else if i == 0 && j == 6 {
        assert(builtin_names()[0].len() != builtin_names()[6].len());
    } else if i == 0 && j == 7 {
        assert(builtin_names()[0].len() != builtin_names()[7].len());
    } else if i == 0 && j == 8 {
        assert(builtin_names()[0].len() != builtin_names()[8].len());
    } else if i == 0 && j == 9 {
        assert(builtin_names()[0].len() != builtin_names()[9].len());
    } else if i == 0 && j == 10 {
        assert(builtin_names()[0].len() != builtin_names()[10].len());
    } else if i == 0 && j == 11 {
        assert(builtin_names()[0].len() != builtin_names()[11].len());
    } else if i == 0 && j == 12 {
        assert(builtin_names()[0][0] != builtin_names()[12][0]);
    } else if i == 0 && j == 13 {
        assert(builtin_names()[0].len() != builtin_names()[13].len());
    } else if i == 0 && j == 14 {
        assert(builtin_names()[0].len() != builtin_names()[14].len());
    } else if i == 0 && j == 15 {
        assert(builtin_names()[0].len() != builtin_names()[15].len());
    } else if i == 0 && j == 16 {
        assert(builtin_names()[0][0] != builtin_names()[16][0]);
    } else if i == 0 && j == 17 {
        assert(builtin_names()[0].len() != builtin_names()[17].len());
    } else if i == 0 && j == 18 {
        assert(builtin_names()[0][0] != builtin_names()[18][0]);
    } else if i == 0 && j == 19 {
        assert(builtin_names()[0].len() != builtin_names()[19].len());
    } else if i == 0 && j == 20 {
        assert(builtin_names()[0].len() != builtin_names()[20].len());
    } else if i == 0 && j == 21 {
        assert(builtin_names()[0].len() != builtin_names()[21].len());
    } else if i == 0 && j == 22 {
        assert(builtin_names()[0].len() != builtin_names()[22].len());
    } else if i == 1 && j == 2 {
        assert(builtin_names()[1][6] != builtin_names()[2][6]);
    } else if i == 1 && j == 3 {
        assert(builtin_names()[1].len() != builtin_names()[3].len());
    } else if i == 1 && j == 4 {
        assert(builtin_names()[1].len() != builtin_names()[4].len());
    } else if i == 1 && j == 5 {
        assert(builtin_names()[1].len() != builtin_names()[5].len());
    } else if i == 1 && j == 6 {
        assert(builtin_names()[1].len() != builtin_names()[6].len());
    } else if i == 1 && j == 7 {
        assert(builtin_names()[1].len() != builtin_names()[7].len());
    } else if i == 1 && j == 8 {
        assert(builtin_names()[1].len() != builtin_names()[8].len());
    } else if i == 1 && j == 9 {
        assert(builtin_names()[1].len() != builtin_names()[9].len());
    } else if i == 1 && j == 10 {
        assert(builtin_names()[1][0] != builtin_names()[10][0]);
    } else if i == 1 && j == 11 {
        assert(builtin_names()[1].len() != builtin_names()[11].len());
    } else if i == 1 && j == 12 {
        assert(builtin_names()[1].len() != builtin_names()[12].len());
    } else if i == 1 && j == 13 {
        assert(builtin_names()[1].len() != builtin_names()[13].len());
    } else if i == 1 && j == 14 {
        assert(builtin_names()[1].len() != builtin_names()[14].len());
    } else if i == 1 && j == 15 {
        assert(builtin_names()[1][0] != builtin_names()[15][0]);
    } else if i == 1 && j == 16 {
        assert(builtin_names()[1].len() != builtin_names()[16].len());
    } else if i == 1 && j == 17 {
        assert(builtin_names()[1].len() != builtin_names()[17].len());
    } else if i == 1 && j == 18 {
        assert(builtin_names()[1].len() != builtin_names()[18].len());
    } else if i == 1 && j == 19 {
        assert(builtin_names()[1].len() != builtin_names()[19].len());
    } else if i == 1 && j == 20 {
        assert(builtin_names()[1].len() != builtin_names()[20].len());
    } else if i == 1 && j == 21 {
        assert(builtin_names()[1].len() != builtin_names()[21].len());
    } else if i == 1 && j == 22 {
        assert(builtin_names()[1].len() != builtin_names()[22].len());
    } else if i == 2 && j == 3 {
        assert(builtin_names()[2].len() != builtin_names()[3].len());
    } else if i == 2 && j == 4 {
        assert(builtin_names()[2].len() != builtin_names()[4].len());
    } else if i == 2 && j == 5 {
        assert(builtin_names()[2].len() != builtin_names()[5].len());
    } else if i == 2 && j == 6 {
        assert(builtin_names()[2].len() != builtin_names()[6].len());
    } else if i == 2 && j == 7 {
        assert(builtin_names()[2].len() != builtin_names()[7].len());
    } else if i == 2 && j == 8 {
        assert(builtin_names()[2].len() != builtin_names()[8].len());
    } else if i == 2 && j == 9 {
        assert(builtin_names()[2].len() != builtin_names()[9].len());
    } else if i == 2 && j == 10 {
        assert(builtin_names()[2][0] != builtin_names()[10][0]);
    } else if i == 2 && j == 11 {
        assert(builtin_names()[2].len() != builtin_names()[11].len());
    } else if i == 2 && j == 12 {
        assert(builtin_names()[2].len() != builtin_names()[12].len());
    } else if i == 2 && j == 13 {
        assert(builtin_names()[2].len() != builtin_names()[13].len());
    } else if i == 2 && j == 14 {
        assert(builtin_names()[2].len() != builtin_names()[14].len());
    } else if i == 2 && j == 15 {
        assert(builtin_names()[2][0] != builtin_names()[15][0]);
    } else if i == 2 && j == 16 {
        assert(builtin_names()[2].len() != builtin_names()[16].len());
    } else if i == 2 && j == 17 {
        assert(builtin_names()[2].len() != builtin_names()[17].len());
    } else if i == 2 && j == 18 {
        assert(builtin_names()[2].len() != builtin_names()[18].len());
    } else if i == 2 && j == 19 {
        assert(builtin_names()[2].len() != builtin_names()[19].len());
    } else if i == 2 && j == 20 {
        assert(builtin_names()[2].len() != builtin_names()[20].len());
    } else if i == 2 && j == 21 {
        assert(builtin_names()[2].len() != builtin_names()[21].len());
    } else if i == 2 && j == 22 {
        assert(builtin_names()[2].len() != builtin_names()[22].len());
    } else if i == 3 && j == 4 {
        assert(builtin_names()[3].len() != builtin_names()[4].len());
    } else if i == 3 && j == 5 {
        assert(builtin_names()[3].len() != builtin_names()[5].len());
    } else if i == 3 && j == 6 {
        assert(builtin_names()[3][0] != builtin_names()[6][0]);
    } else if i == 3 && j == 7 {
        assert(builtin_names()[3].len() != builtin_names()[7].len());
    } else if i == 3 && j == 8 {
        assert(builtin_names()[3].len() != builtin_names()[8].len());
    } else if i == 3 && j == 9 {
        assert(builtin_names()[3].len() != builtin_names()[9].len());
    } else if i == 3 && j == 10 {
        assert(builtin_names()[3].len() != builtin_names()[10].len());
    } else if i == 3 && j == 11 {
        assert(builtin_names()[3].len() != builtin_names()[11].len());
    } else if i == 3 && j == 12 {
        assert(builtin_names()[3].len() != builtin_names()[12].len());
    } else if i == 3 && j == 13 {
        assert(builtin_names()[3].len() != builtin_names()[13].len());
    } else if i == 3 && j == 14 {
        assert(builtin_names()[3].len() != builtin_names()[14].len());
    } else if i == 3 && j == 15 {
        assert(builtin_names()[3].len() != builtin_names()[15].len());
    } else if i == 3 && j == 16 {
        assert(builtin_names()[3].len() != builtin_names()[16].len());
    } else if i == 3 && j == 17 {
        assert(builtin_names()[3].len() != builtin_names()[17].len());
    } else if i == 3 && j == 18 {
        assert(builtin_names()[3].len() != builtin_names()[18].len());
    } else if i == 3 && j == 19 {
        assert(builtin_names()[3][0] != builtin_names()[19][0]);
    } else if i == 3 && j == 20 {
        assert(builtin_names()[3].len() != builtin_names()[20].len());
    } else if i == 3 && j == 21 {
        assert(builtin_names()[3].len() != builtin_names()[21].len());
    } else if i == 3 && j == 22 {
        assert(builtin_names()[3].len() != builtin_names()[22].len());
    } else if i == 4 && j == 5 {
        assert(builtin_names()[4][0] != builtin_names()[5][0]);
    } else if i == 4 && j == 6 {
        assert(builtin_names()[4].len() != builtin_names()[6].len());
    } else if i == 4 && j == 7 {
        assert(builtin_names()[4].len() != builtin_names()[7].len());
    } else if i == 4 && j == 8 {
        assert(builtin_names()[4].len() != builtin_names()[8].len());
    } else if i == 4 && j == 9 {
        assert(builtin_names()[4].len() != builtin_names()[9].len());
    } else if i == 4 && j == 10 {
        assert(builtin_names()[4].len() != builtin_names()[10].len());
    } else if i == 4 && j == 11 {
        assert(builtin_names()[4][1] != builtin_names()[11][1]);
    } else if i == 4 && j == 12 {
        assert(builtin_names()[4].len() != builtin_names()[12].len());
    } else if i == 4 && j == 13 {
        assert(builtin_names()[4].len() != builtin_names()[13].len());
    } else if i == 4 && j == 14 {
        assert(builtin_names()[4].len() != builtin_names()[14].len());
    } else if i == 4 && j == 15 {
        assert(builtin_names()[4].len() != builtin_names()[15].len());
    } else if i == 4 && j == 16 {
        assert(builtin_names()[4].len() != builtin_names()[16].len());
    } else if i == 4 && j == 17 {
        assert(builtin_names()[4].len() != builtin_names()[17].len());
    } else if i == 4 && j == 18 {
        assert(builtin_names()[4].len() != builtin_names()[18].len());
    } else if i == 4 && j == 19 {
        assert(builtin_names()[4].len() != builtin_names()[19].len());
    } else if i == 4 && j == 20 {
        assert(builtin_names()[4].len() != builtin_names()[20].len());
    } else if i == 4 && j == 21 {
        assert(builtin_names()[4].len() != builtin_names()[21].len());
    } else if i == 4 && j == 22 {
        assert(builtin_names()[4][0] != builtin_names()[22][0]);
    } else if i == 5 && j == 6 {
        assert(builtin_names()[5].len() != builtin_names()[6].len());
    } else if i == 5 && j == 7 {
        assert(builtin_names()[5].len() != builtin_names()[7].len());
    } else if i == 5 && j == 8 {
        assert(builtin_names()[5].len() != builtin_names()[8].len());
    } else if i == 5 && j == 9 {
        assert(builtin_names()[5].len() != builtin_names()[9].len());
    } else if i == 5 && j == 10 {
        assert(builtin_names()[5].len() != builtin_names()[10].len());
    } else if i == 5 && j == 11 {
        assert(builtin_names()[5][0] != builtin_names()[11][0]);
    } else if i == 5 && j == 12 {
        assert(builtin_names()[5].len() != builtin_names()[12].len());
    } else if i == 5 && j == 13 {
        assert(builtin_names()[5].len() != builtin_names()[13].len());
    } else if i == 5 && j == 14 {
        assert(builtin_names()[5].len() != builtin_names()[14].len());
    } else if i == 5 && j == 15 {
        assert(builtin_names()[5].len() != builtin_names()[15].len());
    } else if i == 5 && j == 16 {
        assert(builtin_names()[5].len() != builtin_names()[16].len());
    } else if i == 5 && j == 17 {
        assert(builtin_names()[5].len() != builtin_names()[17].len());
    } else if i == 5 && j == 18 {
        assert(builtin_names()[5].len() != builtin_names()[18].len());
    } else if i == 5 && j == 19 {
        assert(builtin_names()[5].len() != builtin_names()[19].len());
    } else if i == 5 && j == 20 {
        assert(builtin_names()[5].len() != builtin_names()[20].len());
    } else if i == 5 && j == 21 {
        assert(builtin_names()[5].len() != builtin_names()[21].len());
    } else if i == 5 && j == 22 {
        assert(builtin_names()[5][0] != builtin_names()[22][0]);
    } else if i == 6 && j == 7 {
        assert(builtin_names()[6].len() != builtin_names()[7].len());
    } else if i == 6 && j == 8 {
        assert(builtin_names()[6].len() != builtin_names()[8].len());
    } else if i == 6 && j == 9 {
        assert(builtin_names()[6].len() != builtin_names()[9].len());
    } else if i == 6 && j == 10 {
        assert(builtin_names()[6].len() != builtin_names()[10].len());
    } else if i == 6 && j == 11 {
        assert(builtin_names()[6].len() != builtin_names()[11].len());
    } else if i == 6 && j == 12 {
        assert(builtin_names()[6].len() != builtin_names()[12].len());
    } else if i == 6 && j == 13 {
        assert(builtin_names()[6].len() != builtin_names()[13].len());
    } else if i == 6 && j == 14 {
        assert(builtin_names()[6].len() != builtin_names()[14].len());
    } else if i == 6 && j == 15 {
        assert(builtin_names()[6].len() != builtin_names()[15].len());
    } else if i == 6 && j == 16 {
        assert(builtin_names()[6].len() != builtin_names()[16].len());
    } else if i == 6 && j == 17 {
        assert(builtin_names()[6].len() != builtin_names()[17].len());
    } else if i == 6 && j == 18 {
        assert(builtin_names()[6].len() != builtin_names()[18].len());
    } else if i == 6 && j == 19 {
        assert(builtin_names()[6][0] != builtin_names()[19][0]);
    } else if i == 6 && j == 20 {
        assert(builtin_names()[6].len() != builtin_names()[20].len());
    } else if i == 6 && j == 21 {
        assert(builtin_names()[6].len() != builtin_names()[21].len());
    } else if i == 6 && j == 22 {
        assert(builtin_names()[6].len() != builtin_names()[22].len());
    } else if i == 7 && j == 8 {
        assert(builtin_names()[7][9] != builtin_names()[8][9]);
    } else if i == 7 && j == 9 {
        assert(builtin_names()[7].len() != builtin_names()[9].len());
    } else if i == 7 && j == 10 {
        assert(builtin_names()[7].len() != builtin_names()[10].len());
    } else if i == 7 && j == 11 {
        assert(builtin_names()[7].len() != builtin_names()[11].len());
    } else if i == 7 && j == 12 {
        assert(builtin_names()[7].len() != builtin_names()[12].len());
    } else if i == 7 && j == 13 {
        assert(builtin_names()[7].len() != builtin_names()[13].len());
    } else if i == 7 && j == 14 {
        assert(builtin_names()[7].len() != builtin_names()[14].len());
    } else if i == 7 && j == 15 {
        assert(builtin_names()[7].len() != builtin_names()[15].len());
    } else if i == 7 && j == 16 {
        assert(builtin_names()[7].len() != builtin_names()[16].len());
    } else if i == 7 && j == 17 {
        assert(builtin_names()[7].len() != builtin_names()[17].len());
    } else if i == 7 && j == 18 {
        assert(builtin_names()[7].len() != builtin_names()[18].len());
    } else if i == 7 && j == 19 {
        assert(builtin_names()[7].len() != builtin_names()[19].len());
    } else if i == 7 && j == 20 {
        assert(builtin_names()[7].len() != builtin_names()[20].len());
    } else if i == 7 && j == 21 {
        assert(builtin_names()[7].len() != builtin_names()[21].len());
    } else if i == 7 && j == 22 {
        assert(builtin_names()[7].len() != builtin_names()[22].len());
    } else if i == 8 && j == 9 {
        assert(builtin_names()[8].len() != builtin_names()[9].len());
    } else if i == 8 && j == 10 {
        assert(builtin_names()[8].len() != builtin_names()[10].len());
    } else if i == 8 && j == 11 {
        assert(builtin_names()[8].len() != builtin_names()[11].len());
    } else if i == 8 && j == 12 {
        assert(builtin_names()[8].len() != builtin_names()[12].len());
    } else if i == 8 && j == 13 {
        assert(builtin_names()[8].len() != builtin_names()[13].len());
    } else if i == 8 && j == 14 {
        assert(builtin_names()[8].len() != builtin_names()[14].len());
    } else if i == 8 && j == 15 {
        assert(builtin_names()[8].len() != builtin_names()[15].len());
    } else if i == 8 && j == 16 {
        assert(builtin_names()[8].len() != builtin_names()[16].len());
    } else if i == 8 && j == 17 {
        assert(builtin_names()[8].len() != builtin_names()[17].len());
    } else if i == 8 && j == 18 {
        assert(builtin_names()[8].len() != builtin_names()[18].len());
    } else if i == 8 && j == 19 {
        assert(builtin_names()[8].len() != builtin_names()[19].len());
    } else if i == 8 && j == 20 {
        assert(builtin_names()[8].len() != builtin_names()[20].len());
    } else if i == 8 && j == 21 {
        assert(builtin_names()[8].len() != builtin_names()[21].len());
    } else if i == 8 && j == 22 {
        assert(builtin_names()[8].len() != builtin_names()[22].len());
    } else if i == 9 && j == 10 {
        assert(builtin_names()[9].len() != builtin_names()[10].len());
    } else if i == 9 && j == 11 {
        assert(builtin_names()[9].len() != builtin_names()[11].len());
    } else if i == 9 && j == 12 {
        assert(builtin_names()[9].len() != builtin_names()[12].len());
    } else if i == 9 && j == 13 {
        assert(builtin_names()[9].len() != builtin_names()[13].len());
    } else if i == 9 && j == 14 {
        assert(builtin_names()[9].len() != builtin_names()[14].len());
    } else if i == 9 && j == 15 {
        assert(builtin_names()[9].len() != builtin_names()[15].len());
    } else if i == 9 && j == 16 {
        assert(builtin_names()[9].len() != builtin_names()[16].len());
    } else if i == 9 && j == 17 {
        assert(builtin_names()[9].len() != builtin_names()[17].len());
    } else if i == 9 && j == 18 {
        assert(builtin_names()[9].len() != builtin_names()[18].len());
    } else if i == 9 && j == 19 {
        assert(builtin_names()[9].len() != builtin_names()[19].len());
    } else if i == 9 && j == 20 {
        assert(builtin_names()[9].len() != builtin_names()[20].len());
    } else if i == 9 && j == 21 {
        assert(builtin_names()[9].len() != builtin_names()[21].len());
    } else if i == 9 && j == 22 {
        assert(builtin_names()[9].len() != builtin_names()[22].len());
    } else if i == 10 && j == 11 {
        assert(builtin_names()[10].len() != builtin_names()[11].len());
    } else if i == 10 && j == 12 {
        assert(builtin_names()[10].len() != builtin_names()[12].len());
    } else if i == 10 && j == 13 {
        assert(builtin_names()[10].len() != builtin_names()[13].len());
    } else if i == 10 && j == 14 {
        assert(builtin_names()[10].len() != builtin_names()[14].len());
    } else if i == 10 && j == 15 {
        assert(builtin_names()[10][0] != builtin_names()[15][0]);
    } else if i == 10 && j == 16 {
        assert(builtin_names()[10].len() != builtin_names()[16].len());
    } else if i == 10 && j == 17 {
        assert(builtin_names()[10].len() != builtin_names()[17].len());
    } else if i == 10 && j == 18 {
        assert(builtin_names()[10].len() != builtin_names()[18].len());
    } else if i == 10 && j == 19 {
        assert(builtin_names()[10].len() != builtin_names()[19].len());
    } else if i == 10 && j == 20 {
        assert(builtin_names()[10].len() != builtin_names()[20].len());
    } else if i == 10 && j == 21 {
        assert(builtin_names()[10].len() != builtin_names()[21].len());
    } else if i == 10 && j == 22 {
        assert(builtin_names()[10].len() != builtin_names()[22].len());
    } else if i == 11 && j == 12 {
        assert(builtin_names()[11].len() != builtin_names()[12].len());
    } else if i == 11 && j == 13 {
        assert(builtin_names()[11].len() != builtin_names()[13].len());
    } else if i == 11 && j == 14 {
        assert(builtin_names()[11].len() != builtin_names()[14].len());
    } else if i == 11 && j == 15 {
        assert(builtin_names()[11].len() != builtin_names()[15].len());
    } else if i == 11 && j == 16 {
        assert(builtin_names()[11].len() != builtin_names()[16].len());
    } else if i == 11 && j == 17 {
        assert(builtin_names()[11].len() != builtin_names()[17].len());
    } else if i == 11 && j == 18 {
        assert(builtin_names()[11].len() != builtin_names()[18].len());
    } else if i == 11 && j == 19 {
        assert(builtin_names()[11].len() != builtin_names()[19].len());
    } else if i == 11 && j == 20 {
        assert(builtin_names()[11].len() != builtin_names()[20].len());
    } else if i == 11 && j == 21 {
        assert(builtin_names()[11].len() != builtin_names()[21].len());
    } else if i == 11 && j == 22 {
        assert(builtin_names()[11][0] != builtin_names()[22][0]);
    } else if i == 12 && j == 13 {
        assert(builtin_names()[12].len() != builtin_names()[13].len());
    } else if i == 12 && j == 14 {
        assert(builtin_names()[12].len() != builtin_names()[14].len());
    } else if i == 12 && j == 15 {
        assert(builtin_names()[12].len() != builtin_names()[15].len());
    } else if i == 12 && j == 16 {
        assert(builtin_names()[12][0] != builtin_names()[16][0]);
    } else if i == 12 && j == 17 {
        assert(builtin_names()[12].len() != builtin_names()[17].len());
    } else if i == 12 && j == 18 {
        assert(builtin_names()[12][0] != builtin_names()[18][0]);
    } else if i == 12 && j == 19 {
        assert(builtin_names()[12].len() != builtin_names()[19].len());
    } else if i == 12 && j == 20 {
        assert(builtin_names()[12].len() != builtin_names()[20].len());
    } else if i == 12 && j == 21 {
        assert(builtin_names()[12].len() != builtin_names()[21].len());
    } else if i == 12 && j == 22 {
        assert(builtin_names()[12].len() != builtin_names()[22].len());
    } else if i == 13 && j == 14 {
        assert(builtin_names()[13].len() != builtin_names()[14].len());
    } else if i == 13 && j == 15 {
        assert(builtin_names()[13].len() != builtin_names()[15].len());
    } else if i == 13 && j == 16 {
        assert(builtin_names()[13].len() != builtin_names()[16].len());
    } else if i == 13 && j == 17 {
        assert(builtin_names()[13].len() != builtin_names()[17].len());
    } else if i == 13 && j == 18 {
        assert(builtin_names()[13].len() != builtin_names()[18].len());
    } else if i == 13 && j == 19 {
        assert(builtin_names()[13].len() != builtin_names()[19].len());
    } else if i == 13 && j == 20 {
        assert(builtin_names()[13].len() != builtin_names()[20].len());
    } else if i == 13 && j == 21 {
        assert(builtin_names()[13].len() != builtin_names()[21].len());
    } else if i == 13 && j == 22 {
        assert(builtin_names()[13].len() != builtin_names()[22].len());
    } else if i == 14 && j == 15 {
        assert(builtin_names()[14].len() != builtin_names()[15].len());
    } else if i == 14 && j == 16 {
        assert(builtin_names()[14].len() != builtin_names()[16].len());
    } else if i == 14 && j == 17 {
        assert(builtin_names()[14].len() != builtin_names()[17].len());
    } else if i == 14 && j == 18 {
        assert(builtin_names()[14].len() != builtin_names()[18].len());
    } else if i == 14 && j == 19 {
        assert(builtin_names()[14].len() != builtin_names()[19].len());
    } else if i == 14 && j == 20 {
        assert(builtin_names()[14].len() != builtin_names()[20].len());
    } else if i == 14 && j == 21 {
        assert(builtin_names()[14].len() != builtin_names()[21].len());
    } else if i == 14 && j == 22 {
        assert(builtin_names()[14].len() != builtin_names()[22].len());
    } else if i == 15 && j == 16 {
        assert(builtin_names()[15].len() != builtin_names()[16].len());
    } else if i == 15 && j == 17 {
        assert(builtin_names()[15].len() != builtin_names()[17].len());
    } else if i == 15 && j == 18 {
        assert(builtin_names()[15].len() != builtin_names()[18].len());
    } else if i == 15 && j == 19 {
        assert(builtin_names()[15].len() != builtin_names()[19].len());
    } else if i == 15 && j == 20 {
        assert(builtin_names()[15].len() != builtin_names()[20].len());
    } else if i == 15 && j == 21 {
        assert(builtin_names()[15].len() != builtin_names()[21].len());
    } else if i == 15 && j == 22 {
        assert(builtin_names()[15].len() != builtin_names()[22].len());
    } else if i == 16 && j == 17 {
        assert(builtin_names()[16].len() != builtin_names()[17].len());
    } else if i == 16 && j == 18 {
        assert(builtin_names()[16][0] != builtin_names()[18][0]);
    } else if i == 16 && j == 19 {
        assert(builtin_names()[16].len() != builtin_names()[19].len());
    } else if i == 16 && j == 20 {
        assert(builtin_names()[16].len() != builtin_names()[20].len());
    } else if i == 16 && j == 21 {
        assert(builtin_names()[16].len() != builtin_names()[21].len());
    } else if i == 16 && j == 22 {
        assert(builtin_names()[16].len() != builtin_names()[22].len());
    } else if i == 17 && j == 18 {
        assert(builtin_names()[17].len() != builtin_names()[18].len());
    } else if i == 17 && j == 19 {
        assert(builtin_names()[17].len() != builtin_names()[19].len());
    } else if i == 17 && j == 20 {
        assert(builtin_names()[17].len() != builtin_names()[20].len());
    } else if i == 17 && j == 21 {
        assert(builtin_names()[17].len() != builtin_names()[21].len());
    } else if i == 17 && j == 22 {
        assert(builtin_names()[17].len() != builtin_names()[22].len());
    } else if i == 18 && j == 19 {
        assert(builtin_names()[18].len() != builtin_names()[19].len());
    } else if i == 18 && j == 20 {
        assert(builtin_names()[18].len() != builtin_names()[20].len());
    } else if i == 18 && j == 21 {
        assert(builtin_names()[18].len() != builtin_names()[21].len());
    } else if i == 18 && j == 22 {
        assert(builtin_names()[18].len() != builtin_names()[22].len());
    } else if i == 19 && j == 20 {
        assert(builtin_names()[19].len() != builtin_names()[20].len());
    } else if i == 19 && j == 21 {
        assert(builtin_names()[19].len() != builtin_names()[21].len());
    } else if i == 19 && j == 22 {
        assert(builtin_names()[19].len() != builtin_names()[22].len());
    } else if i == 20 && j == 21 {
        assert(builtin_names()[20].len() != builtin_names()[21].len());
    } else if i == 20 && j == 22 {
        assert(builtin_names()[20].len() != builtin_names()[22].len());
    } else if i == 21 && j == 22 {
        assert(builtin_names()[21].len() != builtin_names()[22].len());
    }
}

// ---------------------------------------------------------------------------
// Capability router
// ---------------------------------------------------------------------------

/// The typed target a capability routes to.
#[derive(Debug, Clone, PartialEq, Eq, Structural)]
pub enum RouteTarget {
    AssetIngest,
    AssetList,
    AssetShow,
    PlanValidate,
    PlanSubmit,
    CompileRun,
    RevisionList,
    RevisionPublish,
    RevisionArchive,
    RunStart,
    RunStatus,
    PatchCheck,
    PatchSubmit,
    PatchRollback,
    PatchDeferredRollback,
    TraceShow,
    TraceEvents,
    EvalRun,
    ExportAudio,
    SystemDoctor,
    SystemCapabilities,
    SystemAdapters,
    SystemHubs,
}

/// The route target of a capability name, if it is a built-in capability.
pub open spec fn spec_route(capability: Seq<char>) -> Option<RouteTarget> {
    if capability == "asset.ingest"@ {
        Some(RouteTarget::AssetIngest)
    }     else if capability == "asset.list"@ {
        Some(RouteTarget::AssetList)
    }     else if capability == "asset.show"@ {
        Some(RouteTarget::AssetShow)
    }     else if capability == "plan.validate"@ {
        Some(RouteTarget::PlanValidate)
    }     else if capability == "plan.submit"@ {
        Some(RouteTarget::PlanSubmit)
    }     else if capability == "compile.run"@ {
        Some(RouteTarget::CompileRun)
    }     else if capability == "revision.list"@ {
        Some(RouteTarget::RevisionList)
    }     else if capability == "revision.publish"@ {
        Some(RouteTarget::RevisionPublish)
    }     else if capability == "revision.archive"@ {
        Some(RouteTarget::RevisionArchive)
    }     else if capability == "run.start"@ {
        Some(RouteTarget::RunStart)
    }     else if capability == "run.status"@ {
        Some(RouteTarget::RunStatus)
    }     else if capability == "patch.check"@ {
        Some(RouteTarget::PatchCheck)
    }     else if capability == "patch.submit"@ {
        Some(RouteTarget::PatchSubmit)
    }     else if capability == "patch.rollback"@ {
        Some(RouteTarget::PatchRollback)
    }     else if capability == "patch.deferred_rollback"@ {
        Some(RouteTarget::PatchDeferredRollback)
    }     else if capability == "trace.show"@ {
        Some(RouteTarget::TraceShow)
    }     else if capability == "trace.events"@ {
        Some(RouteTarget::TraceEvents)
    }     else if capability == "eval.run"@ {
        Some(RouteTarget::EvalRun)
    }     else if capability == "export.audio"@ {
        Some(RouteTarget::ExportAudio)
    }     else if capability == "system.doctor"@ {
        Some(RouteTarget::SystemDoctor)
    }     else if capability == "system.capabilities"@ {
        Some(RouteTarget::SystemCapabilities)
    }     else if capability == "system.adapters"@ {
        Some(RouteTarget::SystemAdapters)
    }     else if capability == "system.hubs"@ {
        Some(RouteTarget::SystemHubs)
    } else {
        None
    }
}

/// Exactly the built-in names route.
pub proof fn lemma_route_iff_builtin(c: Seq<char>)
    ensures
        spec_route(c) is Some <==> builtin_names().contains(c),
{
    let b = builtin_names();
    if spec_route(c) is Some {
        assert(b[0] == "asset.ingest"@ && b[1] == "asset.list"@ && b[2] == "asset.show"@);
        assert(b[3] == "plan.validate"@ && b[4] == "plan.submit"@ && b[5] == "compile.run"@);
        assert(b[6] == "revision.list"@ && b[7] == "revision.publish"@ && b[8] == "revision.archive"@);
        assert(b[9] == "run.start"@ && b[10] == "run.status"@ && b[11] == "patch.check"@);
        assert(b[12] == "patch.submit"@ && b[13] == "patch.rollback"@ && b[14] == "patch.deferred_rollback"@);
        assert(b[15] == "trace.show"@ && b[16] == "trace.events"@ && b[17] == "eval.run"@);
        assert(b[18] == "export.audio"@ && b[19] == "system.doctor"@ && b[20] == "system.capabilities"@);
        assert(b[21] == "system.adapters"@ && b[22] == "system.hubs"@);
    }
    if b.contains(c) {
        let k = choose|k: int| 0 <= k < b.len() && b[k] == c;
        assert(0 <= k < 23);
    }
}

/// The built-in names, as literals, are pairwise distinct.
proof fn lemma_builtin_literals_distinct()
    ensures
        "asset.list"@ != "asset.ingest"@,
        "asset.show"@ != "asset.ingest"@,
        "asset.show"@ != "asset.list"@,
        "plan.validate"@ != "asset.ingest"@,
        "plan.validate"@ != "asset.list"@,
        "plan.validate"@ != "asset.show"@,
        "plan.submit"@ != "asset.ingest"@,
        "plan.submit"@ != "asset.list"@,
        "plan.submit"@ != "asset.show"@,
        "plan.submit"@ != "plan.validate"@,
        "compile.run"@ != "asset.ingest"@,
        "compile.run"@ != "asset.list"@,
        "compile.run"@ != "asset.show"@,
        "compile.run"@ != "plan.validate"@,
        "compile.run"@ != "plan.submit"@,
        "revision.list"@ != "asset.ingest"@,
        "revision.list"@ != "asset.list"@,
        "revision.list"@ != "asset.show"@,
        "revision.list"@ != "plan.validate"@,
        "revision.list"@ != "plan.submit"@,
        "revision.list"@ != "compile.run"@,
        "revision.publish"@ != "asset.ingest"@,
        "revision.publish"@ != "asset.list"@,
        "revision.publish"@ != "asset.show"@,
        "revision.publish"@ != "plan.validate"@,
        "revision.publish"@ != "plan.submit"@,
        "revision.publish"@ != "compile.run"@,
        "revision.publish"@ != "revision.list"@,
        "revision.archive"@ != "asset.ingest"@,
        "revision.archive"@ != "asset.list"@,
        "revision.archive"@ != "asset.show"@,
        "revision.archive"@ != "plan.validate"@,
        "revision.archive"@ != "plan.submit"@,
        "revision.archive"@ != "compile.run"@,
        "revision.archive"@ != "revision.list"@,
        "revision.archive"@ != "revision.publish"@,
        "run.start"@ != "asset.ingest"@,
        "run.start"@ != "asset.list"@,
        "run.start"@ != "asset.show"@,
        "run.start"@ != "plan.validate"@,
        "run.start"@ != "plan.submit"@,
        "run.start"@ != "compile.run"@,
        "run.start"@ != "revision.list"@,
        "run.start"@ != "revision.publish"@,
        "run.start"@ != "revision.archive"@,
        "run.status"@ != "asset.ingest"@,
        "run.status"@ != "asset.list"@,
        "run.status"@ != "asset.show"@,
        "run.status"@ != "plan.validate"@,
        "run.status"@ != "plan.submit"@,
        "run.status"@ != "compile.run"@,
        "run.status"@ != "revision.list"@,
        "run.status"@ != "revision.publish"@,
        "run.status"@ != "revision.archive"@,
        "run.status"@ != "run.start"@,
        "patch.check"@ != "asset.ingest"@,
        "patch.check"@ != "asset.list"@,
        "patch.check"@ != "asset.show"@,
        "patch.check"@ != "plan.validate"@,
        "patch.check"@ != "plan.submit"@,
        "patch.check"@ != "compile.run"@,
        "patch.check"@ != "revision.list"@,
        "patch.check"@ != "revision.publish"@,
        "patch.check"@ != "revision.archive"@,
        "patch.check"@ != "run.start"@,
        "patch.check"@ != "run.status"@,
        "patch.submit"@ != "asset.ingest"@,
        "patch.submit"@ != "asset.list"@,
        "patch.submit"@ != "asset.show"@,
        "patch.submit"@ != "plan.validate"@,
        "patch.submit"@ != "plan.submit"@,
        "patch.submit"@ != "compile.run"@,
        "patch.submit"@ != "revision.list"@,
        "patch.submit"@ != "revision.publish"@,
        "patch.submit"@ != "revision.archive"@,
        "patch.submit"@ != "run.start"@,
        "patch.submit"@ != "run.status"@,
        "patch.submit"@ != "patch.check"@,
        "patch.rollback"@ != "asset.ingest"@,
        "patch.rollback"@ != "asset.list"@,
        "patch.rollback"@ != "asset.show"@,
        "patch.rollback"@ != "plan.validate"@,
        "patch.rollback"@ != "plan.submit"@,
        "patch.rollback"@ != "compile.run"@,
        "patch.rollback"@ != "revision.list"@,
        "patch.rollback"@ != "revision.publish"@,
        "patch.rollback"@ != "revision.archive"@,
        "patch.rollback"@ != "run.start"@,
        "patch.rollback"@ != "run.status"@,
        "patch.rollback"@ != "patch.check"@,
        "patch.rollback"@ != "patch.submit"@,
        "patch.deferred_rollback"@ != "asset.ingest"@,
        "patch.deferred_rollback"@ != "asset.list"@,
        "patch.deferred_rollback"@ != "asset.show"@,
        "patch.deferred_rollback"@ != "plan.validate"@,
        "patch.deferred_rollback"@ != "plan.submit"@,
        "patch.deferred_rollback"@ != "compile.run"@,
        "patch.deferred_rollback"@ != "revision.list"@,
        "patch.deferred_rollback"@ != "revision.publish"@,
        "patch.deferred_rollback"@ != "revision.archive"@,
        "patch.deferred_rollback"@ != "run.start"@,
        "patch.deferred_rollback"@ != "run.status"@,
        "patch.deferred_rollback"@ != "patch.check"@,
        "patch.deferred_rollback"@ != "patch.submit"@,
        "patch.deferred_rollback"@ != "patch.rollback"@,
        "trace.show"@ != "asset.ingest"@,
        "trace.show"@ != "asset.list"@,
        "trace.show"@ != "asset.show"@,
        "trace.show"@ != "plan.validate"@,
        "trace.show"@ != "plan.submit"@,
        "trace.show"@ != "compile.run"@,
        "trace.show"@ != "revision.list"@,
        "trace.show"@ != "revision.publish"@,
        "trace.show"@ != "revision.archive"@,
        "trace.show"@ != "run.start"@,
        "trace.show"@ != "run.status"@,
        "trace.show"@ != "patch.check"@,
        "trace.show"@ != "patch.submit"@,
        "trace.show"@ != "patch.rollback"@,
        "trace.show"@ != "patch.deferred_rollback"@,
        "trace.events"@ != "asset.ingest"@,
        "trace.events"@ != "asset.list"@,
        "trace.events"@ != "asset.show"@,
        "trace.events"@ != "plan.validate"@,
        "trace.events"@ != "plan.submit"@,
        "trace.events"@ != "compile.run"@,
        "trace.events"@ != "revision.list"@,
        "trace.events"@ != "revision.publish"@,
        "trace.events"@ != "revision.archive"@,
        "trace.events"@ != "run.start"@,
        "trace.events"@ != "run.status"@,
        "trace.events"@ != "patch.check"@,
        "trace.events"@ != "patch.submit"@,
        "trace.events"@ != "patch.rollback"@,
        "trace.events"@ != "patch.deferred_rollback"@,
        "trace.events"@ != "trace.show"@,
        "eval.run"@ != "asset.ingest"@,
        "eval.run"@ != "asset.list"@,
        "eval.run"@ != "asset.show"@,
        "eval.run"@ != "plan.validate"@,
        "eval.run"@ != "plan.submit"@,
        "eval.run"@ != "compile.run"@,
        "eval.run"@ != "revision.list"@,
        "eval.run"@ != "revision.publish"@,
        "eval.run"@ != "revision.archive"@,
        "eval.run"@ != "run.start"@,
        "eval.run"@ != "run.status"@,
        "eval.run"@ != "patch.check"@,
        "eval.run"@ != "patch.submit"@,
        "eval.run"@ != "patch.rollback"@,
        "eval.run"@ != "patch.deferred_rollback"@,
        "eval.run"@ != "trace.show"@,
        "eval.run"@ != "trace.events"@,
        "export.audio"@ != "asset.ingest"@,
        "export.audio"@ != "asset.list"@,
        "export.audio"@ != "asset.show"@,
        "export.audio"@ != "plan.validate"@,
        "export.audio"@ != "plan.submit"@,
        "export.audio"@ != "compile.run"@,
        "export.audio"@ != "revision.list"@,
        "export.audio"@ != "revision.publish"@,
        "export.audio"@ != "revision.archive"@,
        "export.audio"@ != "run.start"@,
        "export.audio"@ != "run.status"@,
        "export.audio"@ != "patch.check"@,
        "export.audio"@ != "patch.submit"@,
        "export.audio"@ != "patch.rollback"@,
        "export.audio"@ != "patch.deferred_rollback"@,
        "export.audio"@ != "trace.show"@,
        "export.audio"@ != "trace.events"@,
        "export.audio"@ != "eval.run"@,
        "system.doctor"@ != "asset.ingest"@,
        "system.doctor"@ != "asset.list"@,
        "system.doctor"@ != "asset.show"@,
        "system.doctor"@ != "plan.validate"@,
        "system.doctor"@ != "plan.submit"@,
        "system.doctor"@ != "compile.run"@,
        "system.doctor"@ != "revision.list"@,
        "system.doctor"@ != "revision.publish"@,
        "system.doctor"@ != "revision.archive"@,
        "system.doctor"@ != "run.start"@,
        "system.doctor"@ != "run.status"@,
        "system.doctor"@ != "patch.check"@,
        "system.doctor"@ != "patch.submit"@,
        "system.doctor"@ != "patch.rollback"@,
        "system.doctor"@ != "patch.deferred_rollback"@,
        "system.doctor"@ != "trace.show"@,
        "system.doctor"@ != "trace.events"@,
        "system.doctor"@ != "eval.run"@,
        "system.doctor"@ != "export.audio"@,
        "system.capabilities"@ != "asset.ingest"@,
        "system.capabilities"@ != "asset.list"@,
        "system.capabilities"@ != "asset.show"@,
        "system.capabilities"@ != "plan.validate"@,
        "system.capabilities"@ != "plan.submit"@,
        "system.capabilities"@ != "compile.run"@,
        "system.capabilities"@ != "revision.list"@,
        "system.capabilities"@ != "revision.publish"@,
        "system.capabilities"@ != "revision.archive"@,
        "system.capabilities"@ != "run.start"@,
        "system.capabilities"@ != "run.status"@,
        "system.capabilities"@ != "patch.check"@,
        "system.capabilities"@ != "patch.submit"@,
        "system.capabilities"@ != "patch.rollback"@,
        "system.capabilities"@ != "patch.deferred_rollback"@,
        "system.capabilities"@ != "trace.show"@,
        "system.capabilities"@ != "trace.events"@,
        "system.capabilities"@ != "eval.run"@,
        "system.capabilities"@ != "export.audio"@,
        "system.capabilities"@ != "system.doctor"@,
        "system.adapters"@ != "asset.ingest"@,
        "system.adapters"@ != "asset.list"@,
        "system.adapters"@ != "asset.show"@,
        "system.adapters"@ != "plan.validate"@,
        "system.adapters"@ != "plan.submit"@,
        "system.adapters"@ != "compile.run"@,
        "system.adapters"@ != "revision.list"@,
        "system.adapters"@ != "revision.publish"@,
        "system.adapters"@ != "revision.archive"@,
        "system.adapters"@ != "run.start"@,
        "system.adapters"@ != "run.status"@,
        "system.adapters"@ != "patch.check"@,
        "system.adapters"@ != "patch.submit"@,
        "system.adapters"@ != "patch.rollback"@,
        "system.adapters"@ != "patch.deferred_rollback"@,
        "system.adapters"@ != "trace.show"@,
        "system.adapters"@ != "trace.events"@,
        "system.adapters"@ != "eval.run"@,
        "system.adapters"@ != "export.audio"@,
        "system.adapters"@ != "system.doctor"@,
        "system.adapters"@ != "system.capabilities"@,
        "system.hubs"@ != "asset.ingest"@,
        "system.hubs"@ != "asset.list"@,
        "system.hubs"@ != "asset.show"@,
        "system.hubs"@ != "plan.validate"@,
        "system.hubs"@ != "plan.submit"@,
        "system.hubs"@ != "compile.run"@,
        "system.hubs"@ != "revision.list"@,
        "system.hubs"@ != "revision.publish"@,
        "system.hubs"@ != "revision.archive"@,
        "system.hubs"@ != "run.start"@,
        "system.hubs"@ != "run.status"@,
        "system.hubs"@ != "patch.check"@,
        "system.hubs"@ != "patch.submit"@,
        "system.hubs"@ != "patch.rollback"@,
        "system.hubs"@ != "patch.deferred_rollback"@,
        "system.hubs"@ != "trace.show"@,
        "system.hubs"@ != "trace.events"@,
        "system.hubs"@ != "eval.run"@,
        "system.hubs"@ != "export.audio"@,
        "system.hubs"@ != "system.doctor"@,
        "system.hubs"@ != "system.capabilities"@,
        "system.hubs"@ != "system.adapters"@,
{
    let b = builtin_names();
    lemma_builtin_names_unique();
    assert(b[0] == "asset.ingest"@);
    assert(b[1] == "asset.list"@);
    assert(b[2] == "asset.show"@);
    assert(b[3] == "plan.validate"@);
    assert(b[4] == "plan.submit"@);
    assert(b[5] == "compile.run"@);
    assert(b[6] == "revision.list"@);
    assert(b[7] == "revision.publish"@);
    assert(b[8] == "revision.archive"@);
    assert(b[9] == "run.start"@);
    assert(b[10] == "run.status"@);
    assert(b[11] == "patch.check"@);
    assert(b[12] == "patch.submit"@);
    assert(b[13] == "patch.rollback"@);
    assert(b[14] == "patch.deferred_rollback"@);
    assert(b[15] == "trace.show"@);
    assert(b[16] == "trace.events"@);
    assert(b[17] == "eval.run"@);
    assert(b[18] == "export.audio"@);
    assert(b[19] == "system.doctor"@);
    assert(b[20] == "system.capabilities"@);
    assert(b[21] == "system.adapters"@);
    assert(b[22] == "system.hubs"@);
    assert forall|i: int, j: int| 0 <= i < j < 23 implies #[trigger] b[i] != #[trigger] b[j] by {}
}

/// Each built-in capability routes to the target named after it.
pub proof fn law_route_targets_by_name()
    ensures
        spec_route("asset.ingest"@) == Some(RouteTarget::AssetIngest),
        spec_route("asset.list"@) == Some(RouteTarget::AssetList),
        spec_route("asset.show"@) == Some(RouteTarget::AssetShow),
        spec_route("plan.validate"@) == Some(RouteTarget::PlanValidate),
        spec_route("plan.submit"@) == Some(RouteTarget::PlanSubmit),
        spec_route("compile.run"@) == Some(RouteTarget::CompileRun),
        spec_route("revision.list"@) == Some(RouteTarget::RevisionList),
        spec_route("revision.publish"@) == Some(RouteTarget::RevisionPublish),
        spec_route("revision.archive"@) == Some(RouteTarget::RevisionArchive),
        spec_route("run.start"@) == Some(RouteTarget::RunStart),
        spec_route("run.status"@) == Some(RouteTarget::RunStatus),
        spec_route("patch.check"@) == Some(RouteTarget::PatchCheck),
        spec_route("patch.submit"@) == Some(RouteTarget::PatchSubmit),
        spec_route("patch.rollback"@) == Some(RouteTarget::PatchRollback),
        spec_route("patch.deferred_rollback"@) == Some(RouteTarget::PatchDeferredRollback),
        spec_route("trace.show"@) == Some(RouteTarget::TraceShow),
        spec_route("trace.events"@) == Some(RouteTarget::TraceEvents),
        spec_route("eval.run"@) == Some(RouteTarget::EvalRun),
        spec_route("export.audio"@) == Some(RouteTarget::ExportAudio),
        spec_route("system.doctor"@) == Some(RouteTarget::SystemDoctor),
        spec_route("system.capabilities"@) == Some(RouteTarget::SystemCapabilities),
        spec_route("system.adapters"@) == Some(RouteTarget::SystemAdapters),
        spec_route("system.hubs"@) == Some(RouteTarget::SystemHubs),
{
    lemma_builtin_literals_distinct();

}

/// Routing tells capabilities apart: two names that route to the same
/// target are the same name.
pub proof fn law_route_injective(a: Seq<char>, b: Seq<char>)
    requires
        spec_route(a) is Some,
        spec_route(a) == spec_route(b),
    ensures
        a == b,
{
    lemma_builtin_literals_distinct();

}

/// `route` accepts exactly the capabilities the default registry lists:
/// for the registry `default_registry` builds, a name routes exactly when
/// `lookup` finds it there.
pub proof fn law_route_matches_default_registry(reg: CapabilityRegistry, c: Seq<char>)
    requires
        reg.descriptors_spec().len() == 23,
        forall|i: int| 0 <= i < 23 ==> is_builtin_descriptor(#[trigger] reg.descriptors_spec()[i], i),
    ensures
        spec_route(c) is Some <==> names_of(reg.descriptors_spec()).contains(c),
{
    assert(names_of(reg.descriptors_spec()) =~= builtin_names()) by {
        assert forall|i: int| 0 <= i < 23 implies #[trigger] names_of(reg.descriptors_spec())[i] == builtin_names()[i] by {
            assert(is_builtin_descriptor(reg.descriptors_spec()[i], i));
        }
    }
    lemma_route_iff_builtin(c);
}

/// Routes a capability identifier to its typed target; an unknown capability
/// yields a CAP-001 error diagnostic.
pub fn route(capability: &str) -> (r: Result<RouteTarget, Box<Diagnostic>>)
    ensures
        spec_route(capability@) matches Some(t) ==> r == Ok::<RouteTarget, Box<Diagnostic>>(t),
        spec_route(capability@) is None ==> (r matches Err(d)
            && d.is_plain("CAP-001"@, "error"@, "unsupported capability: "@ + capability@)),
{
    if str_eq(capability, "asset.ingest") {
        return Ok(RouteTarget::AssetIngest);
    }
    if str_eq(capability, "asset.list") {
        return Ok(RouteTarget::AssetList);
    }
    if str_eq(capability, "asset.show") {
        return Ok(RouteTarget::AssetShow);
    }
    if str_eq(capability, "plan.validate") {
        return Ok(RouteTarget::PlanValidate);
    }
    if str_eq(capability, "plan.submit") {
        return Ok(RouteTarget::PlanSubmit);
    }
    if str_eq(capability, "compile.run") {
        return Ok(RouteTarget::CompileRun);
    }
    if str_eq(capability, "revision.list") {
        return Ok(RouteTarget::RevisionList);
    }
    if str_eq(capability, "revision.publish") {
        return Ok(RouteTarget::RevisionPublish);
    }
    if str_eq(capability, "revision.archive") {
        return Ok(RouteTarget::RevisionArchive);
    }
    if str_eq(capability, "run.start") {
        return Ok(RouteTarget::RunStart);
    }
    if str_eq(capability, "run.status") {
        return Ok(RouteTarget::RunStatus);
    }
    if str_eq(capability, "patch.check") {
        return Ok(RouteTarget::PatchCheck);
    }
    if str_eq(capability, "patch.submit") {
        return Ok(RouteTarget::PatchSubmit);
    }
    if str_eq(capability, "patch.rollback") {
        return Ok(RouteTarget::PatchRollback);
    }
    if str_eq(capability, "patch.deferred_rollback") {
        return Ok(RouteTarget::PatchDeferredRollback);
    }
    if str_eq(capability, "trace.show") {
        return Ok(RouteTarget::TraceShow);
    }
    if str_eq(capability, "trace.events") {
        return Ok(RouteTarget::TraceEvents);
    }
    if str_eq(capability, "eval.run") {
        return Ok(RouteTarget::EvalRun);
    }
    if str_eq(capability, "export.audio") {
        return Ok(RouteTarget::ExportAudio);
    }
    if str_eq(capability, "system.doctor") {
        return Ok(RouteTarget::SystemDoctor);
    }
    if str_eq(capability, "system.capabilities") {
        return Ok(RouteTarget::SystemCapabilities);
    }
    if str_eq(capability, "system.adapters") {
        return Ok(RouteTarget::SystemAdapters);
    }
    if str_eq(capability, "system.hubs") {
        return Ok(RouteTarget::SystemHubs);
    }
    let message = join2("unsupported capability: ", capability);
    Err(Box::new(Diagnostic::error("CAP-001", message.as_str())))
}

/// Every built-in capability routes, and nothing else does.
pub proof fn lemma_route_covers_builtin(capability: Seq<char>)
    ensures
        spec_route(capability) is Some <==> builtin_names().contains(capability),
{
    lemma_builtin_names_unique();
    if builtin_names().contains(capability) {
        let k = choose|k: int| 0 <= k < builtin_names().len() && builtin_names()[k] == capability;
        assert(0 <= k < 23);
    } else {
        assert(builtin_names()[0] != capability);
        assert(builtin_names()[1] != capability);
        assert(builtin_names()[2] != capability);
        assert(builtin_names()[3] != capability);
        assert(builtin_names()[4] != capability);
        assert(builtin_names()[5] != capability);
        assert(builtin_names()[6] != capability);
        assert(builtin_names()[7] != capability);
        assert(builtin_names()[8] != capability);
        assert(builtin_names()[9] != capability);
        assert(builtin_names()[10] != capability);
        assert(builtin_names()[11] != capability);
        assert(builtin_names()[12] != capability);
        assert(builtin_names()[13] != capability);
        assert(builtin_names()[14] != capability);
        assert(builtin_names()[15] != capability);
        assert(builtin_names()[16] != capability);
        assert(builtin_names()[17] != capability);
        assert(builtin_names()[18] != capability);
        assert(builtin_names()[19] != capability);
        assert(builtin_names()[20] != capability);
        assert(builtin_names()[21] != capability);
        assert(builtin_names()[22] != capability);
    }
}

// ---------------------------------------------------------------------------
// MCP tool mapping
// ---------------------------------------------------------------------------

/// An MCP tool and the capability it maps to.
#[derive(Debug, Clone, PartialEq, Eq)]
pub struct McpToolMapping {
    pub tool_name: String,
    pub capability: String,
    pub read_only: bool,
    pub is_async: bool,
}

/// Whether `m` is the tool mapping for position `i` of the capability table.
pub open spec fn is_builtin_mapping(m: McpToolMapping, i: int) -> bool {
    &&& m.tool_name@ == builtin_names()[i]
    &&& m.capability@ == builtin_names()[i]
    &&& m.read_only == builtin_read_only()[i]
    &&& m.is_async == (builtin_modes()[i] == "async"@)
}

fn mcp_map(tool_name: &str, capability: &str, read_only: bool, is_async: bool) -> (m: McpToolMapping)
    ensures
        m.tool_name@ == tool_name@,
        m.capability@ == capability@,
        m.read_only == read_only,
        m.is_async == is_async,
{
    McpToolMapping {
        tool_name: String::from_str(tool_name),
        capability: String::from_str(capability),
        read_only,
        is_async,
    }
}

/// The complete MCP tool to capability mapping table, in capability table order.
pub fn mcp_tool_mappings() -> (v: Vec<McpToolMapping>)
    ensures
        v@.len() == 23,
        forall|i: int| 0 <= i < 23 ==> is_builtin_mapping(#[trigger] v@[i], i),
{
    proof {
        reveal_strlit("async");
        reveal_strlit("sync");
        assert("sync"@.len() != "async"@.len());
    }
    let mut v: Vec<McpToolMapping> = Vec::new();
    v.push(mcp_map("asset.ingest", "asset.ingest", false, true));
    assert(is_builtin_mapping(v@[0], 0));
    v.push(mcp_map("asset.list", "asset.list", true, false));
    assert(is_builtin_mapping(v@[1], 1));
    v.push(mcp_map("asset.show", "asset.show", true, false));
    assert(is_builtin_mapping(v@[2], 2));
    v.push(mcp_map("plan.validate", "plan.validate", true, false));
    assert(is_builtin_mapping(v@[3], 3));
    v.push(mcp_map("plan.submit", "plan.submit", false, true));
    assert(is_builtin_mapping(v@[4], 4));
    v.push(mcp_map("compile.run", "compile.run", false, true));
    assert(is_builtin_mapping(v@[5], 5));
    v.push(mcp_map("revision.list", "revision.list", true, false));
    assert(is_builtin_mapping(v@[6], 6));
    v.push(mcp_map("revision.publish", "revision.publish", false, false));
    assert(is_builtin_mapping(v@[7], 7));
    v.push(mcp_map("revision.archive", "revision.archive", false, false));
    assert(is_builtin_mapping(v@[8], 8));
    v.push(mcp_map("run.start", "run.start", false, true));
    assert(is_builtin_mapping(v@[9], 9));
    v.push(mcp_map("run.status", "run.status", true, false));
    assert(is_builtin_mapping(v@[10], 10));
    v.push(mcp_map("patch.check", "patch.check", true, false));
    assert(is_builtin_mapping(v@[11], 11));
    v.push(mcp_map("patch.submit", "patch.submit", false, true));
    assert(is_builtin_mapping(v@[12], 12));
    v.push(mcp_map("patch.rollback", "patch.rollback", false, false));
    assert(is_builtin_mapping(v@[13], 13));
    v.push(mcp_map("patch.deferred_rollback", "patch.deferred_rollback", false, false));
    assert(is_builtin_mapping(v@[14], 14));
    v.push(mcp_map("trace.show", "trace.show", true, false));
    assert(is_builtin_mapping(v@[15], 15));
    v.push(mcp_map("trace.events", "trace.events", true, false));
    assert(is_builtin_mapping(v@[16], 16));
    v.push(mcp_map("eval.run", "eval.run", false, true));
    assert(is_builtin_mapping(v@[17], 17));
    v.push(mcp_map("export.audio", "export.audio", false, true));
    assert(is_builtin_mapping(v@[18], 18));
    v.push(mcp_map("system.doctor", "system.doctor", true, false));
    assert(is_builtin_mapping(v@[19], 19));
    v.push(mcp_map("system.capabilities", "system.capabilities", true, false));
    assert(is_builtin_mapping(v@[20], 20));
    v.push(mcp_map("system.adapters", "system.adapters", true, false));
    assert(is_builtin_mapping(v@[21], 21));
    v.push(mcp_map("system.hubs", "system.hubs", true, false));
    assert(is_builtin_mapping(v@[22], 22));
    v
}

/// Resolves an MCP tool name to the capability of the same name.
pub fn resolve_mcp_tool(tool_name: &str) -> (r: Option<&'static str>)
    ensures
        r is Some <==> builtin_names().contains(tool_name@),
        r matches Some(c) ==> c@ == tool_name@,
{
    if str_eq(tool_name, "asset.ingest") {
        proof { assert(builtin_names()[0] == tool_name@); }
        return Some("asset.ingest");
    }
    if str_eq(tool_name, "asset.list") {
        proof { assert(builtin_names()[1] == tool_name@); }
        return Some("asset.list");
    }
    if str_eq(tool_name, "asset.show") {
        proof { assert(builtin_names()[2] == tool_name@); }
        return Some("asset.show");
    }
    if str_eq(tool_name, "plan.validate") {
        proof { assert(builtin_names()[3] == tool_name@); }
        return Some("plan.validate");
    }
    if str_eq(tool_name, "plan.submit") {
        proof { assert(builtin_names()[4] == tool_name@); }
        return Some("plan.submit");
    }
    if str_eq(tool_name, "compile.run") {
        proof { assert(builtin_names()[5] == tool_name@); }
        return Some("compile.run");
    }
    if str_eq(tool_name, "revision.list") {
        proof { assert(builtin_names()[6] == tool_name@); }
        return Some("revision.list");
    }
    if str_eq(tool_name, "revision.publish") {
        proof { assert(builtin_names()[7] == tool_name@); }
        return Some("revision.publish");
    }
    if str_eq(tool_name, "revision.archive") {
        proof { assert(builtin_names()[8] == tool_name@); }
        return Some("revision.archive");
    }
    if str_eq(tool_name, "run.start") {
        proof { assert(builtin_names()[9] == tool_name@); }
        return Some("run.start");
    }
    if str_eq(tool_name, "run.status") {
        proof { assert(builtin_names()[10] == tool_name@); }
        return Some("run.status");
    }
    if str_eq(tool_name, "patch.check") {
        proof { assert(builtin_names()[11] == tool_name@); }
        return Some("patch.check");
    }
    if str_eq(tool_name, "patch.submit") {
        proof { assert(builtin_names()[12] == tool_name@); }
        return Some("patch.submit");
    }
    if str_eq(tool_name, "patch.rollback") {
        proof { assert(builtin_names()[13] == tool_name@); }
        return Some("patch.rollback");
    }
    if str_eq(tool_name, "patch.deferred_rollback") {
        proof { assert(builtin_names()[14] == tool_name@); }
        return Some("patch.deferred_rollback");
    }
    if str_eq(tool_name, "trace.show") {
        proof { assert(builtin_names()[15] == tool_name@); }
        return Some("trace.show");
    }
    if str_eq(tool_name, "trace.events") {
        proof { assert(builtin_names()[16] == tool_name@); }
        return Some("trace.events");
    }
    if str_eq(tool_name, "eval.run") {
        proof { assert(builtin_names()[17] == tool_name@); }
        return Some("eval.run");
    }
    if str_eq(tool_name, "export.audio") {
        proof { assert(builtin_names()[18] == tool_name@); }
        return Some("export.audio");
    }
    if str_eq(tool_name, "system.doctor") {
        proof { assert(builtin_names()[19] == tool_name@); }
        return Some("system.doctor");
    }
    if str_eq(tool_name, "system.capabilities") {
        proof { assert(builtin_names()[20] == tool_name@); }
        return Some("system.capabilities");
    }
    if str_eq(tool_name, "system.adapters") {
        proof { assert(builtin_names()[21] == tool_name@); }
        return Some("system.adapters");
    }
    if str_eq(tool_name, "system.hubs") {
        proof { assert(builtin_names()[22] == tool_name@); }
        return Some("system.hubs");
    }
    proof {
        lemma_route_covers_builtin(tool_name@);
    }
    None
}

/// Each MCP tool maps to the capability at the same position of the registry's
/// table, and the tool is asynchronous exactly when that capability's execution
/// mode is "async".
pub proof fn lemma_mcp_mapping_matches_descriptor(m: McpToolMapping, d: CapabilityDescriptor, i: int)
    requires
        0 <= i < 23,
        is_builtin_mapping(m, i),
        is_builtin_descriptor(d, i),
    ensures
        m.capability@ == d.capability@,
        m.is_async == (d.execution_mode@ == "async"@),
{
}

// ---------------------------------------------------------------------------
// Operation tracker
// ---------------------------------------------------------------------------

/// Milliseconds since the UNIX epoch, or 0 when the clock reads before it.
#[verifier::external_body]
fn now_millis() -> u64 {
    std::time::SystemTime::now().duration_since(std::time::UNIX_EPOCH).map(|d| d.as_millis() as u64).unwrap_or(0)
}

/// The operation identifier for sequence number `n`: "op-" and `n` zero-padded to four digits.
pub open spec fn operation_id_text(n: nat) -> Seq<char> {
    "op-"@ + zero_pad(decimal(n), 4)
}

fn operation_id(n: u64) -> (s: String)
    ensures
        s@ == operation_id_text(n as nat),
{
    let mut s = String::from_str("op-");
    proof {
        reveal_strlit("op-");
    }
    push_padded_decimal(&mut s, n, 4);
    s
}

/// Two tickets agree in every field.
pub open spec fn same_ticket(a: OperationTicket, b: OperationTicket) -> bool {
    &&& a.operation_id@ == b.operation_id@
    &&& a.request_id@ == b.request_id@
    &&& a.capability@ == b.capability@
    &&& a.state@ == b.state@
    &&& a.started_at == b.started_at
    &&& a.updated_at == b.updated_at
    &&& a.artifact_refs@ == b.artifact_refs@
}

/// Tracks tickets of asynchronous operations.
pub struct OperationTracker {
    tickets: Vec<OperationTicket>,
    next_id: u64,
}

/// The ticket at the first position whose operation id is `id`, if any.
pub open spec fn first_ticket_index(tickets: Seq<OperationTicket>, id: Seq<char>) -> Option<int> {
    if exists|i: int| 0 <= i < tickets.len() && tickets[i].operation_id@ == id {
        Some(choose|i: int| 0 <= i < tickets.len() && tickets[i].operation_id@ == id
            && forall|j: int| 0 <= j < i ==> tickets[j].operation_id@ != id)
    } else {
        None
    }
}

/// Where some ticket has operation id `id`, `first_ticket_index` finds the
/// first one: a position with that id and none before it.
pub proof fn lemma_first_ticket_found(tickets: Seq<OperationTicket>, id: Seq<char>, i: int)
    requires
        0 <= i < tickets.len(),
        tickets[i].operation_id@ == id,
    ensures
        first_ticket_index(tickets, id) matches Some(k) && 0 <= k <= i && tickets[k].operation_id@ == id
            && forall|j: int| 0 <= j < k ==> tickets[j].operation_id@ != id,
    decreases i,
{
    if exists|j: int| 0 <= j < i && tickets[j].operation_id@ == id {
        let j = choose|j: int| 0 <= j < i && tickets[j].operation_id@ == id;
        lemma_first_ticket_found(tickets, id, j);
    } else {
        let k = choose|k: int| 0 <= k < tickets.len() && tickets[k].operation_id@ == id
            && forall|j: int| 0 <= j < k ==> tickets[j].operation_id@ != id;
        assert(k == i) by {
            if k < i {
            } else if k > i {
                assert(tickets[i].operation_id@ != id);
            }
        }
    }
}

impl OperationTracker {
    /// The tickets, oldest first.
    pub closed spec fn tickets_spec(self) -> Seq<OperationTicket> {
        self.tickets@
    }

    /// The sequence number the next ticket gets.
    pub closed spec fn next_spec(self) -> u64 {
        self.next_id
    }

    /// A tracker with no tickets whose first ticket is numbered 1.
    pub fn new() -> (t: Self)
        ensures
            t.tickets_spec() == Seq::<OperationTicket>::empty(),
            t.next_spec() == 1,
    {
        OperationTracker { tickets: Vec::new(), next_id: 1 }
    }

    /// Opens a running ticket for `request`, numbered with the next sequence number and
    /// started at `now`.
    pub fn start_at(&mut self, request: &CapabilityRequest, now: u64) -> (t: OperationTicket)
        requires
            old(self).next_spec() < u64::MAX,
        ensures
            t.operation_id@ == operation_id_text(old(self).next_spec() as nat),
            t.request_id == request.request_id,
            t.capability == request.capability,
            t.state@ == "running"@,
            t.started_at == now,
            t.updated_at is None,
            t.artifact_refs@ == Seq::<String>::empty(),
            final(self).tickets_spec().len() == old(self).tickets_spec().len() + 1,
            final(self).tickets_spec().subrange(0, old(self).tickets_spec().len() as int) == old(self).tickets_spec(),
            same_ticket(final(self).tickets_spec().last(), t),
            final(self).next_spec() == old(self).next_spec() + 1,
    {
        let ticket = OperationTicket {
            operation_id: operation_id(self.next_id),
            request_id: request.request_id.clone(),
            capability: request.capability.clone(),
            state: String::from_str("running"),
            started_at: now,
            updated_at: None,
            artifact_refs: Vec::new(),
        };
        self.next_id = self.next_id + 1;
        let copy = OperationTicket {
            operation_id: ticket.operation_id.clone(),
            request_id: ticket.request_id.clone(),
            capability: ticket.capability.clone(),
            state: ticket.state.clone(),
            started_at: ticket.started_at,
            updated_at: None,
            artifact_refs: Vec::new(),
        };
        assert(copy.artifact_refs@ =~= ticket.artifact_refs@);
        self.tickets.push(copy);
        assert(self.tickets@.subrange(0, old(self).tickets@.len() as int) =~= old(self).tickets@);
        ticket
    }

    /// Opens a running ticket for `request`, numbered with the next sequence number and
    /// started at the clock's reading.
    pub fn start(&mut self, request: &CapabilityRequest) -> (t: OperationTicket)
        requires
            old(self).next_spec() < u64::MAX,
        ensures
            t.operation_id@ == operation_id_text(old(self).next_spec() as nat),
            t.request_id == request.request_id,
            t.capability == request.capability,
            t.state@ == "running"@,
            t.updated_at is None,
            t.artifact_refs@ == Seq::<String>::empty(),
            final(self).tickets_spec().len() == old(self).tickets_spec().len() + 1,
            final(self).tickets_spec().subrange(0, old(self).tickets_spec().len() as int) == old(self).tickets_spec(),
            same_ticket(final(self).tickets_spec().last(), t),
            final(self).next_spec() == old(self).next_spec() + 1,
    {
        let now = now_millis();
        self.start_at(request, now)
    }

    /// Opens a ticket only when `request` names a registered asynchronous capability.
    pub fn start_if_async(&mut self, request: &CapabilityRequest, registry: &CapabilityRegistry) -> (r: Option<OperationTicket>)
        requires
            old(self).next_spec() < u64::MAX,
            registry.wf(),
        ensures
            (exists|d: CapabilityDescriptor| registry.descriptors_spec().contains(d)
                && d.capability@ == request.capability@ && d.execution_mode@ == "async"@) ==> (r matches Some(t)
                && final(self).tickets_spec().len() == old(self).tickets_spec().len() + 1
                && final(self).tickets_spec().subrange(0, old(self).tickets_spec().len() as int) == old(self).tickets_spec()
                && same_ticket(final(self).tickets_spec().last(), t)
                && t.operation_id@ == operation_id_text(old(self).next_spec() as nat)
                && t.state@ == "running"@ && t.capability == request.capability
                && final(self).next_spec() == old(self).next_spec() + 1),
            !(exists|d: CapabilityDescriptor| registry.descriptors_spec().contains(d)
                && d.capability@ == request.capability@ && d.execution_mode@ == "async"@) ==> (r is None
                && final(self).tickets_spec() == old(self).tickets_spec()
                && final(self).next_spec() == old(self).next_spec()),
    {
        let found = registry.lookup(request.capability.as_str());
        match found {
            None => {
                proof {
                    assert forall|d: CapabilityDescriptor| !(registry.descriptors_spec().contains(d)
                        && d.capability@ == request.capability@ && d.execution_mode@ == "async"@) by {
                        if registry.descriptors_spec().contains(d) && d.capability@ == request.capability@ {
                            let k = choose|k: int| 0 <= k < registry.descriptors_spec().len() && registry.descriptors_spec()[k] == d;
                            assert(names_of(registry.descriptors_spec())[k] == request.capability@);
                        }
                    }
                }
                None
            },
            Some(descriptor) => {
                if str_eq(descriptor.execution_mode.as_str(), "async") {
                    Some(self.start(request))
                } else {
                    proof {
                        assert forall|d: CapabilityDescriptor| !(registry.descriptors_spec().contains(d)
                            && d.capability@ == request.capability@ && d.execution_mode@ == "async"@) by {
                            if registry.descriptors_spec().contains(d) && d.capability@ == request.capability@ {
                                let k = choose|k: int| 0 <= k < registry.descriptors_spec().len() && registry.descriptors_spec()[k] == d;
                                let k2 = choose|k2: int| 0 <= k2 < registry.descriptors_spec().len() && registry.descriptors_spec()[k2] == *descriptor;
                                assert(names_of(registry.descriptors_spec())[k] == names_of(registry.descriptors_spec())[k2]);
                            }
                        }
                    }
                    None
                }
            },
        }
    }

    fn find_index(&self, operation_id: &str) -> (r: Option<usize>)
        ensures
            r matches Some(i) ==> first_ticket_index(self.tickets@, operation_id@) == Some(i as int) && i < self.tickets@.len(),
            r is None ==> first_ticket_index(self.tickets@, operation_id@) is None,
    {
        let mut i: usize = 0;
        while i < self.tickets.len()
            invariant
                i <= self.tickets@.len(),
                forall|k: int| 0 <= k < i ==> #[trigger] self.tickets@[k].operation_id@ != operation_id@,
            decreases self.tickets@.len() - i,
        {
            if str_eq(self.tickets[i].operation_id.as_str(), operation_id) {
                let ghost ts = self.tickets@;
                assert(first_ticket_index(ts, operation_id@) == Some(i as int)) by {
                    assert(0 <= i < ts.len() && ts[i as int].operation_id@ == operation_id@);
                    let w = choose|w: int| 0 <= w < ts.len() && ts[w].operation_id@ == operation_id@
                        && forall|j: int| 0 <= j < w ==> ts[j].operation_id@ != operation_id@;
                    if w < i {
                    } else if w > i {
                        assert(ts[i as int].operation_id@ != operation_id@);
                    }
                }
                return Some(i);
            }
            i = i + 1;
        }
        None
    }

    /// Marks the first ticket with `operation_id` as succeeded with `artifact_refs`
    /// at `now`; false when no ticket has that id.
    pub fn complete_at(&mut self, operation_id: &str, artifact_refs: Vec<String>, now: u64) -> (b: bool)
        ensures
            b == first_ticket_index(old(self).tickets_spec(), operation_id@) is Some,
            final(self).next_spec() == old(self).next_spec(),
            final(self).tickets_spec().len() == old(self).tickets_spec().len(),
            first_ticket_index(old(self).tickets_spec(), operation_id@) matches Some(i) ==> {
                let t = final(self).tickets_spec()[i];
                let o = old(self).tickets_spec()[i];
                &&& t.state@ == "succeeded"@
                &&& t.updated_at == Some(now)
                &&& t.artifact_refs == artifact_refs
                &&& t.operation_id == o.operation_id && t.request_id == o.request_id
                &&& t.capability == o.capability && t.started_at == o.started_at
                &&& forall|j: int| 0 <= j < final(self).tickets_spec().len() && j != i
                    ==> final(self).tickets_spec()[j] == old(self).tickets_spec()[j]
            },
            first_ticket_index(old(self).tickets_spec(), operation_id@) is None
                ==> final(self).tickets_spec() == old(self).tickets_spec(),
    {
        match self.find_index(operation_id) {
            Some(i) => {
                let old_t = &self.tickets[i];
                let t = OperationTicket {
                    operation_id: old_t.operation_id.clone(),
                    request_id: old_t.request_id.clone(),
                    capability: old_t.capability.clone(),
                    state: String::from_str("succeeded"),
                    started_at: old_t.started_at,
                    updated_at: Some(now),
                    artifact_refs,
                };
                self.tickets.set(i, t);
                true
            },
            None => false,
        }
    }

    /// Marks the first ticket with `operation_id` as succeeded with `artifact_refs`
    /// at the clock's reading; false when no ticket has that id.
    pub fn complete(&mut self, operation_id: &str, artifact_refs: Vec<String>) -> (b: bool)
        ensures
            b == first_ticket_index(old(self).tickets_spec(), operation_id@) is Some,
            final(self).next_spec() == old(self).next_spec(),
            final(self).tickets_spec().len() == old(self).tickets_spec().len(),
            first_ticket_index(old(self).tickets_spec(), operation_id@) matches Some(i) ==> {
                let t = final(self).tickets_spec()[i];
                let o = old(self).tickets_spec()[i];
                &&& t.state@ == "succeeded"@
                &&& t.updated_at is Some
                &&& t.artifact_refs == artifact_refs
                &&& t.operation_id == o.operation_id && t.request_id == o.request_id
                &&& t.capability == o.capability && t.started_at == o.started_at
                &&& forall|j: int| 0 <= j < final(self).tickets_spec().len() && j != i
                    ==> final(self).tickets_spec()[j] == old(self).tickets_spec()[j]
            },
            first_ticket_index(old(self).tickets_spec(), operation_id@) is None
                ==> final(self).tickets_spec() == old(self).tickets_spec(),
    {
        let now = now_millis();
        self.complete_at(operation_id, artifact_refs, now)
    }

    /// Marks the first ticket with `operation_id` as failed at `now`; false when no
    /// ticket has that id.
    pub fn fail_at(&mut self, operation_id: &str, now: u64) -> (b: bool)
        ensures
            b == first_ticket_index(old(self).tickets_spec(), operation_id@) is Some,
            final(self).next_spec() == old(self).next_spec(),
            final(self).tickets_spec().len() == old(self).tickets_spec().len(),
            first_ticket_index(old(self).tickets_spec(), operation_id@) matches Some(i) ==> {
                let t = final(self).tickets_spec()[i];
                let o = old(self).tickets_spec()[i];
                &&& t.state@ == "failed"@
                &&& t.updated_at == Some(now)
                &&& t.artifact_refs@ == o.artifact_refs@
                &&& t.operation_id == o.operation_id && t.request_id == o.request_id
                &&& t.capability == o.capability && t.started_at == o.started_at
                &&& forall|j: int| 0 <= j < final(self).tickets_spec().len() && j != i
                    ==> final(self).tickets_spec()[j] == old(self).tickets_spec()[j]
            },
            first_ticket_index(old(self).tickets_spec(), operation_id@) is None
                ==> final(self).tickets_spec() == old(self).tickets_spec(),
    {
        match self.find_index(operation_id) {
            Some(i) => {
                let old_t = &self.tickets[i];
                let mut refs: Vec<String> = Vec::new();
                let mut k: usize = 0;
                while k < old_t.artifact_refs.len()
                    invariant
                        k <= old_t.artifact_refs@.len(),
                        refs@ == old_t.artifact_refs@.subrange(0, k as int),
                    decreases old_t.artifact_refs@.len() - k,
                {
                    refs.push(old_t.artifact_refs[k].clone());
                    assert(refs@ =~= old_t.artifact_refs@.subrange(0, k + 1));
                    k = k + 1;
                }
                assert(refs@ =~= old_t.artifact_refs@);
                let t = OperationTicket {
                    operation_id: old_t.operation_id.clone(),
                    request_id: old_t.request_id.clone(),
                    capability: old_t.capability.clone(),
                    state: String::from_str("failed"),
                    started_at: old_t.started_at,
                    updated_at: Some(now),
                    artifact_refs: refs,
                };
                self.tickets.set(i, t);
                true
            },
            None => false,
        }
    }

    /// Marks the first ticket with `operation_id` as failed at the clock's reading;
    /// false when no ticket has that id.
    pub fn fail(&mut self, operation_id: &str) -> (b: bool)
        ensures
            b == first_ticket_index(old(self).tickets_spec(), operation_id@) is Some,
            final(self).next_spec() == old(self).next_spec(),
            final(self).tickets_spec().len() == old(self).tickets_spec().len(),
            first_ticket_index(old(self).tickets_spec(), operation_id@) matches Some(i) ==> {
                let t = final(self).tickets_spec()[i];
                let o = old(self).tickets_spec()[i];
                &&& t.state@ == "failed"@
                &&& t.updated_at is Some
                &&& t.artifact_refs@ == o.artifact_refs@
                &&& t.operation_id == o.operation_id && t.request_id == o.request_id
                &&& t.capability == o.capability && t.started_at == o.started_at
                &&& forall|j: int| 0 <= j < final(self).tickets_spec().len() && j != i
                    ==> final(self).tickets_spec()[j] == old(self).tickets_spec()[j]
            },
            first_ticket_index(old(self).tickets_spec(), operation_id@) is None
                ==> final(self).tickets_spec() == old(self).tickets_spec(),
    {
        let now = now_millis();
        self.fail_at(operation_id, now)
    }

    /// The first ticket with `operation_id`, if any.
    pub fn get(&self, operation_id: &str) -> (r: Option<&OperationTicket>)
        ensures
            first_ticket_index(self.tickets_spec(), operation_id@) matches Some(i) ==> r == Some(&self.tickets_spec()[i]),
            first_ticket_index(self.tickets_spec(), operation_id@) is None ==> r is None,
    {
        match self.find_index(operation_id) {
            Some(i) => Some(&self.tickets[i]),
            None => None,
        }
    }

    /// All tickets, oldest first.
    pub fn list(&self) -> (r: &[OperationTicket])
        ensures
            r@ == self.tickets_spec(),
    {
        self.tickets.as_slice()
    }
}

impl Default for OperationTracker {
    fn default() -> (t: Self)
        ensures
            t.tickets_spec() == Seq::<OperationTicket>::empty(),
            t.next_spec() == 1,
    {
        Self::new()
    }
}

/// An error envelope for `capability`: status "error", the default data,
/// the one diagnostic, and no artifacts or next actions.
pub fn error_envelope<T: Default>(capability: &str, request_id: &str, diagnostic: Diagnostic) -> (e: ResponseEnvelope<T>)
    ensures
        e.status@ == "error"@,
        e.capability@ == capability@,
        e.request_id@ == request_id@,
        e.diagnostics@ == seq![diagnostic],
        e.artifacts@.len() == 0,
        e.next_actions@.len() == 0,
{
    let e = ResponseEnvelope::new("error", capability, request_id, T::default(), vec![diagnostic], Vec::new(), Vec::new());
    proof {
        reveal_strlit("error");
    }
    e
}

} // verus!
