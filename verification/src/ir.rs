//! Intermediate representation shared across the show pipeline: plans,
//! assets, compiled structure, timeline, patches, runtime events and
//! deployment descriptors.

use std::collections::BTreeMap;
use vstd::prelude::*;

verus! {

/// Who submitted an object, and how.
#[derive(Debug, Clone, PartialEq, Eq)]
pub struct SourceInfo {
    pub kind: String,
    pub submitted_by: String,
    pub submission_id: String,
}

/// Where an object came from.
#[derive(Debug, Clone, PartialEq, Eq)]
pub struct Provenance {
    pub plan_id: String,
    pub compiler_run_id: String,
    pub parent_ids: Vec<String>,
}

/// Common header of IR objects.
#[derive(Debug, Clone, PartialEq, Eq)]
pub struct ObjectHeader {
    pub id: String,
    pub type_: String,
    pub version: String,
    pub revision: u64,
    pub schema: String,
    pub source: SourceInfo,
    pub provenance: Provenance,
    pub labels: Vec<String>,
    pub annotations: BTreeMap<String, String>,
}

/// The object field a diagnostic points at.
#[derive(Debug, Clone, PartialEq, Eq)]
pub struct DiagnosticTarget {
    pub object_type: String,
    pub object_id: String,
    pub field: String,
}

/// A structured validation or runtime diagnostic.
#[derive(Debug, Clone, PartialEq, Eq)]
pub struct Diagnostic {
    pub code: String,
    pub namespace: String,
    pub severity: String,
    pub message: String,
    pub target: Option<DiagnosticTarget>,
    pub retryable: bool,
    pub details: BTreeMap<String, String>,
    pub suggestion: Option<String>,
}

/// The envelope every capability response is wrapped in.
#[derive(Debug, Clone, PartialEq)]
pub struct ResponseEnvelope<T> {
    pub status: String,
    pub capability: String,
    pub request_id: String,
    pub data: T,
    pub diagnostics: Vec<Diagnostic>,
    pub artifacts: Vec<String>,
    pub next_actions: Vec<String>,
}

/// The goal of a set plan.
#[derive(Debug, Clone, PartialEq)]
pub struct SetPlanGoal {
    pub intent: String,
    pub duration_target_sec: Option<u32>,
    pub style_tags: Vec<String>,
}

/// When an audio layer may enter.
#[derive(Debug, Clone, PartialEq)]
pub struct EntryRules {
    pub section_refs: Vec<String>,
    pub quantize: String,
    pub max_simultaneous: u32,
}

/// A visual scene of the visual DSL.
#[derive(Debug, Clone, PartialEq)]
pub struct VisualScene {
    pub scene_id: String,
    pub program_ref: String,
    pub output_backend: Option<String>,
    pub view_group_ref: Option<String>,
    pub display_topology_ref: Option<String>,
    pub calibration_profile_ref: Option<String>,
    pub inputs: BTreeMap<String, String>,
    pub semantic_binding: BTreeMap<String, String>,
    pub uniform_defaults: BTreeMap<String, String>,
}

/// The visual DSL of a plan.
#[derive(Debug, Clone, PartialEq)]
pub struct VisualDsl {
    pub type_: String,
    pub id: String,
    pub show_id: String,
    pub scenes: Vec<VisualScene>,
}

/// A published asset and its readiness.
#[derive(Debug, Clone, PartialEq, Eq)]
pub struct AssetRecord {
    pub asset_id: String,
    pub asset_kind: String,
    pub content_hash: String,
    pub raw_locator: Option<String>,
    pub normalized_locator: Option<String>,
    pub status: String,
    pub analysis_refs: Vec<String>,
    pub derived_refs: Vec<String>,
    pub tags: Vec<String>,
    pub warm_status: Option<String>,
    pub readiness: Option<String>,
}

/// A file discovered during ingestion.
#[derive(Debug, Clone, PartialEq, Eq)]
pub struct IngestionCandidate {
    pub candidate_id: String,
    pub path: String,
    pub declared_kind: String,
    pub size_bytes: u64,
    pub modified_at: u64,
}

/// Summary of one ingestion run.
#[derive(Debug, Clone, PartialEq, Eq)]
pub struct IngestionRun {
    pub ingestion_run_id: String,
    pub source: String,
    pub mode: String,
    pub status: String,
    pub started_at: u64,
    pub completed_at: u64,
    pub discovered: u32,
    pub published: u32,
    pub reused: u32,
    pub failed: u32,
}

/// An analysis job over an asset.
#[derive(Debug, Clone, PartialEq, Eq)]
pub struct AnalysisJob {
    pub analysis_job_id: String,
    pub asset_id: String,
    pub analyzer: String,
    pub analyzer_version: String,
    pub params_hash: String,
    pub status: String,
    pub cache_key: String,
    pub result_ref: String,
}

/// A cached analysis result.
#[derive(Debug, Clone, PartialEq, Eq)]
pub struct AnalysisCacheEntry {
    pub cache_key: String,
    pub asset_id: String,
    pub analyzer: String,
    pub analyzer_version: String,
    pub input_fingerprint: String,
    pub dependency_fingerprint: String,
    pub created_at: u64,
    pub status: String,
    pub payload_ref: String,
}

/// Technical summary of an audio file.
#[derive(Debug, Clone, PartialEq, Eq)]
pub struct AudioProbeSummary {
    pub container: String,
    pub codec: String,
    pub sample_rate_hz: u32,
    pub channel_count: u16,
    pub bits_per_sample: u16,
    pub frame_count: u64,
    pub duration_ms: u64,
    pub peak_level_dbfs_tenths: i32,
    pub rms_level_dbfs_tenths: i32,
}

/// Beat-tracking analysis of an asset.
#[derive(Debug, Clone, PartialEq, Eq)]
pub struct BeatTrackAnalysis {
    pub asset_id: String,
    pub analyzer: String,
    pub analyzer_version: String,
    pub probe: AudioProbeSummary,
    pub estimated_tempo_bpm: u32,
    pub downbeat_bar: u32,
    pub estimated_bars: u32,
    pub transient_count: u32,
    pub source_size_bytes: u64,
}

/// A detected section of an audio asset.
#[derive(Debug, Clone, PartialEq, Eq)]
pub struct SectionBoundary {
    pub start_bar: u32,
    pub end_bar: u32,
    pub label: String,
    pub confidence: u32,
}

/// Section segmentation analysis of an asset.
#[derive(Debug, Clone, PartialEq, Eq)]
pub struct SectionSegmentationAnalysis {
    pub asset_id: String,
    pub analyzer: String,
    pub analyzer_version: String,
    pub probe: AudioProbeSummary,
    pub sections: Vec<SectionBoundary>,
    pub source_size_bytes: u64,
}

/// Report of an ingestion run.
#[derive(Debug, Clone, PartialEq, Eq)]
pub struct AssetIngestReport {
    pub run: IngestionRun,
    pub candidates: Vec<IngestionCandidate>,
    pub assets: Vec<AssetRecord>,
    pub analysis_jobs: Vec<AnalysisJob>,
    pub analysis_entries: Vec<AnalysisCacheEntry>,
}

/// An inclusive bar span.
#[derive(Debug, Clone, PartialEq)]
pub struct StructureSpan {
    pub start_bar: u32,
    pub end_bar: u32,
}

/// A section of the compiled show structure.
#[derive(Debug, Clone, PartialEq)]
pub struct StructureSection {
    pub section_id: String,
    pub order: usize,
    pub span: StructureSpan,
    pub targets: BTreeMap<String, String>,
    pub locks: BTreeMap<String, String>,
}

/// The compiled show structure.
#[derive(Debug, Clone, PartialEq)]
pub struct StructureIr {
    pub type_: String,
    pub id: String,
    pub show_id: String,
    pub sections: Vec<StructureSection>,
    pub transitions: Vec<BTreeMap<String, String>>,
}

/// A camera/display view.
#[derive(Debug, Clone, PartialEq)]
pub struct VisualView {
    pub view_id: String,
    pub camera_id: String,
    pub display_id: String,
}

/// The bars in which a timeline entry is effective.
#[derive(Debug, Clone, PartialEq, Eq)]
pub struct EffectiveWindow {
    pub from_bar: u32,
    pub to_bar: u32,
}

/// Scheduling hints of a timeline entry.
#[derive(Debug, Clone, PartialEq, Eq)]
pub struct TimelineScheduler {
    pub lookahead_ms: u32,
    pub priority: i32,
    pub conflict_group: String,
}

/// One entry of the compiled timeline.
#[derive(Debug, Clone, PartialEq, Eq)]
pub struct TimelineEntry {
    pub type_: String,
    pub id: String,
    pub show_id: String,
    pub revision: u64,
    pub channel: String,
    pub target_ref: String,
    pub effective_window: EffectiveWindow,
    pub scheduler: TimelineScheduler,
    pub guards: BTreeMap<String, String>,
}

/// The bars and window a live patch applies to.
#[derive(Debug, Clone, PartialEq, Eq)]
pub struct PatchScope {
    pub from_bar: u32,
    pub to_bar: u32,
    pub window: String,
}

/// One change of a live patch.
#[derive(Debug, Clone, PartialEq, Eq)]
pub struct PatchChange {
    pub op: String,
    pub target: String,
    pub from: String,
    pub to: String,
}

/// A proposed live patch.
#[derive(Debug, Clone, PartialEq)]
pub struct LivePatchProposal {
    pub patch_id: String,
    pub submitted_by: Option<String>,
    pub patch_class: String,
    pub base_revision: u64,
    pub scope: PatchScope,
    pub intent: BTreeMap<String, String>,
    pub changes: Vec<PatchChange>,
    pub fallback_revision: u64,
}

/// The recorded outcome of a live patch or rollback.
#[derive(Debug, Clone, PartialEq, Eq)]
pub struct PatchDecision {
    pub patch_id: String,
    pub base_revision: u64,
    pub candidate_revision: u64,
    pub decision: String,
    pub window: String,
    pub scope: PatchScope,
    pub fallback_revision: u64,
    pub reasons: Vec<String>,
}

/// A viewport rectangle.
#[derive(Debug, Clone, PartialEq, Eq)]
pub struct Viewport {
    pub width: u32,
    pub height: u32,
    pub x: u32,
    pub y: u32,
}

/// A view with an optional viewport.
#[derive(Debug, Clone, PartialEq)]
pub struct VisualViewport {
    pub view_id: String,
    pub camera_id: String,
    pub display_id: String,
    pub viewport: Option<Viewport>,
}

/// A visual runtime event.
#[derive(Debug, Clone, PartialEq)]
pub struct VisualEvent {
    pub scene_id: String,
    pub shader_program: String,
    pub output_backend: String,
    pub view_group: Option<String>,
    pub display_topology: Option<String>,
    pub calibration_profile: Option<String>,
    pub uniforms: BTreeMap<String, String>,
    pub views: Vec<VisualViewport>,
    pub duration_beats: Option<u32>,
    pub blend: Option<String>,
}

/// A patch runtime event.
#[derive(Debug, Clone, PartialEq, Eq)]
pub struct PatchEvent {
    pub patch_id: String,
    pub scope: PatchScope,
    pub effective_revision: u64,
    pub fallback_revision: u64,
    pub decision: Option<String>,
    pub reason: Option<String>,
}

/// Runtime event emitted when a backend degradation is detected.
#[derive(Debug, Clone, PartialEq)]
pub struct DegradeEvent {
    pub degrade_id: String,
    pub mode: String,
    pub reason: String,
    pub affected_backends: Vec<String>,
    pub fallback_action: Option<String>,
}

/// A MIDI control change message.
#[derive(Debug, Clone, PartialEq, Eq)]
pub struct MidiCC {
    pub channel: u8,
    pub cc: u8,
    pub value: u8,
}

/// A MIDI note on / off message.
#[derive(Debug, Clone, PartialEq, Eq)]
pub struct MidiNote {
    pub channel: u8,
    pub note: u8,
    pub velocity: u8,
    pub on: bool,
}

/// Binding of an external control source.
#[derive(Debug, Clone, PartialEq, Eq)]
pub struct ControlBinding {
    pub source_id: String,
    pub protocol: String,
}

/// Acknowledgement of an executed payload.
#[derive(Debug, Clone, PartialEq, Eq)]
pub struct BackendAck {
    pub backend: String,
    pub target: String,
    pub status: String,
    pub detail: String,
}

/// Manifest of a trace bundle.
#[derive(Debug, Clone, PartialEq)]
pub struct TraceManifest {
    pub trace_bundle_id: String,
    pub show_id: String,
    pub revision: u64,
    pub run_id: String,
    pub mode: String,
    pub started_at: Option<String>,
    pub completed_at: Option<String>,
    pub status: String,
    pub input_refs: Vec<String>,
    pub event_log_ref: Option<String>,
    pub metrics_ref: Option<String>,
    pub evaluation_ref: Option<String>,
    pub patch_decisions_ref: Option<String>,
    pub resource_samples_ref: Option<String>,
    pub export_ref: Option<String>,
}

/// A scene transition of the show state.
#[derive(Debug, Clone, PartialEq)]
pub struct ShowTransition {
    pub state: String,
    pub from_scene: String,
    pub to_scene: String,
    pub window_open: bool,
}

/// An output binding of the show state.
#[derive(Debug, Clone, PartialEq, Eq)]
pub struct OutputBinding {
    pub backend_id: String,
    pub topology_ref: String,
    pub calibration_profile: String,
    pub active_group: String,
}

/// Patch permissions of the show state.
#[derive(Debug, Clone, PartialEq, Eq)]
pub struct ShowPatchState {
    pub allowed: bool,
    pub scope: String,
    pub locked_sections: Vec<String>,
}

/// An exported artifact.
#[derive(Debug, Clone, PartialEq, Eq)]
pub struct ExportArtifactRecord {
    pub artifact_id: String,
    pub artifact_type: String,
    pub locator: String,
    pub content_hash: String,
    pub derived_from_run_id: String,
    pub revision: u64,
    pub duration_sec: Option<u32>,
}

/// Summary of a run.
#[derive(Debug, Clone, PartialEq, Eq)]
pub struct RunSummary {
    pub show_id: String,
    pub revision: u64,
    pub starting_bar: u32,
    pub final_bar: u32,
    pub event_count: usize,
    pub final_section: String,
}

/// Description of a capability.
#[derive(Debug, Clone, PartialEq, Eq)]
pub struct CapabilityDescriptor {
    pub capability: String,
    pub version: String,
    pub execution_mode: String,
    pub idempotency: String,
    pub authorization: Vec<String>,
    pub description: String,
    pub input_schema: String,
    pub output_schema: String,
    pub target_service: String,
}

/// The actor behind a capability request.
#[derive(Debug, Clone, PartialEq, Eq)]
pub struct ActorContext {
    pub actor_id: String,
    pub role: String,
}

/// Metadata of a capability request.
#[derive(Debug, Clone, PartialEq, Eq)]
pub struct RequestMetadata {
    pub source: String,
    pub trace_parent: Option<String>,
}

#[verifier::external_type_specification]
#[verifier::external_body]
pub struct ExJsonValue(serde_json::Value);

/// A capability invocation request.
#[derive(Debug)]
pub struct CapabilityRequest {
    pub request_id: String,
    pub capability: String,
    pub payload: serde_json::Value,
    pub actor: Option<ActorContext>,
    pub metadata: Option<RequestMetadata>,
}

/// Ticket of an asynchronous operation.
#[derive(Debug, Clone, PartialEq, Eq)]
pub struct OperationTicket {
    pub operation_id: String,
    pub request_id: String,
    pub capability: String,
    pub state: String,
    pub started_at: u64,
    pub updated_at: Option<u64>,
    pub artifact_refs: Vec<String>,
}

/// Health reporting contract of an adapter plugin.
#[derive(Debug, Clone, PartialEq)]
pub struct HealthContract {
    pub reports_ack: bool,
    pub reports_status: bool,
    pub supports_degrade_mode: bool,
}

/// Manifest of an adapter plugin.
#[derive(Debug, Clone, PartialEq)]
pub struct AdapterPluginManifest {
    pub plugin_id: String,
    pub plugin_kind: String,
    pub backend_kind: String,
    pub version: String,
    pub capabilities: Vec<String>,
    pub target_topology_types: Vec<String>,
    pub health_contract: Option<HealthContract>,
    pub status: Option<String>,
}

/// Compatibility constraints of a resource hub.
#[derive(Debug, Clone, PartialEq)]
pub struct HubCompatibility {
    pub runtime: Vec<String>,
    pub backends: Vec<String>,
    pub schema_versions: Vec<String>,
}

/// Descriptor of a resource hub.
#[derive(Debug, Clone, PartialEq)]
pub struct ResourceHubDescriptor {
    pub hub_id: String,
    pub resource_kind: String,
    pub version: String,
    pub locator: String,
    pub provides: Vec<String>,
    pub compatibility: Option<HubCompatibility>,
    pub status: Option<String>,
    pub tags: Vec<String>,
}

/// A node taking part in distributed orchestration.
#[derive(Debug, Clone, PartialEq)]
pub struct DistributedNodeDescriptor {
    pub node_id: String,
    pub node_role: String,
    pub host_ref: Option<String>,
    pub plugin_refs: Vec<String>,
    pub assigned_topologies: Vec<String>,
    pub resource_hub_mounts: Vec<String>,
    pub transport_refs: Vec<String>,
    pub health_endpoint: Option<String>,
    pub status: Option<String>,
}

/// A device deployment, single- or multi-node.
#[derive(Debug, Clone, PartialEq)]
pub struct DeploymentProfile {
    pub deployment_id: String,
    pub mode: String,
    pub node_refs: Vec<String>,
    pub transport_refs: Vec<String>,
    pub time_authority: Option<String>,
    pub resource_prewarm_policy: Option<String>,
    pub rollout_strategy: Option<String>,
    pub failure_policy: Option<String>,
    pub trace_policy: Option<String>,
}

/// Transport between distributed nodes.
#[derive(Debug, Clone, PartialEq)]
pub struct TransportContract {
    pub transport_id: String,
    pub bus_kind: String,
    pub protocol: String,
    pub topology: Option<String>,
    pub ordering: Option<String>,
    pub delivery_guarantee: Option<String>,
    pub latency_budget_ms: Option<u64>,
    pub reconnect_policy: Option<String>,
    pub security_profile: Option<String>,
}

/// A degradation mode that can be applied to a backend.
#[derive(Debug, Clone, PartialEq)]
pub struct DegradeMode {
    pub mode: String,
    pub reason: String,
    pub affected_backends: Vec<String>,
    pub fallback_action: Option<String>,
}

/// What a backend describes of itself.
#[derive(Debug, Clone, PartialEq)]
pub struct BackendDescription {
    pub plugin_id: String,
    pub backend_kind: String,
    pub capabilities: Vec<String>,
    pub topology_types: Vec<String>,
    pub status: String,
}

/// A channel-specific command handed to a backend. Decibel gains and beat
/// lengths travel as the bit patterns of their `f64` values; lighting
/// intensity and colour are levels on the DMX scale (0 to 255).
#[derive(Debug, Clone, PartialEq)]
pub enum ExecutablePayload {
    Audio {
        layer_id: String,
        op: String,
        target_asset_id: Option<String>,
        gain_db_bits: Option<u64>,
        duration_beats: Option<u32>,
        route_set_ref: Option<String>,
        speaker_group: Vec<String>,
    },
    Visual {
        scene_id: String,
        shader_program: String,
        uniforms: BTreeMap<String, String>,
        duration_beats: Option<u32>,
        blend: Option<String>,
        view_group: Option<String>,
    },
    Lighting {
        cue_set_id: String,
        source_ref: String,
        fixture_group: Vec<String>,
        intensity: Option<u8>,
        color: Option<[u8; 3]>,
        fade_beats_bits: Option<u64>,
    },
}

/// Health and status a backend reports; latencies travel as the bit
/// patterns of their `f64` millisecond values.
#[derive(Debug, Clone, PartialEq)]
pub struct BackendStatus {
    pub plugin_id: String,
    pub status: String,
    pub latency_ms_bits: Option<u64>,
    pub error_count: Option<u64>,
    pub last_ack_lag_ms_bits: Option<u64>,
    pub detail: Option<String>,
}

/// A health snapshot of one backend at one time; latencies travel as the
/// bit patterns of their `f64` millisecond values.
#[derive(Debug, Clone, PartialEq)]
pub struct BackendHealthSnapshot {
    pub backend_ref: String,
    pub plugin_ref: String,
    pub status: String,
    pub timestamp: String,
    pub latency_ms_bits: Option<u64>,
    pub error_count: Option<u64>,
    pub last_ack_lag_ms_bits: Option<u64>,
    pub degrade_reason: Option<String>,
}

/// Topology a backend is prepared with.
#[derive(Debug, Clone, PartialEq)]
pub enum BackendTopology {
    Visual {
        topology_ref: String,
        calibration_profile: Option<String>,
        display_endpoints: Vec<String>,
    },
    Audio {
        topology_ref: String,
        calibration_profile: Option<String>,
        speaker_endpoints: Vec<String>,
    },
    Lighting {
        topology_ref: String,
        calibration_profile: Option<String>,
        fixture_endpoints: Vec<String>,
    },
}

/// An authorization rule mapping a role to capabilities.
#[derive(Debug, Clone, PartialEq, Eq)]
pub struct PolicyRule {
    pub role: String,
    pub effect: String,
    pub capabilities: Vec<String>,
    pub patch_classes: Vec<String>,
    pub conditions: BTreeMap<String, String>,
}

/// An authorization policy: rules and a default effect.
#[derive(Debug, Clone, PartialEq, Eq)]
pub struct AuthorizationPolicy {
    pub policy_id: String,
    pub version: String,
    pub default_effect: String,
    pub rules: Vec<PolicyRule>,
}

/// State of a resource handle across a rollback.
#[derive(Debug, Clone, PartialEq, Eq)]
pub enum ResourceHandleState {
    Active,
    Released,
    Warming,
}

/// A resource handle state at rollback time.
#[derive(Debug, Clone, PartialEq)]
pub struct ResourceHandleSnapshot {
    pub resource_id: String,
    pub state: ResourceHandleState,
    pub backend_kind: Option<String>,
}


impl Diagnostic {
    /// Whether this diagnostic has the given code, namespace "validator", the given
    /// severity and message, no target, no details and no suggestion, and is not retryable.
    pub open spec fn is_plain(self, code: Seq<char>, severity: Seq<char>, message: Seq<char>) -> bool {
        &&& self.code@ == code
        &&& self.namespace@ == "validator"@
        &&& self.severity@ == severity
        &&& self.message@ == message
        &&& self.target is None
        &&& !self.retryable
        &&& self.details@ == Map::<String, String>::empty()
        &&& self.suggestion is None
    }

    /// An error diagnostic in the "validator" namespace.
    pub fn error(code: &str, message: &str) -> (d: Self)
        ensures
            d.is_plain(code@, "error"@, message@),
    {
        Diagnostic {
            code: String::from_str(code),
            namespace: String::from_str("validator"),
            severity: String::from_str("error"),
            message: String::from_str(message),
            target: None,
            retryable: false,
            details: BTreeMap::new(),
            suggestion: None,
        }
    }

    /// A warning diagnostic in the "validator" namespace.
    pub fn warning(code: &str, message: &str) -> (d: Self)
        ensures
            d.is_plain(code@, "warning"@, message@),
    {
        Diagnostic {
            code: String::from_str(code),
            namespace: String::from_str("validator"),
            severity: String::from_str("warning"),
            message: String::from_str(message),
            target: None,
            retryable: false,
            details: BTreeMap::new(),
            suggestion: None,
        }
    }
}

impl<T> ResponseEnvelope<T> {
    /// An envelope holding exactly the given parts.
    pub fn new(
        status: &str,
        capability: &str,
        request_id: &str,
        data: T,
        diagnostics: Vec<Diagnostic>,
        artifacts: Vec<String>,
        next_actions: Vec<String>,
    ) -> (e: Self)
        ensures
            e.status@ == status@,
            e.capability@ == capability@,
            e.request_id@ == request_id@,
            e.data == data,
            e.diagnostics == diagnostics,
            e.artifacts == artifacts,
            e.next_actions == next_actions,
    {
        ResponseEnvelope {
            status: String::from_str(status),
            capability: String::from_str(capability),
            request_id: String::from_str(request_id),
            data,
            diagnostics,
            artifacts,
            next_actions,
        }
    }
}

} // verus!
