//! The scsynth audio backend: the adapter lifecycle over the OSC command
//! translator, the acknowledgement collector and the health monitor.
//!
//! Lifecycle: prepared with an audio topology (which configures the scsynth
//! process), payloads are translated into OSC messages queued in an outbox,
//! status is read from the health monitor, and shutting down queues `/quit`.
//! The process itself is started outside the library.

use vstd::prelude::*;
use crate::ir::{BackendAck, BackendDescription, BackendStatus, BackendTopology, DegradeMode, ExecutablePayload};
use crate::osc::{OscMessage, OscValue};
use crate::audio::{CommandTranslator, ScynthConfig, ScynthHealth, ActionStatus, NodeMapping, translation};
use crate::scsynth_monitor::{AckCollector, HealthMonitor, reply_target, with_status};
use crate::adapters::{lifecycle_status, lifecycle_text, string_views};
use crate::text::{decimal, join3, push_decimal, str_eq};

verus! {

/// `2000.0` as the bit pattern of an `f64`: how long an action waits for its acknowledgement.
pub const ACK_TIMEOUT_MS_BITS: u64 = 0x409F_4000_0000_0000u64;

/// `3000.0` as the bit pattern of an `f64`: how long a status poll waits for its reply.
pub const HEALTH_TIMEOUT_MS_BITS: u64 = 0x40A7_7000_0000_0000u64;

/// `2.0` as the bit pattern of an `f64`.
pub const TWO_MS_BITS: u64 = 0x4000_0000_0000_0000u64;

/// `1.0` as the bit pattern of an `f64`.
pub const ONE_MS_BITS: u64 = 0x3FF0_0000_0000_0000u64;

/// The id of the `n`-th executed action.
pub open spec fn action_id_text(n: nat) -> Seq<char> {
    "act-"@ + decimal(n)
}

/// The stock scsynth configuration.
pub open spec fn is_stock_config(c: ScynthConfig) -> bool {
    &&& c.binary_path@ == "scsynth"@
    &&& c.port == 57110
    &&& c.max_nodes == 1024
    &&& c.num_audio_bus_channels == 128
    &&& c.num_control_bus_channels == 4096
    &&& c.block_size == 64
    &&& c.sample_rate == 44100
    &&& c.num_output_channels == 2
    &&& c.num_input_channels == 0
    &&& c.max_restart_attempts == 3
}

/// The status an audio backend reports for its health and lifecycle.
pub open spec fn audio_status_text(health: ScynthHealth, shut_down: bool, degraded: bool) -> Seq<char> {
    match health {
        ScynthHealth::Healthy => if shut_down {
            "shutdown"@
        } else if degraded {
            "degraded"@
        } else {
            "healthy"@
        },
        ScynthHealth::Degraded => "degraded"@,
        ScynthHealth::Offline => "offline"@,
    }
}

/// The scsynth-backed audio backend.
pub struct AudioScynthBackend {
    plugin_id: String,
    prepared: bool,
    shut_down: bool,
    degraded: bool,
    version: String,
    topology_ref: Option<String>,
    execute_count: u64,
    outbox: Vec<OscMessage>,
    ack_collector: AckCollector,
    health_monitor: HealthMonitor,
    translator: CommandTranslator,
    process_config: Option<ScynthConfig>,
}

impl AudioScynthBackend {
    /// The plugin identifier.
    pub closed spec fn id_spec(&self) -> Seq<char> {
        self.plugin_id@
    }

    /// The backend version.
    pub closed spec fn version_spec(&self) -> Seq<char> {
        self.version@
    }

    /// Whether an audio topology was accepted.
    pub closed spec fn prepared_spec(&self) -> bool {
        self.prepared
    }

    /// Whether the backend was shut down.
    pub closed spec fn shut_down_spec(&self) -> bool {
        self.shut_down
    }

    /// Whether new nodes are blocked by a degradation mode.
    pub closed spec fn degraded_spec(&self) -> bool {
        self.degraded
    }

    /// The topology the backend was prepared with.
    pub closed spec fn topology_spec(&self) -> Option<Seq<char>> {
        match self.topology_ref {
            Some(t) => Some(t@),
            None => None,
        }
    }

    /// Number of payloads executed.
    pub closed spec fn count_spec(&self) -> u64 {
        self.execute_count
    }

    /// The OSC messages waiting to be sent, oldest first.
    pub closed spec fn outbox_spec(&self) -> Seq<OscMessage> {
        self.outbox@
    }

    /// The acknowledgement collector.
    pub closed spec fn acks_spec(&self) -> AckCollector {
        self.ack_collector
    }

    /// The health monitor.
    pub closed spec fn monitor_spec(&self) -> HealthMonitor {
        self.health_monitor
    }

    /// The node and buffer bookkeeping of the translator.
    pub closed spec fn mapping_spec(&self) -> NodeMapping {
        self.translator.mapping_spec()
    }

    /// The configuration of the scsynth process, once prepared.
    pub closed spec fn process_spec(&self) -> Option<ScynthConfig> {
        self.process_config
    }

    /// The collector and translator are well formed.
    pub closed spec fn wf(&self) -> bool {
        &&& self.ack_collector.wf()
        &&& self.translator.wf()
    }

    /// A fresh, unprepared backend: nothing executed or queued, a collector
    /// with a two-second timeout and a monitor with a three-second one.
    pub fn new(plugin_id: &str, version: &str) -> (b: Self)
        ensures
            b.wf(),
            b.id_spec() == plugin_id@,
            b.version_spec() == version@,
            !b.prepared_spec(),
            !b.shut_down_spec(),
            !b.degraded_spec(),
            b.topology_spec() is None,
            b.count_spec() == 0,
            b.outbox_spec() == Seq::<OscMessage>::empty(),
            b.acks_spec().actions_spec() == Map::<Seq<char>, (i32, ActionStatus, u64)>::empty(),
            b.acks_spec().nodes_spec() == Map::<i32, Seq<char>>::empty(),
            b.acks_spec().timeout_spec() == ACK_TIMEOUT_MS_BITS,
            b.monitor_spec().health_spec() == ScynthHealth::Healthy,
            !b.monitor_spec().in_flight_spec(),
            b.monitor_spec().timeout_spec() == HEALTH_TIMEOUT_MS_BITS,
            b.mapping_spec().nodes_spec() == Map::<Seq<char>, i32>::empty(),
            b.mapping_spec().buffers_spec() == Map::<i32, i32>::empty(),
            b.mapping_spec().next_node_spec() == 1000,
            b.mapping_spec().next_buffer_spec() == 0,
            b.process_spec() is None,
    {
        AudioScynthBackend {
            plugin_id: String::from_str(plugin_id),
            prepared: false,
            shut_down: false,
            degraded: false,
            version: String::from_str(version),
            topology_ref: None,
            execute_count: 0,
            outbox: Vec::new(),
            ack_collector: AckCollector::new(ACK_TIMEOUT_MS_BITS),
            health_monitor: HealthMonitor::new(HEALTH_TIMEOUT_MS_BITS),
            translator: CommandTranslator::new(),
            process_config: None,
        }
    }

    /// Hands out the queued messages, oldest first, and empties the outbox.
    pub fn drain_outbox(&mut self) -> (out: Vec<OscMessage>)
        ensures
            out@ == old(self).outbox_spec(),
            final(self).outbox_spec() == Seq::<OscMessage>::empty(),
            final(self).id_spec() == old(self).id_spec(),
            final(self).prepared_spec() == old(self).prepared_spec(),
            final(self).shut_down_spec() == old(self).shut_down_spec(),
            final(self).degraded_spec() == old(self).degraded_spec(),
            final(self).count_spec() == old(self).count_spec(),
            final(self).acks_spec() == old(self).acks_spec(),
            final(self).monitor_spec() == old(self).monitor_spec(),
            final(self).mapping_spec() == old(self).mapping_spec(),
            final(self).wf() == old(self).wf(),
    {
        let mut out: Vec<OscMessage> = Vec::new();
        std::mem::swap(&mut out, &mut self.outbox);
        out
    }

    /// Feeds a reply from scsynth to the acknowledgement collector and to
    /// the health monitor, which takes it at `now_ms_bits`.
    pub fn process_reply(&mut self, msg: &OscMessage, now_ms_bits: u64)
        requires
            old(self).wf(),
        ensures
            final(self).wf(),
            final(self).acks_spec().nodes_spec() == old(self).acks_spec().nodes_spec(),
            final(self).acks_spec().timeout_spec() == old(self).acks_spec().timeout_spec(),
            final(self).acks_spec().actions_spec() == match reply_target(old(self).acks_spec().nodes_spec(), *msg) {
                Some((k, st)) => with_status(old(self).acks_spec().actions_spec(), k, st),
                None => old(self).acks_spec().actions_spec(),
            },
            msg.address@ == "/status.reply"@ ==> {
                &&& final(self).monitor_spec().health_spec() == ScynthHealth::Healthy
                &&& !final(self).monitor_spec().in_flight_spec()
                &&& final(self).monitor_spec().last_reply_spec() == now_ms_bits
                &&& final(self).monitor_spec().last_poll_spec() == old(self).monitor_spec().last_poll_spec()
                &&& final(self).monitor_spec().timeout_spec() == old(self).monitor_spec().timeout_spec()
            },
            msg.address@ != "/status.reply"@ ==> final(self).monitor_spec() == old(self).monitor_spec(),
            final(self).id_spec() == old(self).id_spec(),
            final(self).prepared_spec() == old(self).prepared_spec(),
            final(self).shut_down_spec() == old(self).shut_down_spec(),
            final(self).degraded_spec() == old(self).degraded_spec(),
            final(self).count_spec() == old(self).count_spec(),
            final(self).outbox_spec() == old(self).outbox_spec(),
            final(self).mapping_spec() == old(self).mapping_spec(),
    {
        let _ = self.ack_collector.process_reply(msg);
        let _ = self.health_monitor.process_reply(msg, now_ms_bits);
    }

    /// Number of payloads executed.
    pub fn execute_count(&self) -> (n: u64)
        ensures
            n == self.count_spec(),
    {
        self.execute_count
    }

    /// Whether one more audio payload stays within the counters' ranges:
    /// the payload count, the next node id and the next buffer number.
    pub fn within_limits(&self) -> (b: bool)
        ensures
            b == {
                &&& self.count_spec() <= u64::MAX - 1001
                &&& self.mapping_spec().next_node_spec() < i32::MAX
                &&& self.mapping_spec().next_buffer_spec() < i32::MAX
            },
    {
        let m = self.translator.mapping();
        self.execute_count <= u64::MAX - 1001 && m.next_node_id() < i32::MAX && m.next_buffer_num() < i32::MAX
    }

    /// Kind, capabilities, topology types and lifecycle status.
    pub fn describe_backend(&self) -> (d: BackendDescription)
        ensures
            d.plugin_id@ == self.id_spec(),
            d.backend_kind@ == "audio"@,
            string_views(d.capabilities@) == seq!["asset_playback"@, "synth_render"@, "stop"@, "crossfade"@],
            string_views(d.topology_types@) == seq!["stereo"@, "spatial_speaker_matrix"@],
            d.status@ == lifecycle_text(self.shut_down_spec(), self.prepared_spec()),
    {
        let capabilities = vec![
            String::from_str("asset_playback"),
            String::from_str("synth_render"),
            String::from_str("stop"),
            String::from_str("crossfade"),
        ];
        let topology_types = vec![String::from_str("stereo"), String::from_str("spatial_speaker_matrix")];
        proof {
            assert(string_views(capabilities@) =~= seq!["asset_playback"@, "synth_render"@, "stop"@, "crossfade"@]);
            assert(string_views(topology_types@) =~= seq!["stereo"@, "spatial_speaker_matrix"@]);
        }
        BackendDescription {
            plugin_id: self.plugin_id.clone(),
            backend_kind: String::from_str("audio"),
            capabilities,
            topology_types,
            status: lifecycle_status(self.shut_down, self.prepared),
        }
    }

    /// Accepts an audio topology: records its reference and configures the
    /// scsynth process with the stock configuration. Refuses any other
    /// topology, and any once shut down.
    pub fn prepare_backend(&mut self, topology: &BackendTopology) -> (r: Result<(), String>)
        requires
            old(self).wf(),
        ensures
            final(self).wf(),
            final(self).id_spec() == old(self).id_spec(),
            final(self).shut_down_spec() == old(self).shut_down_spec(),
            final(self).degraded_spec() == old(self).degraded_spec(),
            final(self).count_spec() == old(self).count_spec(),
            final(self).outbox_spec() == old(self).outbox_spec(),
            final(self).acks_spec() == old(self).acks_spec(),
            final(self).monitor_spec() == old(self).monitor_spec(),
            final(self).mapping_spec() == old(self).mapping_spec(),
            old(self).shut_down_spec() ==> (r matches Err(e) && e@ == "SCSYNTH-001: backend already shut down"@
                && final(self).prepared_spec() == old(self).prepared_spec()
                && final(self).topology_spec() == old(self).topology_spec()
                && final(self).process_spec() == old(self).process_spec()),
            !old(self).shut_down_spec() && topology is Audio ==> {
                &&& r is Ok
                &&& final(self).prepared_spec()
                &&& final(self).topology_spec() == Some(topology->Audio_topology_ref@)
                &&& final(self).process_spec() matches Some(c) && is_stock_config(c)
            },
            !old(self).shut_down_spec() && !(topology is Audio) ==> (r matches Err(e)
                && e@ == "SCSYNTH-002: expected Audio topology"@
                && final(self).prepared_spec() == old(self).prepared_spec()
                && final(self).topology_spec() == old(self).topology_spec()
                && final(self).process_spec() == old(self).process_spec()),
    {
        if self.shut_down {
            return Err(String::from_str("SCSYNTH-001: backend already shut down"));
        }
        match topology {
            BackendTopology::Audio { topology_ref, .. } => {
                self.topology_ref = Some(topology_ref.clone());
                self.process_config = Some(ScynthConfig::default());
                self.prepared = true;
                Ok(())
            },
            _ => Err(String::from_str("SCSYNTH-002: expected Audio topology")),
        }
    }

    /// Accepts a show state unless shut down; nothing else changes.
    pub fn apply_show_state(&mut self) -> (r: Result<(), String>)
        ensures
            *final(self) == *old(self),
            old(self).shut_down_spec() ==> (r matches Err(e) && e@ == "SCSYNTH-003: backend already shut down"@),
            !old(self).shut_down_spec() ==> r is Ok,
    {
        if self.shut_down {
            return Err(String::from_str("SCSYNTH-003: backend already shut down"));
        }
        Ok(())
    }

    /// Executes an audio payload: it becomes action `act-N` (N counting
    /// executed payloads), is translated into OSC messages that join the
    /// outbox, and is registered as pending with node `1000 + N`, sent at
    /// time zero. `amp_bits` is the linear amplitude of the payload's gain,
    /// as the bits of an `f32`, when it has one. Refuses any other payload,
    /// any once shut down, and any while degraded.
    pub fn execute_payload(&mut self, payload: &ExecutablePayload, amp_bits: Option<u32>) -> (r: Result<BackendAck, String>)
        requires
            old(self).wf(),
            !old(self).shut_down_spec() && !old(self).degraded_spec() && payload is Audio ==> {
                &&& old(self).count_spec() <= u64::MAX - 1001
                &&& old(self).mapping_spec().next_node_spec() < i32::MAX
                &&& old(self).mapping_spec().next_buffer_spec() < i32::MAX
            },
        ensures
            final(self).wf(),
            final(self).id_spec() == old(self).id_spec(),
            final(self).prepared_spec() == old(self).prepared_spec(),
            final(self).shut_down_spec() == old(self).shut_down_spec(),
            final(self).degraded_spec() == old(self).degraded_spec(),
            final(self).monitor_spec() == old(self).monitor_spec(),
            final(self).acks_spec().timeout_spec() == old(self).acks_spec().timeout_spec(),
            old(self).shut_down_spec() ==> (r matches Err(e) && e@ == "SCSYNTH-004: backend already shut down"@),
            !old(self).shut_down_spec() && old(self).degraded_spec() ==> (r matches Err(e)
                && e@ == "SCSYNTH-007: backend is degraded, new nodes blocked"@),
            !old(self).shut_down_spec() && !old(self).degraded_spec() && !(payload is Audio) ==> (r matches Err(e)
                && e@ == "SCSYNTH-005: expected Audio payload"@),
            r is Err ==> {
                &&& final(self).count_spec() == old(self).count_spec()
                &&& final(self).outbox_spec() == old(self).outbox_spec()
                &&& final(self).acks_spec() == old(self).acks_spec()
                &&& final(self).mapping_spec() == old(self).mapping_spec()
            },
            !old(self).shut_down_spec() && !old(self).degraded_spec() && payload is Audio ==> {
                let n = (old(self).count_spec() + 1) as u64;
                let id = action_id_text(n as nat);
                let old_len = old(self).outbox_spec().len();
                let asset = match payload->Audio_target_asset_id {
                    Some(a) => a@,
                    None => "none"@,
                };
                &&& r matches Ok(ack) && ack.backend@ == old(self).id_spec()
                    && ack.target@ == payload->Audio_layer_id@
                    && ack.status@ == "ok"@
                    && ack.detail@ == payload->Audio_op@ + " "@ + asset
                &&& final(self).count_spec() == n
                &&& final(self).outbox_spec().take(old_len as int) == old(self).outbox_spec()
                &&& translation(
                    old(self).mapping_spec(),
                    final(self).mapping_spec(),
                    id,
                    payload->Audio_op@,
                    match payload->Audio_target_asset_id { Some(a) => Some(a@), None => None::<Seq<char>> },
                    amp_bits,
                    final(self).outbox_spec().skip(old_len as int),
                )
                &&& final(self).acks_spec().actions_spec() == old(self).acks_spec().actions_spec().insert(
                    id,
                    ((1000 + n) as i32, ActionStatus::Pending, 0u64),
                )
                &&& final(self).acks_spec().nodes_spec() == old(self).acks_spec().nodes_spec().insert((1000 + n) as i32, id)
            },
    {
        if self.shut_down {
            return Err(String::from_str("SCSYNTH-004: backend already shut down"));
        }
        if self.degraded {
            return Err(String::from_str("SCSYNTH-007: backend is degraded, new nodes blocked"));
        }
        match payload {
            ExecutablePayload::Audio { layer_id, op, target_asset_id, duration_beats, .. } => {
                self.execute_count = self.execute_count + 1;
                let mut action_id = String::from_str("act-");
                push_decimal(&mut action_id, self.execute_count);
                proof {
                    reveal_strlit("act-");
                }
                let target: Option<&str> = match target_asset_id {
                    Some(t) => Some(t.as_str()),
                    None => None,
                };
                let asset: &str = match target_asset_id {
                    Some(t) => t.as_str(),
                    None => "none",
                };
                let cmds = self.translator.translate(action_id.as_str(), op.as_str(), target, amp_bits, *duration_beats);
                let node_id = (1000 + self.execute_count) as i32;
                self.ack_collector.register(action_id.as_str(), node_id, 0);
                let ghost before = self.outbox@;
                let mut messages = cmds.messages;
                let ghost added = messages@;
                self.outbox.append(&mut messages);
                proof {
                    assert(self.outbox@ == before + added);
                    assert(self.outbox@.take(before.len() as int) =~= before);
                    assert(self.outbox@.skip(before.len() as int) =~= added);
                }
                Ok(BackendAck {
                    backend: self.plugin_id.clone(),
                    target: layer_id.clone(),
                    status: String::from_str("ok"),
                    detail: join3(op.as_str(), " ", asset),
                })
            },
            _ => Err(String::from_str("SCSYNTH-005: expected Audio payload")),
        }
    }

    /// Current status: health and lifecycle, a fixed two-millisecond
    /// latency and one-millisecond acknowledgement lag, no errors, and a
    /// note while degraded.
    pub fn collect_backend_status(&self) -> (s: BackendStatus)
        ensures
            s.plugin_id@ == self.id_spec(),
            s.status@ == audio_status_text(self.monitor_spec().health_spec(), self.shut_down_spec(), self.degraded_spec()),
            s.latency_ms_bits == Some(TWO_MS_BITS),
            s.error_count == Some(0u64),
            s.last_ack_lag_ms_bits == Some(ONE_MS_BITS),
            self.degraded_spec() ==> (s.detail matches Some(d) && d@ == "degraded: no new nodes"@),
            !self.degraded_spec() ==> s.detail is None,
    {
        let status = match self.health_monitor.health() {
            ScynthHealth::Healthy => if self.shut_down {
                String::from_str("shutdown")
            } else if self.degraded {
                String::from_str("degraded")
            } else {
                String::from_str("healthy")
            },
            ScynthHealth::Degraded => String::from_str("degraded"),
            ScynthHealth::Offline => String::from_str("offline"),
        };
        BackendStatus {
            plugin_id: self.plugin_id.clone(),
            status,
            latency_ms_bits: Some(TWO_MS_BITS),
            error_count: Some(0),
            last_ack_lag_ms_bits: Some(ONE_MS_BITS),
            detail: if self.degraded { Some(String::from_str("degraded: no new nodes")) } else { None },
        }
    }

    /// Blocks new nodes under any mode but "normal", and lifts the block
    /// under "normal"; refused once shut down.
    pub fn apply_degrade_mode(&mut self, mode: &DegradeMode) -> (r: Result<(), String>)
        ensures
            final(self).id_spec() == old(self).id_spec(),
            final(self).prepared_spec() == old(self).prepared_spec(),
            final(self).shut_down_spec() == old(self).shut_down_spec(),
            final(self).count_spec() == old(self).count_spec(),
            final(self).outbox_spec() == old(self).outbox_spec(),
            final(self).acks_spec() == old(self).acks_spec(),
            final(self).monitor_spec() == old(self).monitor_spec(),
            final(self).mapping_spec() == old(self).mapping_spec(),
            final(self).wf() == old(self).wf(),
            old(self).shut_down_spec() ==> (r matches Err(e) && e@ == "SCSYNTH-006: backend already shut down"@
                && final(self).degraded_spec() == old(self).degraded_spec()),
            !old(self).shut_down_spec() ==> r is Ok && final(self).degraded_spec() == (mode.mode@ != "normal"@),
    {
        if self.shut_down {
            return Err(String::from_str("SCSYNTH-006: backend already shut down"));
        }
        self.degraded = !str_eq(mode.mode.as_str(), "normal");
        Ok(())
    }

    /// Queues `/quit` for scsynth, drops the process configuration and
    /// shuts the backend down; later commands are refused.
    pub fn shutdown_backend(&mut self) -> (r: Result<(), String>)
        ensures
            r is Ok,
            final(self).shut_down_spec(),
            !final(self).prepared_spec(),
            final(self).process_spec() is None,
            final(self).outbox_spec().len() == old(self).outbox_spec().len() + 1,
            final(self).outbox_spec().drop_last() == old(self).outbox_spec(),
            final(self).outbox_spec().last().parts() == ("/quit"@, Seq::<OscValue>::empty()),
            final(self).id_spec() == old(self).id_spec(),
            final(self).degraded_spec() == old(self).degraded_spec(),
            final(self).count_spec() == old(self).count_spec(),
            final(self).acks_spec() == old(self).acks_spec(),
            final(self).monitor_spec() == old(self).monitor_spec(),
            final(self).mapping_spec() == old(self).mapping_spec(),
            final(self).wf() == old(self).wf(),
    {
        let quit = OscMessage::new("/quit", Vec::new());
        proof {
            assert(crate::osc::values_of(quit.args@) =~= Seq::<OscValue>::empty());
        }
        self.outbox.push(quit);
        proof {
            assert(self.outbox@.drop_last() =~= old(self).outbox_spec());
        }
        self.shut_down = true;
        self.prepared = false;
        self.process_config = None;
        Ok(())
    }
}

} // verus!
