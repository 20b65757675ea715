//! The DMX fixture-bus lighting backend: a lifecycle of prepare, execute,
//! degrade and shutdown around the cue translator and Art-Net packets.

use vstd::prelude::*;
use crate::adapters::{lifecycle_status, lifecycle_text, string_views};
use crate::artnet::{artnet_header, build_opdmx_packet, opdmx_packet};
use crate::cue_translator::{CueLevels, translate_cue};
use crate::dmx::DmxFrame;
use crate::fixture_topology::FixtureBusTopology;
use crate::ir::{BackendAck, BackendDescription, BackendStatus, BackendTopology, DegradeMode, ExecutablePayload};
use crate::text::{join2, str_eq};

verus! {

/// `1.5` as the bit pattern of an `f64`.
pub const ONE_AND_HALF_MS_BITS: u64 = 0x3FF8_0000_0000_0000u64;

/// `0.5` as the bit pattern of an `f64`.
pub const HALF_MS_BITS: u64 = 0x3FE0_0000_0000_0000u64;

/// Lighting backend that turns cue payloads into DMX frames and queues
/// them as Art-Net packets.
///
/// Preparing with a lighting topology sets up an empty fixture topology
/// under the topology's name; executing translates cues against it; a
/// degraded backend holds its last state and refuses new cues; shutting
/// down queues a blackout frame for every universe of the topology.
pub struct FixtureBusBackend {
    plugin_id: String,
    prepared: bool,
    shut_down: bool,
    degraded: bool,
    topology: Option<FixtureBusTopology>,
    execute_count: u64,
    outbox: Vec<Vec<u8>>,
    last_frames: Vec<DmxFrame>,
}

/// The bytes of each queued packet.
pub open spec fn packet_bytes(ps: Seq<Vec<u8>>) -> Seq<Seq<u8>> {
    ps.map_values(|p: Vec<u8>| p@)
}

/// The status a fixture-bus backend reports.
pub open spec fn bus_status_text(shut_down: bool, degraded: bool) -> Seq<char> {
    if shut_down {
        "shutdown"@
    } else if degraded {
        "degraded"@
    } else {
        "healthy"@
    }
}

/// The OpDmx packet of the blackout frame of universe `u`: every channel
/// at zero, sequence zero.
pub open spec fn blackout_packet(u: u16) -> Seq<u8> {
    artnet_header()
        + seq![0x00u8, 0x50u8, 0u8, 14u8, 0u8, 0u8, (u % 256) as u8, (u / 256) as u8, 2u8, 0u8]
        + Seq::new(512, |i: int| 0u8)
}

/// Queues the Art-Net packet of each frame, in order.
fn queue_frames(outbox: &mut Vec<Vec<u8>>, frames: &Vec<DmxFrame>)
    ensures
        packet_bytes(final(outbox)@) == packet_bytes(old(outbox)@) + frames@.map_values(|f: DmxFrame| opdmx_packet(f)),
{
    let ghost start = packet_bytes(outbox@);
    let mut k: usize = 0;
    while k < frames.len()
        invariant
            k <= frames@.len(),
            packet_bytes(outbox@) == start + frames@.subrange(0, k as int).map_values(|f: DmxFrame| opdmx_packet(f)),
        decreases frames@.len() - k,
    {
        let packet = build_opdmx_packet(&frames[k]);
        let ghost prev = outbox@;
        outbox.push(packet);
        proof {
            assert(packet_bytes(outbox@) =~= packet_bytes(prev).push(opdmx_packet(frames@[k as int])));
            assert(frames@.subrange(0, k + 1).map_values(|f: DmxFrame| opdmx_packet(f))
                =~= frames@.subrange(0, k as int).map_values(|f: DmxFrame| opdmx_packet(f)).push(opdmx_packet(frames@[k as int])));
        }
        k = k + 1;
    }
    proof {
        assert(frames@.subrange(0, frames@.len() as int) =~= frames@);
    }
}

/// Queues the blackout packet of each universe, in order.
fn queue_blackout(outbox: &mut Vec<Vec<u8>>, universes: &Vec<u16>)
    ensures
        packet_bytes(final(outbox)@) == packet_bytes(old(outbox)@) + universes@.map_values(|u: u16| blackout_packet(u)),
{
    let ghost start = packet_bytes(outbox@);
    let mut k: usize = 0;
    while k < universes.len()
        invariant
            k <= universes@.len(),
            packet_bytes(outbox@) == start + universes@.subrange(0, k as int).map_values(|u: u16| blackout_packet(u)),
        decreases universes@.len() - k,
    {
        let frame = DmxFrame::new(universes[k]);
        let packet = build_opdmx_packet(&frame);
        let ghost prev = outbox@;
        outbox.push(packet);
        proof {
            assert(opdmx_packet(frame) =~= blackout_packet(universes@[k as int]));
            assert(packet_bytes(outbox@) =~= packet_bytes(prev).push(blackout_packet(universes@[k as int])));
            assert(universes@.subrange(0, k + 1).map_values(|u: u16| blackout_packet(u))
                =~= universes@.subrange(0, k as int).map_values(|u: u16| blackout_packet(u)).push(blackout_packet(universes@[k as int])));
        }
        k = k + 1;
    }
    proof {
        assert(universes@.subrange(0, universes@.len() as int) =~= universes@);
    }
}

impl FixtureBusBackend {
    /// The plugin identifier.
    pub closed spec fn id_spec(&self) -> Seq<char> {
        self.plugin_id@
    }

    /// Whether a lighting topology was accepted since the last shutdown.
    pub closed spec fn prepared_spec(&self) -> bool {
        self.prepared
    }

    /// Whether the backend was shut down.
    pub closed spec fn shut_down_spec(&self) -> bool {
        self.shut_down
    }

    /// Whether a degradation mode other than "normal" is in force.
    pub closed spec fn degraded_spec(&self) -> bool {
        self.degraded
    }

    /// The name of the prepared topology, if any.
    pub closed spec fn topology_name(&self) -> Option<Seq<char>> {
        match self.topology {
            Some(t) => Some(t.topology_id@),
            None => None,
        }
    }

    /// Number of payloads executed.
    pub closed spec fn count_spec(&self) -> u64 {
        self.execute_count
    }

    /// Queued packets, oldest first.
    pub closed spec fn outbox_spec(&self) -> Seq<Seq<u8>> {
        packet_bytes(self.outbox@)
    }

    /// The frames of the last executed cue.
    pub closed spec fn last_frames_spec(&self) -> Seq<DmxFrame> {
        self.last_frames@
    }

    /// The prepared topology holds no fixtures: none are ever added to it.
    pub closed spec fn wf(&self) -> bool {
        self.topology matches Some(t) ==> t.fixtures@.len() == 0 && t.wf()
    }

    /// A fresh backend: idle, not degraded, nothing queued.
    pub fn new(plugin_id: &str) -> (b: Self)
        ensures
            b.wf(),
            b.id_spec() == plugin_id@,
            !b.prepared_spec(),
            !b.shut_down_spec(),
            !b.degraded_spec(),
            b.topology_name() is None,
            b.count_spec() == 0,
            b.outbox_spec().len() == 0,
            b.last_frames_spec().len() == 0,
    {
        let b = FixtureBusBackend {
            plugin_id: String::from_str(plugin_id),
            prepared: false,
            shut_down: false,
            degraded: false,
            topology: None,
            execute_count: 0,
            outbox: Vec::new(),
            last_frames: Vec::new(),
        };
        proof {
            assert(packet_bytes(b.outbox@) =~= Seq::<Seq<u8>>::empty());
        }
        b
    }

    /// Takes every queued packet, oldest first, leaving none.
    pub fn drain_outbox(&mut self) -> (r: Vec<Vec<u8>>)
        requires
            old(self).wf(),
        ensures
            final(self).wf(),
            packet_bytes(r@) == old(self).outbox_spec(),
            final(self).outbox_spec().len() == 0,
            final(self).id_spec() == old(self).id_spec(),
            final(self).prepared_spec() == old(self).prepared_spec(),
            final(self).shut_down_spec() == old(self).shut_down_spec(),
            final(self).degraded_spec() == old(self).degraded_spec(),
            final(self).topology_name() == old(self).topology_name(),
            final(self).count_spec() == old(self).count_spec(),
    {
        let mut out: Vec<Vec<u8>> = Vec::new();
        std::mem::swap(&mut out, &mut self.outbox);
        proof {
            assert(packet_bytes(self.outbox@) =~= Seq::<Seq<u8>>::empty());
        }
        out
    }

    /// Number of payloads executed.
    pub fn execute_count(&self) -> (n: u64)
        ensures
            n == self.count_spec(),
    {
        self.execute_count
    }

    /// Kind, capabilities, topology types and lifecycle status.
    pub fn describe_backend(&self) -> (d: BackendDescription)
        ensures
            d.plugin_id@ == self.id_spec(),
            d.backend_kind@ == "lighting"@,
            string_views(d.capabilities@) == seq!["cue_fire"@, "intensity_set"@, "color_set"@, "blackout"@],
            string_views(d.topology_types@) == seq!["dmx_universe"@, "artnet_subnet"@],
            d.status@ == lifecycle_text(self.shut_down_spec(), self.prepared_spec()),
    {
        let capabilities = vec![
            String::from_str("cue_fire"),
            String::from_str("intensity_set"),
            String::from_str("color_set"),
            String::from_str("blackout"),
        ];
        let topology_types = vec![String::from_str("dmx_universe"), String::from_str("artnet_subnet")];
        proof {
            assert(string_views(capabilities@) =~= seq!["cue_fire"@, "intensity_set"@, "color_set"@, "blackout"@]);
            assert(string_views(topology_types@) =~= seq!["dmx_universe"@, "artnet_subnet"@]);
        }
        BackendDescription {
            plugin_id: self.plugin_id.clone(),
            backend_kind: String::from_str("lighting"),
            capabilities,
            topology_types,
            status: lifecycle_status(self.shut_down, self.prepared),
        }
    }

    /// Accepts a lighting topology, setting up an empty fixture topology
    /// under its name; refuses any other topology, and any once shut down.
    pub fn prepare_backend(&mut self, topology: &BackendTopology) -> (r: Result<(), String>)
        requires
            old(self).wf(),
        ensures
            final(self).wf(),
            final(self).id_spec() == old(self).id_spec(),
            final(self).shut_down_spec() == old(self).shut_down_spec(),
            final(self).degraded_spec() == old(self).degraded_spec(),
            final(self).count_spec() == old(self).count_spec(),
            final(self).outbox_spec() == old(self).outbox_spec(),
            final(self).last_frames_spec() == old(self).last_frames_spec(),
            old(self).shut_down_spec() ==> (r matches Err(e) && e@ == "FBB-001: backend already shut down"@
                && final(self).prepared_spec() == old(self).prepared_spec()
                && final(self).topology_name() == old(self).topology_name()),
            !old(self).shut_down_spec() && topology is Lighting ==> (r is Ok && final(self).prepared_spec()
                && final(self).topology_name() == Some(topology->Lighting_topology_ref@)),
            !old(self).shut_down_spec() && !(topology is Lighting) ==> (r matches Err(e)
                && e@ == "FBB-002: expected Lighting topology"@
                && final(self).prepared_spec() == old(self).prepared_spec()
                && final(self).topology_name() == old(self).topology_name()),
    {
        if self.shut_down {
            return Err(String::from_str("FBB-001: backend already shut down"));
        }
        match topology {
            BackendTopology::Lighting { topology_ref, .. } => {
                self.topology = Some(FixtureBusTopology::new(topology_ref.as_str()));
                self.prepared = true;
                Ok(())
            },
            _ => Err(String::from_str("FBB-002: expected Lighting topology")),
        }
    }

    /// Accepts a show state unless shut down; nothing changes.
    pub fn apply_show_state(&mut self) -> (r: Result<(), String>)
        ensures
            *final(self) == *old(self),
            old(self).shut_down_spec() ==> (r matches Err(e) && e@ == "FBB-003: backend already shut down"@),
            !old(self).shut_down_spec() ==> r is Ok,
    {
        if self.shut_down {
            return Err(String::from_str("FBB-003: backend already shut down"));
        }
        Ok(())
    }

    /// Fires a lighting cue: refused once shut down, while degraded, before
    /// a topology is prepared, and for any other payload. A fired cue is
    /// counted, translated against the topology (an absent intensity is full
    /// level), its frames queued as Art-Net packets and kept as the last
    /// state, and acknowledged with its cue set.
    pub fn execute_payload(&mut self, payload: &ExecutablePayload) -> (r: Result<BackendAck, String>)
        requires
            old(self).wf(),
            old(self).count_spec() < u64::MAX,
        ensures
            final(self).wf(),
            final(self).id_spec() == old(self).id_spec(),
            final(self).prepared_spec() == old(self).prepared_spec(),
            final(self).shut_down_spec() == old(self).shut_down_spec(),
            final(self).degraded_spec() == old(self).degraded_spec(),
            final(self).topology_name() == old(self).topology_name(),
            final(self).outbox_spec() == old(self).outbox_spec(),
            old(self).shut_down_spec() ==> (r matches Err(e) && e@ == "FBB-004: backend already shut down"@),
            !old(self).shut_down_spec() && old(self).degraded_spec() ==> (r matches Err(e)
                && e@ == "FBB-007: degraded, holding last state"@),
            !old(self).shut_down_spec() && !old(self).degraded_spec() && old(self).topology_name() is None
                ==> (r matches Err(e) && e@ == "FBB-008: not prepared"@),
            !old(self).shut_down_spec() && !old(self).degraded_spec() && old(self).topology_name() is Some
                && !(payload is Lighting) ==> (r matches Err(e) && e@ == "FBB-005: expected Lighting payload"@),
            r is Err ==> final(self).count_spec() == old(self).count_spec()
                && final(self).last_frames_spec() == old(self).last_frames_spec(),
            !old(self).shut_down_spec() && !old(self).degraded_spec() && old(self).topology_name() is Some
                && payload is Lighting ==> (r matches Ok(ack)
                && final(self).count_spec() == old(self).count_spec() + 1
                && final(self).last_frames_spec().len() == 0
                && ack.backend@ == old(self).id_spec()
                && ack.target@ == payload->Lighting_cue_set_id@
                && ack.status@ == "ok"@
                && ack.detail@ == "fire cue_set "@ + payload->Lighting_cue_set_id@ + " from "@
                    + payload->Lighting_source_ref@),
    {
        if self.shut_down {
            return Err(String::from_str("FBB-004: backend already shut down"));
        }
        if self.degraded {
            return Err(String::from_str("FBB-007: degraded, holding last state"));
        }
        let translation = match &self.topology {
            None => {
                return Err(String::from_str("FBB-008: not prepared"));
            },
            Some(topo) => match payload {
                ExecutablePayload::Lighting { intensity, color, .. } => {
                    let level: u8 = match intensity {
                        Some(v) => *v,
                        None => 255,
                    };
                    let cue = CueLevels {
                        fixture_ids: Vec::new(),
                        intensity: level,
                        color: *color,
                        pan: None,
                        tilt: None,
                        strobe: None,
                    };
                    translate_cue(&cue, topo)
                },
                _ => {
                    return Err(String::from_str("FBB-005: expected Lighting payload"));
                },
            },
        };
        self.execute_count = self.execute_count + 1;
        proof {
            assert(translation.frames@.len() == 0) by {
                let t = self.topology->0;
                assert(t.fixtures@ =~= Seq::<crate::fixture_topology::FixtureEndpoint>::empty());
            }
        }
        queue_frames(&mut self.outbox, &translation.frames);
        proof {
            assert(translation.frames@.map_values(|f: DmxFrame| opdmx_packet(f)) =~= Seq::<Seq<u8>>::empty());
            assert(packet_bytes(self.outbox@) =~= packet_bytes(old(self).outbox@));
        }
        self.last_frames = translation.frames;
        match payload {
            ExecutablePayload::Lighting { cue_set_id, source_ref, .. } => {
                let mut detail = join2("fire cue_set ", cue_set_id.as_str());
                detail.append(" from ");
                detail.append(source_ref.as_str());
                Ok(BackendAck {
                    backend: self.plugin_id.clone(),
                    target: cue_set_id.clone(),
                    status: String::from_str("ok"),
                    detail,
                })
            },
            _ => Err(String::from_str("FBB-005: expected Lighting payload")),
        }
    }

    /// Current status: shut down, degraded or healthy, fixed latencies, no
    /// errors, and a note while degraded.
    pub fn collect_backend_status(&self) -> (s: BackendStatus)
        ensures
            s.plugin_id@ == self.id_spec(),
            s.status@ == bus_status_text(self.shut_down_spec(), self.degraded_spec()),
            s.latency_ms_bits == Some(ONE_AND_HALF_MS_BITS),
            s.error_count == Some(0u64),
            s.last_ack_lag_ms_bits == Some(HALF_MS_BITS),
            self.degraded_spec() ==> (s.detail matches Some(d) && d@ == "holding last DMX state"@),
            !self.degraded_spec() ==> s.detail is None,
    {
        let status = if self.shut_down {
            String::from_str("shutdown")
        } else if self.degraded {
            String::from_str("degraded")
        } else {
            String::from_str("healthy")
        };
        BackendStatus {
            plugin_id: self.plugin_id.clone(),
            status,
            latency_ms_bits: Some(ONE_AND_HALF_MS_BITS),
            error_count: Some(0),
            last_ack_lag_ms_bits: Some(HALF_MS_BITS),
            detail: if self.degraded { Some(String::from_str("holding last DMX state")) } else { None },
        }
    }

    /// Enters degraded mode for any mode but "normal", and leaves it for
    /// "normal"; refused once shut down.
    pub fn apply_degrade_mode(&mut self, mode: &DegradeMode) -> (r: Result<(), String>)
        requires
            old(self).wf(),
        ensures
            final(self).wf(),
            final(self).id_spec() == old(self).id_spec(),
            final(self).prepared_spec() == old(self).prepared_spec(),
            final(self).shut_down_spec() == old(self).shut_down_spec(),
            final(self).topology_name() == old(self).topology_name(),
            final(self).count_spec() == old(self).count_spec(),
            final(self).outbox_spec() == old(self).outbox_spec(),
            final(self).last_frames_spec() == old(self).last_frames_spec(),
            old(self).shut_down_spec() ==> (r matches Err(e) && e@ == "FBB-006: backend already shut down"@
                && final(self).degraded_spec() == old(self).degraded_spec()),
            !old(self).shut_down_spec() ==> (r is Ok && final(self).degraded_spec() == (mode.mode@ != "normal"@)),
    {
        if self.shut_down {
            return Err(String::from_str("FBB-006: backend already shut down"));
        }
        self.degraded = !str_eq(mode.mode.as_str(), "normal");
        Ok(())
    }

    /// Shuts down: queues an all-zero frame for each universe of the
    /// topology (it has none), and leaves the backend shut down and
    /// unprepared.
    pub fn shutdown_backend(&mut self) -> (r: Result<(), String>)
        requires
            old(self).wf(),
        ensures
            final(self).wf(),
            r is Ok,
            final(self).shut_down_spec(),
            !final(self).prepared_spec(),
            final(self).id_spec() == old(self).id_spec(),
            final(self).degraded_spec() == old(self).degraded_spec(),
            final(self).topology_name() == old(self).topology_name(),
            final(self).count_spec() == old(self).count_spec(),
            final(self).outbox_spec() == old(self).outbox_spec(),
            final(self).last_frames_spec() == old(self).last_frames_spec(),
    {
        match &self.topology {
            Some(topo) => {
                let universes = topo.universes();
                proof {
                    if universes@.len() > 0 {
                        assert(universes@.contains(universes@[0]));
                    }
                }
                queue_blackout(&mut self.outbox, &universes);
                proof {
                    assert(universes@.map_values(|u: u16| blackout_packet(u)) =~= Seq::<Seq<u8>>::empty());
                    assert(packet_bytes(self.outbox@) =~= packet_bytes(old(self).outbox@));
                }
            },
            None => {},
        }
        self.shut_down = true;
        self.prepared = false;
        Ok(())
    }
}

} // verus!
