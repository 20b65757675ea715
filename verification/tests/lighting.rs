use vidodo::artnet::{build_opdmx_packet, parse_opdmx_packet, ArtNetConfig, ArtNetSender};
use vidodo::cue_translator::{apply_fixture_values, translate_cue, CueLevels};
use vidodo::dmx::DmxFrame;
use vidodo::fixture_topology::{ChannelCapability, FixtureBusTopology, FixtureEndpoint};
use vidodo::ir::{BackendTopology, DegradeMode, ExecutablePayload};
use vidodo::lighting_backend::FixtureBusBackend;

fn dimmer_fixture(id: &str, universe: u16, address: u16) -> FixtureEndpoint {
    FixtureEndpoint {
        fixture_id: id.into(),
        universe,
        address,
        capabilities: vec![ChannelCapability::Dimmer],
        label: None,
    }
}

fn rgb_fixture(id: &str, universe: u16, address: u16) -> FixtureEndpoint {
    FixtureEndpoint {
        fixture_id: id.into(),
        universe,
        address,
        capabilities: vec![
            ChannelCapability::Dimmer,
            ChannelCapability::Red,
            ChannelCapability::Green,
            ChannelCapability::Blue,
        ],
        label: Some(format!("RGB {id}")),
    }
}

fn mover_fixture(id: &str, universe: u16, address: u16) -> FixtureEndpoint {
    FixtureEndpoint {
        fixture_id: id.to_string(),
        universe,
        address,
        capabilities: vec![
            ChannelCapability::Dimmer,
            ChannelCapability::Red,
            ChannelCapability::Green,
            ChannelCapability::Blue,
            ChannelCapability::Pan,
            ChannelCapability::Tilt,
        ],
        label: None,
    }
}

// ---- DMX frames ----

#[test]
fn new_frame_is_zeroed() {
    let frame = DmxFrame::new(0);
    assert!(frame.channels.iter().all(|&c| c == 0));
    assert_eq!(frame.universe, 0);
}

#[test]
fn set_and_get_channel() {
    let mut frame = DmxFrame::new(0);
    frame.set_channel(1, 255).unwrap();
    frame.set_channel(512, 128).unwrap();
    assert_eq!(frame.get_channel(1).unwrap(), 255);
    assert_eq!(frame.get_channel(512).unwrap(), 128);
}

#[test]
fn channel_zero_is_invalid() {
    let mut frame = DmxFrame::new(0);
    assert!(frame.set_channel(0, 100).is_err());
    assert!(frame.get_channel(0).is_err());
}

#[test]
fn channel_513_is_invalid() {
    let mut frame = DmxFrame::new(0);
    assert!(frame.set_channel(513, 100).is_err());
}

#[test]
fn set_range() {
    let mut frame = DmxFrame::new(0);
    frame.set_range(10, &[255, 128, 64]).unwrap();
    assert_eq!(frame.get_channel(10).unwrap(), 255);
    assert_eq!(frame.get_channel(11).unwrap(), 128);
    assert_eq!(frame.get_channel(12).unwrap(), 64);
}

#[test]
fn set_range_overflow() {
    let mut frame = DmxFrame::new(0);
    assert!(frame.set_range(511, &[1, 2, 3]).is_err());
}

#[test]
fn blackout() {
    let mut frame = DmxFrame::new(0);
    frame.set_channel(1, 255).unwrap();
    frame.blackout();
    assert_eq!(frame.get_channel(1).unwrap(), 0);
}

#[test]
fn sequence_wraps() {
    let mut frame = DmxFrame::new(0);
    frame.sequence = 254;
    frame.next_sequence();
    assert_eq!(frame.sequence, 255);
    frame.next_sequence();
    assert_eq!(frame.sequence, 0);
}

#[test]
fn dmx_error_messages_name_the_channel_and_range() {
    let mut frame = DmxFrame::new(0);
    assert_eq!(frame.set_channel(600, 1).unwrap_err(), "DMX channel 600 out of range 1..512");
    assert_eq!(frame.set_range(511, &[1, 2, 3]).unwrap_err(), "range 511..514 exceeds DMX universe");
    assert_eq!(frame.get_channel(1).unwrap(), 0);
}

// ---- Art-Net ----

#[test]
fn opdmx_packet_structure() {
    let mut frame = DmxFrame::new(1);
    frame.set_channel(1, 255).unwrap();
    frame.sequence = 42;

    let packet = build_opdmx_packet(&frame);
    assert_eq!(packet.len(), 530);
    assert_eq!(&packet[0..8], b"Art-Net\0");
    let opcode = u16::from_le_bytes([packet[8], packet[9]]);
    assert_eq!(opcode, 0x5000);
    let version = u16::from_be_bytes([packet[10], packet[11]]);
    assert_eq!(version, 14);
    assert_eq!(packet[12], 42);
    let universe = u16::from_le_bytes([packet[14], packet[15]]);
    assert_eq!(universe, 1);
    assert_eq!(packet[18], 255);
}

#[test]
fn roundtrip_build_parse() {
    let mut frame = DmxFrame::new(7);
    frame.set_channel(100, 200).unwrap();
    frame.set_channel(256, 128).unwrap();
    frame.sequence = 99;

    let packet = build_opdmx_packet(&frame);
    let parsed = parse_opdmx_packet(&packet).unwrap();

    assert_eq!(parsed.universe, 7);
    assert_eq!(parsed.sequence, 99);
    assert_eq!(parsed.get_channel(100).unwrap(), 200);
    assert_eq!(parsed.get_channel(256).unwrap(), 128);
}

#[test]
fn parse_short_packet_fails() {
    assert!(parse_opdmx_packet(&[0u8; 10]).is_err());
}

#[test]
fn parse_bad_header_fails() {
    let mut packet = vec![0u8; 530];
    packet[0..4].copy_from_slice(b"Nope");
    assert!(parse_opdmx_packet(&packet).is_err());
}

#[test]
fn sender_collects_packets() {
    let mut sender = ArtNetSender::new(ArtNetConfig::default());
    let frame = DmxFrame::new(0);
    let len = sender.send(&frame).unwrap();
    assert_eq!(len, 530);
    assert_eq!(sender.sent_count(), 1);
}

#[test]
fn parse_errors_are_exact() {
    assert_eq!(parse_opdmx_packet(&[0u8; 10]).unwrap_err(), "packet too short: 10 bytes");
    let mut packet = build_opdmx_packet(&DmxFrame::new(0));
    packet[8] = 0x00;
    packet[9] = 0x21;
    assert_eq!(parse_opdmx_packet(&packet).unwrap_err(), "unexpected opcode: 0x2100");
}

#[test]
fn default_artnet_config() {
    let cfg = ArtNetConfig::default();
    assert_eq!(cfg.port, 6454);
    assert_eq!(cfg.target_addr, "255.255.255.255");
    let sender = ArtNetSender::new(cfg);
    assert_eq!(sender.config().short_name, "Vidodo");
    assert!(sender.sent_packets().is_empty());
}

#[test]
fn multi_universe_send_and_verify() {
    let mut sender = ArtNetSender::new(ArtNetConfig::default());
    for uni in 0..4u16 {
        let mut frame = DmxFrame::new(uni);
        frame.set_channel(1, (uni * 50) as u8).unwrap();
        frame.sequence = uni as u8;
        sender.send(&frame).unwrap();
    }
    assert_eq!(sender.sent_count(), 4);
    for (i, packet) in sender.sent_packets().iter().enumerate() {
        let parsed = parse_opdmx_packet(packet).unwrap();
        assert_eq!(parsed.universe, i as u16);
        assert_eq!(parsed.get_channel(1).unwrap(), (i as u16 * 50) as u8);
    }
}

#[test]
fn fixture_rgb_workflow() {
    let mut frame = DmxFrame::new(0);
    frame.set_range(10, &[255, 0, 128, 200]).unwrap();
    let mut sender = ArtNetSender::new(ArtNetConfig::default());
    sender.send(&frame).unwrap();
    let parsed = parse_opdmx_packet(&sender.sent_packets()[0]).unwrap();
    assert_eq!(parsed.get_channel(10).unwrap(), 255);
    assert_eq!(parsed.get_channel(11).unwrap(), 0);
    assert_eq!(parsed.get_channel(12).unwrap(), 128);
    assert_eq!(parsed.get_channel(13).unwrap(), 200);
}

// ---- fixture topology ----

#[test]
fn dimmer_occupies_one_channel() {
    let f = dimmer_fixture("dim-1", 0, 1);
    assert_eq!(f.channel_count(), 1);
    assert_eq!(f.end_address(), 1);
    assert_eq!(f.channel_for(ChannelCapability::Dimmer), Some(1));
    assert_eq!(f.channel_for(ChannelCapability::Red), None);
}

#[test]
fn rgb_occupies_four_channels() {
    let f = rgb_fixture("rgb-1", 0, 10);
    assert_eq!(f.channel_count(), 4);
    assert_eq!(f.end_address(), 13);
    assert_eq!(f.channel_for(ChannelCapability::Dimmer), Some(10));
    assert_eq!(f.channel_for(ChannelCapability::Red), Some(11));
    assert_eq!(f.channel_for(ChannelCapability::Green), Some(12));
    assert_eq!(f.channel_for(ChannelCapability::Blue), Some(13));
}

#[test]
fn lookup_by_fixture_id() {
    let mut topo = FixtureBusTopology::new("stage");
    topo.add_fixture(dimmer_fixture("dim-1", 0, 1)).unwrap();
    topo.add_fixture(rgb_fixture("rgb-1", 0, 10)).unwrap();
    let found = topo.find("rgb-1").unwrap();
    assert_eq!(found.universe, 0);
    assert_eq!(found.address, 10);
    assert!(topo.find("nonexistent").is_none());
}

#[test]
fn address_overlap_rejected() {
    let mut topo = FixtureBusTopology::new("stage");
    topo.add_fixture(rgb_fixture("rgb-1", 0, 10)).unwrap();
    assert!(topo.add_fixture(dimmer_fixture("dim-bad", 0, 12)).is_err());
}

#[test]
fn different_universe_no_overlap() {
    let mut topo = FixtureBusTopology::new("stage");
    topo.add_fixture(rgb_fixture("rgb-1", 0, 10)).unwrap();
    topo.add_fixture(rgb_fixture("rgb-2", 1, 10)).unwrap();
    assert_eq!(topo.fixture_count(), 2);
    assert_eq!(topo.universes(), vec![0, 1]);
}

#[test]
fn address_zero_rejected() {
    let mut topo = FixtureBusTopology::new("stage");
    assert!(topo
        .add_fixture(FixtureEndpoint {
            fixture_id: "bad".into(),
            universe: 0,
            address: 0,
            capabilities: vec![ChannelCapability::Dimmer],
            label: None,
        })
        .is_err());
}

#[test]
fn topology_error_messages() {
    let mut topo = FixtureBusTopology::new("stage");
    topo.add_fixture(rgb_fixture("rgb-1", 0, 10)).unwrap();
    assert_eq!(
        topo.add_fixture(dimmer_fixture("dim-bad", 0, 12)).unwrap_err(),
        "fixture 'dim-bad' overlaps with 'rgb-1' in universe 0"
    );
    assert_eq!(
        topo.add_fixture(rgb_fixture("edge", 0, 510)).unwrap_err(),
        "fixture 'edge' address range 510-513 out of DMX range 1-512"
    );
    assert_eq!(topo.fixture_count(), 1);
}

#[test]
fn universes_sorted_and_unique() {
    let mut topo = FixtureBusTopology::new("stage");
    topo.add_fixture(rgb_fixture("a", 3, 1)).unwrap();
    topo.add_fixture(rgb_fixture("b", 1, 1)).unwrap();
    topo.add_fixture(rgb_fixture("c", 3, 20)).unwrap();
    assert_eq!(topo.universes(), vec![1, 3]);
    assert_eq!(topo.fixtures_in_universe(3).len(), 2);
    assert_eq!(topo.fixtures_in_universe(3)[1].fixture_id, "c");
}

// ---- cue translation (levels on the DMX scale) ----

#[test]
fn intensity_half_rgb_red() {
    let mut topo = FixtureBusTopology::new("test");
    topo.add_fixture(rgb_fixture("par-1", 0, 1)).unwrap();
    let cue = CueLevels { fixture_ids: vec![], intensity: 128, color: Some([255, 0, 0]), pan: None, tilt: None, strobe: None };
    let result = translate_cue(&cue, &topo);
    assert_eq!(result.addressed_count, 1);
    assert_eq!(result.frames.len(), 1);
    let frame = &result.frames[0];
    assert_eq!(frame.get_channel(1).unwrap(), 128);
    assert_eq!(frame.get_channel(2).unwrap(), 255);
    assert_eq!(frame.get_channel(3).unwrap(), 0);
    assert_eq!(frame.get_channel(4).unwrap(), 0);
}

#[test]
fn cross_universe_generates_two_frames() {
    let mut topo = FixtureBusTopology::new("test");
    topo.add_fixture(rgb_fixture("par-1", 0, 1)).unwrap();
    topo.add_fixture(rgb_fixture("par-2", 1, 1)).unwrap();
    let cue = CueLevels { fixture_ids: vec![], intensity: 255, color: Some([0, 255, 0]), pan: None, tilt: None, strobe: None };
    let result = translate_cue(&cue, &topo);
    assert_eq!(result.addressed_count, 2);
    assert_eq!(result.frames.len(), 2);
    assert_eq!(result.frames[0].universe, 0);
    assert_eq!(result.frames[1].universe, 1);
}

#[test]
fn pan_tilt_mover() {
    let mut topo = FixtureBusTopology::new("test");
    topo.add_fixture(mover_fixture("mov-1", 0, 1)).unwrap();
    let cue = CueLevels { fixture_ids: vec!["mov-1".into()], intensity: 255, color: None, pan: Some(128), tilt: Some(191), strobe: None };
    let result = translate_cue(&cue, &topo);
    let frame = &result.frames[0];
    assert_eq!(frame.get_channel(5).unwrap(), 128);
    assert_eq!(frame.get_channel(6).unwrap(), 191);
}

#[test]
fn specific_fixture_ids_filter() {
    let mut topo = FixtureBusTopology::new("test");
    topo.add_fixture(rgb_fixture("par-1", 0, 1)).unwrap();
    topo.add_fixture(rgb_fixture("par-2", 0, 10)).unwrap();
    let cue = CueLevels { fixture_ids: vec!["par-2".into()], intensity: 204, color: Some([0, 0, 255]), pan: None, tilt: None, strobe: None };
    let result = translate_cue(&cue, &topo);
    assert_eq!(result.addressed_count, 1);
    let frame = &result.frames[0];
    assert_eq!(frame.get_channel(1).unwrap(), 0);
    assert_eq!(frame.get_channel(10).unwrap(), 204);
    assert_eq!(frame.get_channel(13).unwrap(), 255);
}

#[test]
fn empty_fixture_ids_targets_all() {
    let mut topo = FixtureBusTopology::new("test");
    topo.add_fixture(rgb_fixture("a", 0, 1)).unwrap();
    topo.add_fixture(rgb_fixture("b", 0, 10)).unwrap();
    let cue = CueLevels { fixture_ids: vec![], intensity: 255, color: None, pan: None, tilt: None, strobe: None };
    let result = translate_cue(&cue, &topo);
    assert_eq!(result.addressed_count, 2);
}

#[test]
fn unknown_fixture_ids_address_nothing() {
    let mut topo = FixtureBusTopology::new("test");
    topo.add_fixture(rgb_fixture("a", 0, 1)).unwrap();
    let cue = CueLevels { fixture_ids: vec!["zzz".into()], intensity: 255, color: None, pan: None, tilt: None, strobe: None };
    let result = translate_cue(&cue, &topo);
    assert_eq!(result.addressed_count, 0);
    assert!(result.frames.is_empty());
}

#[test]
fn apply_fixture_values_skips_missing_capabilities() {
    let mut frame = DmxFrame::new(0);
    let f = dimmer_fixture("d", 0, 7);
    let cue = CueLevels { fixture_ids: vec![], intensity: 99, color: Some([1, 2, 3]), pan: Some(4), tilt: None, strobe: Some(5) };
    apply_fixture_values(&mut frame, &f, &cue);
    assert_eq!(frame.get_channel(7).unwrap(), 99);
    assert_eq!(frame.channels.iter().filter(|&&c| c != 0).count(), 1);
}

// ---- fixture-bus backend ----

fn lighting_topology() -> BackendTopology {
    BackendTopology::Lighting {
        topology_ref: String::from("dmx-universe-1"),
        calibration_profile: None,
        fixture_endpoints: vec![String::from("par-1"), String::from("par-2")],
    }
}

fn lighting_payload() -> ExecutablePayload {
    ExecutablePayload::Lighting {
        cue_set_id: String::from("cue-1"),
        source_ref: String::from("src-1"),
        fixture_group: vec![],
        intensity: Some(204),
        color: Some([255, 0, 0]),
        fade_beats_bits: None,
    }
}

#[test]
fn describe_returns_kind_and_capabilities() {
    let backend = FixtureBusBackend::new("fixture-bus-v1");
    let desc = backend.describe_backend();
    assert_eq!(desc.backend_kind, "lighting");
    assert!(desc.capabilities.contains(&String::from("cue_fire")));
    assert_eq!(desc.status, "idle");
}

#[test]
fn prepare_sets_ready() {
    let mut backend = FixtureBusBackend::new("fixture-bus-v1");
    backend.prepare_backend(&lighting_topology()).unwrap();
    assert_eq!(backend.describe_backend().status, "ready");
}

#[test]
fn execute_translates_cue_to_artnet() {
    let mut backend = FixtureBusBackend::new("fb");
    backend.prepare_backend(&lighting_topology()).unwrap();
    let ack = backend.execute_payload(&lighting_payload()).unwrap();
    assert_eq!(ack.status, "ok");
    assert!(ack.detail.contains("cue-1"));
    assert_eq!(ack.detail, "fire cue_set cue-1 from src-1");
    assert_eq!(backend.execute_count(), 1);
}

#[test]
fn degrade_blocks_new_commands() {
    let mut backend = FixtureBusBackend::new("fb");
    backend.prepare_backend(&lighting_topology()).unwrap();
    backend
        .apply_degrade_mode(&DegradeMode {
            mode: String::from("reduced"),
            reason: String::from("overload"),
            affected_backends: vec![],
            fallback_action: None,
        })
        .unwrap();
    assert!(backend.execute_payload(&lighting_payload()).is_err());
}

#[test]
fn shutdown_sends_blackout() {
    let mut backend = FixtureBusBackend::new("fb");
    backend.prepare_backend(&lighting_topology()).unwrap();
    backend.shutdown_backend().unwrap();
    assert_eq!(backend.describe_backend().status, "shutdown");
    assert!(backend.execute_payload(&lighting_payload()).is_err());
}

#[test]
fn backend_wrong_topology_rejected() {
    let mut backend = FixtureBusBackend::new("fb");
    let bad = BackendTopology::Audio {
        topology_ref: String::from("stereo"),
        calibration_profile: None,
        speaker_endpoints: vec![],
    };
    assert!(backend.prepare_backend(&bad).is_err());
}

#[test]
fn backend_error_codes() {
    let mut backend = FixtureBusBackend::new("fb");
    assert_eq!(backend.execute_payload(&lighting_payload()).unwrap_err(), "FBB-008: not prepared");
    backend.prepare_backend(&lighting_topology()).unwrap();
    let visual = ExecutablePayload::Visual {
        scene_id: String::from("s"),
        shader_program: String::from("p"),
        uniforms: std::collections::BTreeMap::new(),
        duration_beats: None,
        blend: None,
        view_group: None,
    };
    assert_eq!(backend.execute_payload(&visual).unwrap_err(), "FBB-005: expected Lighting payload");
    let normal = DegradeMode { mode: String::from("normal"), reason: String::new(), affected_backends: vec![], fallback_action: None };
    let reduced = DegradeMode { mode: String::from("reduced"), reason: String::new(), affected_backends: vec![], fallback_action: None };
    backend.apply_degrade_mode(&reduced).unwrap();
    assert_eq!(backend.collect_backend_status().status, "degraded");
    assert_eq!(backend.collect_backend_status().detail.as_deref(), Some("holding last DMX state"));
    assert_eq!(backend.execute_payload(&lighting_payload()).unwrap_err(), "FBB-007: degraded, holding last state");
    backend.apply_degrade_mode(&normal).unwrap();
    assert_eq!(backend.collect_backend_status().status, "healthy");
    assert_eq!(backend.collect_backend_status().latency_ms_bits, Some(1.5f64.to_bits()));
    assert_eq!(backend.collect_backend_status().last_ack_lag_ms_bits, Some(0.5f64.to_bits()));
    backend.shutdown_backend().unwrap();
    assert_eq!(backend.prepare_backend(&lighting_topology()).unwrap_err(), "FBB-001: backend already shut down");
    assert_eq!(backend.apply_degrade_mode(&normal).unwrap_err(), "FBB-006: backend already shut down");
    assert_eq!(backend.apply_show_state().unwrap_err(), "FBB-003: backend already shut down");
    assert_eq!(backend.execute_payload(&lighting_payload()).unwrap_err(), "FBB-004: backend already shut down");
    assert!(backend.drain_outbox().is_empty());
}

#[test]
fn cue_ignores_untargeted_fixture_with_high_address() {
    let mut topo = FixtureBusTopology::new("edge");
    topo.add_fixture(rgb_fixture("par-1", 0, 1)).unwrap();
    // Placed directly: its channel numbers run past the u16 range.
    topo.fixtures.push(rgb_fixture("far", 3, 65534));
    let cue = CueLevels { fixture_ids: vec!["par-1".into()], intensity: 10, color: Some([1, 2, 3]), pan: None, tilt: None, strobe: None };
    let t = translate_cue(&cue, &topo);
    assert_eq!(t.addressed_count, 1);
    assert_eq!(t.frames.len(), 1);
    assert_eq!(t.frames[0].universe, 0);
    assert_eq!(&t.frames[0].channels[0..5], &[10, 1, 2, 3, 0]);
}

#[test]
fn add_fixture_on_topology_with_overlapping_fixtures() {
    let mut topo = FixtureBusTopology::new("loose");
    topo.fixtures.push(dimmer_fixture("a", 0, 1));
    topo.fixtures.push(dimmer_fixture("b", 0, 1));
    assert_eq!(topo.add_fixture(dimmer_fixture("c", 0, 2)), Ok(()));
    assert_eq!(
        topo.add_fixture(dimmer_fixture("d", 0, 1)),
        Err(String::from("fixture 'd' overlaps with 'a' in universe 0"))
    );
    assert_eq!(topo.fixtures.len(), 3);
}
