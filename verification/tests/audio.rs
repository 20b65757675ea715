use vidodo::audio::{
    build_args, int_f32_bits, AudioPath, CommandTranslator, NodeMapping, ProcessLifecycle, ProcessStatus,
    ScynthConfig,
};
use vidodo::osc::{OscArg, OscMessage, ScynthCmd};

// ---- node mapping ----

#[test]
fn allocate_and_lookup() {
    let mut m = NodeMapping::new();
    let id = m.allocate("layer-bass");
    assert_eq!(m.lookup("layer-bass"), Some(id));
    assert_eq!(m.lookup("nonexistent"), None);
}

#[test]
fn remove_clears_mapping() {
    let mut m = NodeMapping::new();
    m.allocate("layer-1");
    m.remove("layer-1");
    assert_eq!(m.lookup("layer-1"), None);
    assert_eq!(m.active_count(), 0);
}

#[test]
fn buffer_allocation() {
    let mut m = NodeMapping::new();
    let node = m.allocate("layer-pad");
    let buf = m.allocate_buffer(node);
    assert_eq!(m.buffer_for_node(node), Some(buf));
}

#[test]
fn sequential_node_ids() {
    let mut m = NodeMapping::new();
    let a = m.allocate("a");
    let b = m.allocate("b");
    assert_eq!(b, a + 1);
}

#[test]
fn node_ids_start_at_1000_and_reallocation_replaces() {
    let mut m = NodeMapping::new();
    assert_eq!(m.allocate("x"), 1000);
    assert_eq!(m.allocate("x"), 1001);
    assert_eq!(m.lookup("x"), Some(1001));
    assert_eq!(m.active_count(), 1);
    assert_eq!(m.allocate_buffer(1001), 0);
    assert_eq!(m.allocate_buffer(1001), 1);
    assert_eq!(m.remove_buffer(1001), Some(1));
    assert_eq!(m.buffer_for_node(1001), None);
    m.allocate("a");
    assert_eq!(m.active_actions(), vec!["a", "x"]);
}

// ---- OSC ----

#[test]
fn roundtrip_status_command() {
    let msg = ScynthCmd::status();
    let bytes = msg.to_bytes();
    let decoded = OscMessage::from_bytes(&bytes).unwrap();
    assert_eq!(decoded.address, "/status");
    assert!(decoded.args.is_empty());
}

#[test]
fn roundtrip_buffer_alloc_read() {
    let msg = ScynthCmd::buffer_alloc_read(42, "/tmp/test.wav");
    let bytes = msg.to_bytes();
    let decoded = OscMessage::from_bytes(&bytes).unwrap();
    assert_eq!(decoded.address, "/b_allocRead");
    assert_eq!(decoded.args.len(), 2);
    assert_eq!(decoded.args[0], OscArg::Int(42));
    assert_eq!(decoded.args[1], OscArg::String("/tmp/test.wav".to_string()));
}

#[test]
fn roundtrip_synth_new() {
    let msg = ScynthCmd::synth_new("default", 1001, 0, 1);
    let bytes = msg.to_bytes();
    let decoded = OscMessage::from_bytes(&bytes).unwrap();
    assert_eq!(decoded.address, "/s_new");
    assert_eq!(decoded.args.len(), 4);
    assert_eq!(decoded.args[0], OscArg::String("default".to_string()));
    assert_eq!(decoded.args[1], OscArg::Int(1001));
}

#[test]
fn roundtrip_node_set_float() {
    let msg = ScynthCmd::node_set(1001, "freq", 440.0f32.to_bits());
    let bytes = msg.to_bytes();
    let decoded = OscMessage::from_bytes(&bytes).unwrap();
    assert_eq!(decoded.address, "/n_set");
    assert_eq!(decoded.args[0], OscArg::Int(1001));
    assert_eq!(decoded.args[1], OscArg::String("freq".to_string()));
    assert_eq!(decoded.args[2], OscArg::Float(440.0f32.to_bits()));
}

#[test]
fn roundtrip_blob_argument() {
    let msg = OscMessage::new("/test", vec![OscArg::Blob(vec![1, 2, 3, 4, 5])]);
    let bytes = msg.to_bytes();
    let decoded = OscMessage::from_bytes(&bytes).unwrap();
    assert_eq!(decoded.args[0], OscArg::Blob(vec![1, 2, 3, 4, 5]));
}

#[test]
fn invalid_typetag_returns_error() {
    let mut buf = Vec::new();
    buf.extend_from_slice(b"/test\0\0\0");
    buf.extend_from_slice(b"i\0\0\0");
    assert!(OscMessage::from_bytes(&buf).is_err());
}

#[test]
fn osc_wire_format_is_padded() {
    let bytes = ScynthCmd::node_free(7).to_bytes();
    assert_eq!(bytes, vec![b'/', b'n', b'_', b'f', b'r', b'e', b'e', 0, b',', b'i', 0, 0, 0, 0, 0, 7]);
    assert_eq!(ScynthCmd::quit().to_bytes(), b"/quit\0\0\0,\0\0\0".to_vec());
}

// ---- command translation ----

#[test]
fn asset_playback_generates_alloc_read_and_synth_new() {
    let mut t = CommandTranslator::new();
    let seq = t.translate("bass-layer", "play", Some("/audio/bass.wav"), None, None);
    assert_eq!(seq.path, AudioPath::AssetPlayback);
    assert!(seq.messages.len() >= 3);
    assert_eq!(seq.messages[0].address, "/b_allocRead");
    assert_eq!(seq.messages[1].address, "/s_new");
    assert_eq!(seq.messages[2].address, "/n_set");
    if let OscArg::String(ref path) = seq.messages[0].args[1] {
        assert_eq!(path, "/audio/bass.wav");
    } else {
        panic!("expected string arg for buffer path");
    }
}

#[test]
fn asset_playback_with_gain() {
    let mut t = CommandTranslator::new();
    let amp = (10.0_f64.powf(-6.0 / 20.0) as f32).to_bits();
    let seq = t.translate("pad", "play", Some("pad.wav"), Some(amp), None);
    assert_eq!(seq.messages.len(), 4);
    assert_eq!(seq.messages[3].address, "/n_set");
    if let OscArg::String(ref param) = seq.messages[3].args[1] {
        assert_eq!(param, "amp");
    } else {
        panic!("expected string arg for param name");
    }
    assert_eq!(seq.messages[3].args[2], OscArg::Float(amp));
}

#[test]
fn synth_render_generates_synth_new_and_node_set() {
    let mut t = CommandTranslator::new();
    let amp = (10.0_f64.powf(-3.0 / 20.0) as f32).to_bits();
    let seq = t.translate("drone", "synth", None, Some(amp), None);
    assert_eq!(seq.path, AudioPath::SynthRender);
    assert_eq!(seq.messages.len(), 2);
    assert_eq!(seq.messages[0].address, "/s_new");
    assert_eq!(seq.messages[1].address, "/n_set");
    if let OscArg::String(ref def) = seq.messages[0].args[0] {
        assert!(def.contains("drone"));
    } else {
        panic!("expected string arg for def name");
    }
}

#[test]
fn stop_frees_node_and_buffer() {
    let mut t = CommandTranslator::new();
    t.translate("layer-1", "play", Some("test.wav"), None, None);
    assert_eq!(t.mapping().active_count(), 1);
    let seq = t.translate("layer-1", "stop", None, None, None);
    assert_eq!(seq.path, AudioPath::Stop);
    assert!(!seq.messages.is_empty());
    assert_eq!(seq.messages[0].address, "/n_free");
    if seq.messages.len() > 1 {
        assert_eq!(seq.messages[1].address, "/b_free");
    }
    assert_eq!(t.mapping().active_count(), 0);
}

#[test]
fn defer_to_adapter_produces_no_osc() {
    let mut t = CommandTranslator::new();
    let seq = t.translate("midi-piano", "midi_to_instrument", None, None, None);
    assert_eq!(seq.path, AudioPath::DeferToAdapter);
    assert!(seq.messages.is_empty());
}

#[test]
fn mapping_tracks_active_nodes() {
    let mut t = CommandTranslator::new();
    t.translate("a", "play", Some("a.wav"), None, None);
    t.translate("b", "synth", None, None, None);
    assert_eq!(t.mapping().active_count(), 2);
    assert!(t.mapping().lookup("a").is_some());
    assert!(t.mapping().lookup("b").is_some());
}

#[test]
fn playback_messages_are_exact() {
    let mut t = CommandTranslator::default();
    t.translate("warm", "play", None, None, None);
    let seq = t.translate("x", "loop", None, None, Some(8));
    assert_eq!(seq.action_id, "x");
    assert_eq!(seq.messages[0].args, vec![OscArg::Int(1), OscArg::String("unknown.wav".to_string())]);
    assert_eq!(
        seq.messages[1].args,
        vec![OscArg::String("vidodo_playbuf".to_string()), OscArg::Int(1001), OscArg::Int(0), OscArg::Int(1)]
    );
    assert_eq!(
        seq.messages[2].args,
        vec![OscArg::Int(1001), OscArg::String("bufnum".to_string()), OscArg::Float(1.0f32.to_bits())]
    );
    let stop = t.translate("x", "kill", None, None, None);
    assert_eq!(stop.messages[0].args, vec![OscArg::Int(1001)]);
    assert_eq!(stop.messages[1].address, "/b_free");
    assert_eq!(stop.messages[1].args, vec![OscArg::Int(1)]);
    let unknown = t.translate("y", "teleport", None, None, None);
    assert_eq!(unknown.path, AudioPath::Unknown("teleport".to_string()));
    assert!(unknown.messages.is_empty());
    assert!(t.translate("never", "stop", None, None, None).messages.is_empty());
}

#[test]
fn from_op_classifies_every_name() {
    for op in ["play", "play_asset", "asset_playback", "loop"] {
        assert_eq!(AudioPath::from_op(op), AudioPath::AssetPlayback);
    }
    for op in ["synth", "synth_render", "render", "gen"] {
        assert_eq!(AudioPath::from_op(op), AudioPath::SynthRender);
    }
    for op in ["stop", "free", "kill"] {
        assert_eq!(AudioPath::from_op(op), AudioPath::Stop);
    }
    for op in ["midi", "midi_to_instrument", "adapter"] {
        assert_eq!(AudioPath::from_op(op), AudioPath::DeferToAdapter);
    }
    assert_eq!(AudioPath::from_op("Play"), AudioPath::Unknown("Play".to_string()));
}

#[test]
fn small_int_float_bits_match_the_cast() {
    for n in [0u32, 1, 2, 3, 7, 8, 100, 1023, 1024, 65535, 0xFF_FFFF] {
        assert_eq!(int_f32_bits(n), (n as f32).to_bits(), "n = {n}");
    }
}

#[test]
fn large_int_float_bits_round_to_nearest_even() {
    for n in [
        0x100_0000u32, 0x100_0001, 0x100_0002, 0x100_0003, 0x100_0005, 0x1FF_FFFF, 0x200_0001, 0x200_0002,
        0x200_0003, 0x200_0006, 123_456_789, 0x7FFF_FF80, 0x7FFF_FFBF, 0x7FFF_FFC0, 0x7FFF_FFFF,
    ] {
        assert_eq!(int_f32_bits(n), (n as f32).to_bits(), "n = {n}");
    }
    assert_eq!(int_f32_bits(0x100_0001), (16_777_216f32).to_bits());
    assert_eq!(int_f32_bits(0x100_0003), (16_777_220f32).to_bits());
}

// ---- process configuration and lifecycle ----

#[test]
fn default_config_values() {
    let cfg = ScynthConfig::default();
    assert_eq!(cfg.port, 57110);
    assert_eq!(cfg.sample_rate, 44100);
    assert_eq!(cfg.block_size, 64);
    assert_eq!(cfg.max_restart_attempts, 3);
}

#[test]
fn build_args_includes_all_params() {
    let args = build_args(&ScynthConfig::default());
    assert!(args.contains(&"-u".to_string()));
    assert!(args.contains(&"57110".to_string()));
    assert!(args.contains(&"-S".to_string()));
    assert!(args.contains(&"44100".to_string()));
    assert_eq!(
        args,
        vec!["-u", "57110", "-a", "128", "-c", "4096", "-z", "64", "-S", "44100", "-o", "2", "-i", "0", "-n", "1024"]
    );
}

#[test]
fn initial_status_is_not_started() {
    let life = ProcessLifecycle::new();
    assert_eq!(life.status(), ProcessStatus::NotStarted);
    assert_eq!(life.restart_count(), 0);
    assert!(life.needs_boot());
}

#[test]
fn shutdown_from_not_started_is_ok() {
    let mut life = ProcessLifecycle::new();
    life.stopped();
    assert_eq!(life.status(), ProcessStatus::Stopped);
}

#[test]
fn restart_limit_enforced() {
    let mut life = ProcessLifecycle::new();
    assert!(life.begin_restart(2).is_ok());
    assert!(life.begin_restart(2).is_ok());
    assert_eq!(life.restart_count(), 2);
    assert_eq!(life.begin_restart(2).unwrap_err(), "exceeded max restart attempts (2)");
    life.booted();
    assert_eq!(life.restart_count(), 0);
    assert!(!life.needs_boot());
    life.exited();
    assert_eq!(life.status(), ProcessStatus::Crashed);
}

#[test]
fn negative_blob_size_is_an_error() {
    // "/b\0\0" ",b\0\0" then a size word of -4
    let data: Vec<u8> = vec![b'/', b'b', 0, 0, b',', b'b', 0, 0, 0xff, 0xff, 0xff, 0xfc, 1, 2, 3, 4];
    assert_eq!(OscMessage::from_bytes(&data).unwrap_err(), "truncated blob data");
}

#[test]
fn blob_running_past_end_is_an_error() {
    let data: Vec<u8> = vec![b'/', b'b', 0, 0, b',', b'b', 0, 0, 0, 0, 0, 8, 1, 2, 3, 4];
    assert_eq!(OscMessage::from_bytes(&data).unwrap_err(), "truncated blob data");
}

#[test]
fn int_float_bits_match_the_cast_across_the_range() {
    let mut n: u32 = 0;
    while n < 0x8000_0000 {
        assert_eq!(int_f32_bits(n), (n as f32).to_bits(), "n = {n}");
        n += 9_973;
    }
}

#[test]
fn osc_roundtrip_all_arg_types() {
    let msg = OscMessage::new(
        "/test/all",
        vec![
            OscArg::Int(42),
            OscArg::Float(1.234f32.to_bits()),
            OscArg::String("hello".to_string()),
            OscArg::Blob(vec![0xDE, 0xAD]),
        ],
    );
    let bytes = msg.to_bytes();
    let decoded = OscMessage::from_bytes(&bytes).unwrap();
    assert_eq!(decoded.address, "/test/all");
    assert_eq!(decoded.args.len(), 4);
    assert_eq!(decoded.args[0], OscArg::Int(42));
    assert_eq!(decoded.args[2], OscArg::String("hello".to_string()));
}

#[test]
fn scynth_commands_are_well_formed() {
    let commands = vec![
        ScynthCmd::status(),
        ScynthCmd::quit(),
        ScynthCmd::notify(true),
        ScynthCmd::buffer_alloc_read(1, "/tmp/test.wav"),
        ScynthCmd::buffer_free(1),
        ScynthCmd::synth_new("default", 1001, 0, 1),
        ScynthCmd::node_set(1001, "freq", 440.0f32.to_bits()),
        ScynthCmd::node_free(1001),
        ScynthCmd::synthdef_load("/tmp/test.scsyndef"),
    ];
    for cmd in commands {
        let bytes = cmd.to_bytes();
        assert!(!bytes.is_empty(), "empty bytes for {}", cmd.address);
        let decoded = OscMessage::from_bytes(&bytes).unwrap();
        assert_eq!(decoded.address, cmd.address);
        assert_eq!(decoded.args.len(), cmd.args.len());
    }
}

#[test]
fn ids_are_handed_out_in_sequence_across_calls() {
    let mut m = NodeMapping::new();
    assert_eq!(m.allocate("a"), 1000);
    assert_eq!(m.allocate_buffer(1000), 0);
    assert_eq!(m.remove("a"), Some(1000));
    assert_eq!(m.allocate("b"), 1001);
    assert_eq!(m.remove_buffer(1000), Some(0));
    assert_eq!(m.allocate_buffer(1001), 1);
    assert_eq!(m.allocate("a"), 1002);
    assert_eq!(m.allocate_buffer(1002), 2);
    assert_eq!(m.lookup("a"), Some(1002));
    assert_eq!(m.buffer_for_node(1001), Some(1));
}
