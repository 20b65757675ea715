//! Art-Net 4 OpDmx packet serialization.

use vstd::prelude::*;
use crate::dmx::DmxFrame;
use crate::text::{decimal, hex4, push_decimal, push_hex4};

verus! {

/// Art-Net protocol version.
pub const ARTNET_PROTOCOL_VERSION: u16 = 14;

/// Art-Net OpDmx opcode.
pub const ARTNET_OPCODE_DMX: u16 = 0x5000;

/// Length of an OpDmx packet: 18 header bytes and 512 channels.
pub const OPDMX_PACKET_LEN: usize = 530;

/// The magic bytes "Art-Net\0" that open every packet.
pub open spec fn artnet_header() -> Seq<u8> {
    seq![65u8, 114u8, 116u8, 45u8, 78u8, 101u8, 116u8, 0u8]
}

/// Configuration of an Art-Net sender node.
#[derive(Debug, Clone)]
pub struct ArtNetConfig {
    /// Target IP address (unicast) or broadcast address.
    pub target_addr: String,
    /// Target UDP port.
    pub port: u16,
    /// Source node short name.
    pub short_name: String,
}

impl Default for ArtNetConfig {
    fn default() -> (c: Self)
        ensures
            c.target_addr@ == "255.255.255.255"@,
            c.port == 6454,
            c.short_name@ == "Vidodo"@,
    {
        ArtNetConfig {
            target_addr: String::from_str("255.255.255.255"),
            port: 6454,
            short_name: String::from_str("Vidodo"),
        }
    }
}

/// The OpDmx packet for a frame: header, opcode 0x5000 little-endian, protocol
/// version 14 big-endian, sequence, physical port 0, universe little-endian,
/// data length 512 big-endian, then the 512 channel values.
pub open spec fn opdmx_packet(frame: DmxFrame) -> Seq<u8> {
    artnet_header()
        + seq![0x00u8, 0x50u8, 0u8, 14u8, frame.sequence, 0u8,
               (frame.universe % 256) as u8, (frame.universe / 256) as u8, 2u8, 0u8]
        + frame.channels@
}

/// The message for a packet shorter than an OpDmx packet.
pub open spec fn short_packet_text(len: nat) -> Seq<char> {
    "packet too short: "@ + decimal(len) + " bytes"@
}

/// The message for an unexpected opcode.
pub open spec fn opcode_error_text(opcode: nat) -> Seq<char> {
    "unexpected opcode: 0x"@ + hex4(opcode)
}

/// Whether bytes hold an OpDmx packet that parsing accepts.
pub open spec fn opdmx_accepts(data: Seq<u8>) -> bool {
    &&& data.len() >= 530
    &&& data.subrange(0, 8) == artnet_header()
    &&& data[8] == 0x00u8 && data[9] == 0x50u8
}

/// Serializes a frame into an Art-Net OpDmx packet.
pub fn build_opdmx_packet(frame: &DmxFrame) -> (packet: Vec<u8>)
    ensures
        packet@ == opdmx_packet(*frame),
{
    let mut packet: Vec<u8> = Vec::with_capacity(530);
    packet.push(65);
    packet.push(114);
    packet.push(116);
    packet.push(45);
    packet.push(78);
    packet.push(101);
    packet.push(116);
    packet.push(0);
    // opcode, little-endian
    packet.push(0x00);
    packet.push(0x50);
    // protocol version, big-endian
    packet.push(0);
    packet.push(14);
    packet.push(frame.sequence);
    // physical port
    packet.push(0);
    // universe, little-endian
    packet.push((frame.universe % 256) as u8);
    packet.push((frame.universe / 256) as u8);
    // data length 512, big-endian
    packet.push(2);
    packet.push(0);
    let ghost head = packet@;
    let mut i: usize = 0;
    while i < 512
        invariant
            i <= 512,
            head.len() == 18,
            packet@ == head + frame.channels@.subrange(0, i as int),
            frame.channels@.len() == 512,
        decreases 512 - i,
    {
        packet.push(frame.channels[i]);
        i = i + 1;
        assert(frame.channels@.subrange(0, i as int) =~= frame.channels@.subrange(0, i - 1).push(frame.channels@[i - 1]));
    }
    assert(frame.channels@.subrange(0, 512) =~= frame.channels@);
    assert(packet@ =~= opdmx_packet(*frame));
    packet
}

/// Parses an Art-Net OpDmx packet back into a frame.
pub fn parse_opdmx_packet(data: &[u8]) -> (r: Result<DmxFrame, String>)
    ensures
        r is Ok <==> opdmx_accepts(data@),
        r matches Ok(f) ==> {
            &&& f.sequence == data@[12]
            &&& f.universe == data@[14] + 256 * data@[15]
            &&& f.channels@ == data@.subrange(18, 530)
        },
        data@.len() < 530 ==> (r matches Err(e) && e@ == short_packet_text(data@.len())),
        (data@.len() >= 530 && data@.subrange(0, 8) != artnet_header())
            ==> (r matches Err(e) && e@ == "invalid ArtNet header"@),
        (data@.len() >= 530 && data@.subrange(0, 8) == artnet_header() && !(data@[8] == 0 && data@[9] == 0x50))
            ==> (r matches Err(e) && e@ == opcode_error_text((data@[8] + 256 * data@[9]) as nat)),
{
    if data.len() < 530 {
        let mut s = String::from_str("packet too short: ");
        push_decimal(&mut s, data.len() as u64);
        s.append(" bytes");
        return Err(s);
    }
    if !(data[0] == 65 && data[1] == 114 && data[2] == 116 && data[3] == 45 && data[4] == 78
        && data[5] == 101 && data[6] == 116 && data[7] == 0)
    {
        proof {
            reveal_strlit("invalid ArtNet header");
        }
        assert(data@.subrange(0, 8) != artnet_header()) by {
            if data@.subrange(0, 8) == artnet_header() {
                assert(data@.subrange(0, 8)[0] == data@[0]);
                assert(data@.subrange(0, 8)[1] == data@[1]);
                assert(data@.subrange(0, 8)[2] == data@[2]);
                assert(data@.subrange(0, 8)[3] == data@[3]);
                assert(data@.subrange(0, 8)[4] == data@[4]);
                assert(data@.subrange(0, 8)[5] == data@[5]);
                assert(data@.subrange(0, 8)[6] == data@[6]);
                assert(data@.subrange(0, 8)[7] == data@[7]);
            }
        }
        return Err(String::from_str("invalid ArtNet header"));
    }
    assert(data@.subrange(0, 8) =~= artnet_header());
    let opcode: u16 = (data[8] as u16) + 256 * (data[9] as u16);
    if opcode != 0x5000 {
        let mut s = String::from_str("unexpected opcode: 0x");
        push_hex4(&mut s, opcode);
        return Err(s);
    }
    let sequence = data[12];
    let universe: u16 = (data[14] as u16) + 256 * (data[15] as u16);
    let mut frame = DmxFrame::new(universe);
    frame.sequence = sequence;
    let mut i: usize = 0;
    while i < 512
        invariant
            i <= 512,
            data@.len() >= 530,
            frame.channels@.len() == 512,
            frame.sequence == sequence,
            frame.universe == universe,
            forall|k: int| 0 <= k < i ==> frame.channels@[k] == data@[18 + k],
        decreases 512 - i,
    {
        frame.channels[i] = data[18 + i];
        i = i + 1;
    }
    assert(frame.channels@ =~= data@.subrange(18, 530));
    Ok(frame)
}

/// Art-Net packet sender. Packets are built and collected in order of sending.
pub struct ArtNetSender {
    config: ArtNetConfig,
    sent_packets: Vec<Vec<u8>>,
}

impl ArtNetSender {
    /// The packets sent so far, oldest first.
    pub closed spec fn sent(self) -> Seq<Seq<u8>> {
        self.sent_packets@.map_values(|p: Vec<u8>| p@)
    }

    /// The configuration the sender was made with.
    pub closed spec fn config_spec(self) -> ArtNetConfig {
        self.config
    }

    /// A sender with `config` that has sent nothing.
    pub fn new(config: ArtNetConfig) -> (s: Self)
        ensures
            s.sent() == Seq::<Seq<u8>>::empty(),
            s.config_spec() == config,
    {
        let s = ArtNetSender { config, sent_packets: Vec::new() };
        assert(s.sent() =~= Seq::<Seq<u8>>::empty());
        s
    }

    /// Builds the OpDmx packet for `frame`, records it as sent and returns its length.
    pub fn send(&mut self, frame: &DmxFrame) -> (r: Result<usize, String>)
        ensures
            r == Ok::<usize, String>(530),
            final(self).sent() == old(self).sent().push(opdmx_packet(*frame)),
            final(self).config_spec() == old(self).config_spec(),
    {
        let packet = build_opdmx_packet(frame);
        let len = packet.len();
        self.sent_packets.push(packet);
        assert(self.sent() =~= old(self).sent().push(opdmx_packet(*frame)));
        Ok(len)
    }

    /// The configuration of this sender.
    pub fn config(&self) -> (c: &ArtNetConfig)
        ensures
            *c == self.config_spec(),
    {
        &self.config
    }

    /// Number of packets sent.
    pub fn sent_count(&self) -> (n: usize)
        ensures
            n == self.sent().len(),
    {
        self.sent_packets.len()
    }

    /// The raw packets sent so far, oldest first.
    pub fn sent_packets(&self) -> (p: &[Vec<u8>])
        ensures
            p@.map_values(|v: Vec<u8>| v@) == self.sent(),
    {
        self.sent_packets.as_slice()
    }
}

/// Parsing a built packet gives back the frame's universe, sequence and channels.
pub proof fn lemma_opdmx_roundtrip(frame: DmxFrame)
    ensures
        opdmx_accepts(opdmx_packet(frame)),
        opdmx_packet(frame)[12] == frame.sequence,
        opdmx_packet(frame)[14] + 256 * opdmx_packet(frame)[15] == frame.universe,
        opdmx_packet(frame).subrange(18, 530) == frame.channels@,
{
    let p = opdmx_packet(frame);
    assert(frame.channels@.len() == 512);
    assert(p.subrange(0, 8) =~= artnet_header());
    assert(p.subrange(18, 530) =~= frame.channels@);
}

} // verus!
