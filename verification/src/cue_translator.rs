//! Cue to DMX translation: the levels a cue sets are written to the channels
//! of the fixtures it addresses, one frame per universe touched.
//!
//! A cue here carries its levels on the DMX scale (0 to 255); turning the
//! 0.0 to 1.0 values of a show into such levels happens before.

use vstd::prelude::*;
use crate::dmx::DmxFrame;
use crate::fixture_topology::{ChannelCapability, FixtureBusTopology, FixtureEndpoint, first_index_of};

verus! {

/// A cue to translate: the fixtures it addresses (none named: all of them)
/// and the levels it sets.
#[derive(Debug, Clone)]
pub struct CueLevels {
    pub fixture_ids: Vec<String>,
    pub intensity: u8,
    pub color: Option<[u8; 3]>,
    pub pan: Option<u8>,
    pub tilt: Option<u8>,
    pub strobe: Option<u8>,
}

/// One DMX frame per universe the cue touched, in the order the universes
/// were first met, and how many fixtures were addressed.
#[derive(Debug)]
pub struct CueTranslation {
    pub frames: Vec<DmxFrame>,
    pub addressed_count: usize,
}

/// The level the cue sets for `cap`, if it sets one.
pub open spec fn cue_level(cue: CueLevels, cap: ChannelCapability) -> Option<u8> {
    match cap {
        ChannelCapability::Dimmer => Some(cue.intensity),
        ChannelCapability::Red => match cue.color { Some(c) => Some(c@[0]), None => None },
        ChannelCapability::Green => match cue.color { Some(c) => Some(c@[1]), None => None },
        ChannelCapability::Blue => match cue.color { Some(c) => Some(c@[2]), None => None },
        ChannelCapability::Pan => cue.pan,
        ChannelCapability::Tilt => cue.tilt,
        ChannelCapability::Strobe => cue.strobe,
        _ => None,
    }
}

/// `chs` with `level` written to the first channel of `f` that has `cap`,
/// when there is a level, such a channel, and it lies in 1..512.
#[verifier::opaque]
pub open spec fn with_level(chs: Seq<u8>, f: FixtureEndpoint, cap: ChannelCapability, level: Option<u8>) -> Seq<u8> {
    match level {
        Some(v) => match first_index_of(f.capabilities@, cap) {
            Some(i) => if 1 <= f.address + i <= 512 {
                chs.update(f.address + i - 1, v)
            } else {
                chs
            },
            None => chs,
        },
        None => chs,
    }
}

/// `chs` with the cue's levels written to fixture `f`: dimmer, red, green,
/// blue, pan, tilt and strobe, in that order.
pub open spec fn apply_cue(chs: Seq<u8>, f: FixtureEndpoint, cue: CueLevels) -> Seq<u8> {
    let c1 = with_level(chs, f, ChannelCapability::Dimmer, cue_level(cue, ChannelCapability::Dimmer));
    let c2 = with_level(c1, f, ChannelCapability::Red, cue_level(cue, ChannelCapability::Red));
    let c3 = with_level(c2, f, ChannelCapability::Green, cue_level(cue, ChannelCapability::Green));
    let c4 = with_level(c3, f, ChannelCapability::Blue, cue_level(cue, ChannelCapability::Blue));
    let c5 = with_level(c4, f, ChannelCapability::Pan, cue_level(cue, ChannelCapability::Pan));
    let c6 = with_level(c5, f, ChannelCapability::Tilt, cue_level(cue, ChannelCapability::Tilt));
    with_level(c6, f, ChannelCapability::Strobe, cue_level(cue, ChannelCapability::Strobe))
}

/// Where `first_index_of` finds a capability, the fixture has that
/// capability there.
proof fn lemma_first_index_of_some(caps: Seq<ChannelCapability>, cap: ChannelCapability)
    ensures
        first_index_of(caps, cap) matches Some(k) ==> 0 <= k < caps.len() && caps[k] == cap,
{
    if exists|i: int| 0 <= i < caps.len() && caps[i] == cap {
        let i = choose|i: int| 0 <= i < caps.len() && caps[i] == cap;
        crate::fixture_topology::lemma_first_index_of_found(caps, cap, i);
    }
}

/// Writing one level keeps the number of channels.
proof fn lemma_with_level_len(chs: Seq<u8>, f: FixtureEndpoint, cap: ChannelCapability, level: Option<u8>)
    requires
        chs.len() == 512,
    ensures
        with_level(chs, f, cap, level).len() == chs.len(),
{
    reveal(with_level);
}

/// Writing a level for `cap` puts it on the fixture's first `cap` channel.
proof fn lemma_with_level_sets(chs: Seq<u8>, f: FixtureEndpoint, cap: ChannelCapability, v: u8)
    requires
        chs.len() == 512,
        first_index_of(f.capabilities@, cap) is Some,
        1 <= f.address + first_index_of(f.capabilities@, cap)->0 <= 512,
    ensures
        with_level(chs, f, cap, Some(v))[f.address + first_index_of(f.capabilities@, cap)->0 - 1] == v,
{
    reveal(with_level);
}

/// Writing a level for `cap` leaves channel `j` alone when `j` is outside
/// the fixture's range or the fixture's channel there is not `cap`.
proof fn lemma_with_level_keeps(chs: Seq<u8>, f: FixtureEndpoint, cap: ChannelCapability, level: Option<u8>, j: int)
    requires
        chs.len() == 512,
        0 <= j < chs.len(),
        (f.address <= j + 1 < f.address + f.capabilities@.len()) ==> f.capabilities@[j + 1 - f.address] != cap,
    ensures
        with_level(chs, f, cap, level)[j] == chs[j],
{
    reveal(with_level);
    lemma_first_index_of_some(f.capabilities@, cap);
}

/// Writing a cue to a fixture puts each level the cue sets on the first
/// channel of the fixture with that capability, when that channel lies in
/// 1..512: the intensity on the dimmer, the colour's three parts on red,
/// green and blue, and the pan, tilt and strobe levels on theirs. Channels
/// outside the fixture's range keep their values.
/// The level the cue sets for dimmer survives the later writes of `apply_cue`.
proof fn lemma_cue_dimmer_level(chs: Seq<u8>, f: FixtureEndpoint, cue: CueLevels)
    requires
        chs.len() == 512,
    ensures
        first_index_of(f.capabilities@, ChannelCapability::Dimmer) matches Some(i)
            ==> (1 <= f.address + i <= 512 ==> apply_cue(chs, f, cue)[f.address + i - 1] == cue.intensity),
{
    if first_index_of(f.capabilities@, ChannelCapability::Dimmer) is Some && cue_level(cue, ChannelCapability::Dimmer) is Some
        && 1 <= f.address + first_index_of(f.capabilities@, ChannelCapability::Dimmer)->0 <= 512 {
        let caps = f.capabilities@;
        lemma_first_index_of_some(caps, ChannelCapability::Dimmer);
        let c0 = chs;
        let c1 = with_level(c0, f, ChannelCapability::Dimmer, cue_level(cue, ChannelCapability::Dimmer));
        let c2 = with_level(c1, f, ChannelCapability::Red, cue_level(cue, ChannelCapability::Red));
        let c3 = with_level(c2, f, ChannelCapability::Green, cue_level(cue, ChannelCapability::Green));
        let c4 = with_level(c3, f, ChannelCapability::Blue, cue_level(cue, ChannelCapability::Blue));
        let c5 = with_level(c4, f, ChannelCapability::Pan, cue_level(cue, ChannelCapability::Pan));
        let c6 = with_level(c5, f, ChannelCapability::Tilt, cue_level(cue, ChannelCapability::Tilt));
        let c7 = with_level(c6, f, ChannelCapability::Strobe, cue_level(cue, ChannelCapability::Strobe));
        assert(apply_cue(chs, f, cue) == c7);
        lemma_with_level_len(c0, f, ChannelCapability::Dimmer, cue_level(cue, ChannelCapability::Dimmer));
        lemma_with_level_len(c1, f, ChannelCapability::Red, cue_level(cue, ChannelCapability::Red));
        lemma_with_level_len(c2, f, ChannelCapability::Green, cue_level(cue, ChannelCapability::Green));
        lemma_with_level_len(c3, f, ChannelCapability::Blue, cue_level(cue, ChannelCapability::Blue));
        lemma_with_level_len(c4, f, ChannelCapability::Pan, cue_level(cue, ChannelCapability::Pan));
        lemma_with_level_len(c5, f, ChannelCapability::Tilt, cue_level(cue, ChannelCapability::Tilt));
        lemma_with_level_len(c6, f, ChannelCapability::Strobe, cue_level(cue, ChannelCapability::Strobe));
        let ch = f.address + first_index_of(caps, ChannelCapability::Dimmer)->0 - 1;
        lemma_with_level_sets(c0, f, ChannelCapability::Dimmer, cue_level(cue, ChannelCapability::Dimmer)->0);
        lemma_with_level_keeps(c1, f, ChannelCapability::Red, cue_level(cue, ChannelCapability::Red), ch);
        lemma_with_level_keeps(c2, f, ChannelCapability::Green, cue_level(cue, ChannelCapability::Green), ch);
        lemma_with_level_keeps(c3, f, ChannelCapability::Blue, cue_level(cue, ChannelCapability::Blue), ch);
        lemma_with_level_keeps(c4, f, ChannelCapability::Pan, cue_level(cue, ChannelCapability::Pan), ch);
        lemma_with_level_keeps(c5, f, ChannelCapability::Tilt, cue_level(cue, ChannelCapability::Tilt), ch);
        lemma_with_level_keeps(c6, f, ChannelCapability::Strobe, cue_level(cue, ChannelCapability::Strobe), ch);
    }
}

/// The level the cue sets for red survives the later writes of `apply_cue`.
proof fn lemma_cue_red_level(chs: Seq<u8>, f: FixtureEndpoint, cue: CueLevels)
    requires
        chs.len() == 512,
    ensures
        first_index_of(f.capabilities@, ChannelCapability::Red) matches Some(i) ==> (cue.color matches Some(c)
            ==> (1 <= f.address + i <= 512 ==> apply_cue(chs, f, cue)[f.address + i - 1] == c@[0])),
{
    if first_index_of(f.capabilities@, ChannelCapability::Red) is Some && cue_level(cue, ChannelCapability::Red) is Some
        && 1 <= f.address + first_index_of(f.capabilities@, ChannelCapability::Red)->0 <= 512 {
        let caps = f.capabilities@;
        lemma_first_index_of_some(caps, ChannelCapability::Red);
        let c0 = chs;
        let c1 = with_level(c0, f, ChannelCapability::Dimmer, cue_level(cue, ChannelCapability::Dimmer));
        let c2 = with_level(c1, f, ChannelCapability::Red, cue_level(cue, ChannelCapability::Red));
        let c3 = with_level(c2, f, ChannelCapability::Green, cue_level(cue, ChannelCapability::Green));
        let c4 = with_level(c3, f, ChannelCapability::Blue, cue_level(cue, ChannelCapability::Blue));
        let c5 = with_level(c4, f, ChannelCapability::Pan, cue_level(cue, ChannelCapability::Pan));
        let c6 = with_level(c5, f, ChannelCapability::Tilt, cue_level(cue, ChannelCapability::Tilt));
        let c7 = with_level(c6, f, ChannelCapability::Strobe, cue_level(cue, ChannelCapability::Strobe));
        assert(apply_cue(chs, f, cue) == c7);
        lemma_with_level_len(c0, f, ChannelCapability::Dimmer, cue_level(cue, ChannelCapability::Dimmer));
        lemma_with_level_len(c1, f, ChannelCapability::Red, cue_level(cue, ChannelCapability::Red));
        lemma_with_level_len(c2, f, ChannelCapability::Green, cue_level(cue, ChannelCapability::Green));
        lemma_with_level_len(c3, f, ChannelCapability::Blue, cue_level(cue, ChannelCapability::Blue));
        lemma_with_level_len(c4, f, ChannelCapability::Pan, cue_level(cue, ChannelCapability::Pan));
        lemma_with_level_len(c5, f, ChannelCapability::Tilt, cue_level(cue, ChannelCapability::Tilt));
        lemma_with_level_len(c6, f, ChannelCapability::Strobe, cue_level(cue, ChannelCapability::Strobe));
        let ch = f.address + first_index_of(caps, ChannelCapability::Red)->0 - 1;
        lemma_with_level_sets(c1, f, ChannelCapability::Red, cue_level(cue, ChannelCapability::Red)->0);
        lemma_with_level_keeps(c2, f, ChannelCapability::Green, cue_level(cue, ChannelCapability::Green), ch);
        lemma_with_level_keeps(c3, f, ChannelCapability::Blue, cue_level(cue, ChannelCapability::Blue), ch);
        lemma_with_level_keeps(c4, f, ChannelCapability::Pan, cue_level(cue, ChannelCapability::Pan), ch);
        lemma_with_level_keeps(c5, f, ChannelCapability::Tilt, cue_level(cue, ChannelCapability::Tilt), ch);
        lemma_with_level_keeps(c6, f, ChannelCapability::Strobe, cue_level(cue, ChannelCapability::Strobe), ch);
    }
}

/// The level the cue sets for green survives the later writes of `apply_cue`.
proof fn lemma_cue_green_level(chs: Seq<u8>, f: FixtureEndpoint, cue: CueLevels)
    requires
        chs.len() == 512,
    ensures
        first_index_of(f.capabilities@, ChannelCapability::Green) matches Some(i) ==> (cue.color matches Some(c)
            ==> (1 <= f.address + i <= 512 ==> apply_cue(chs, f, cue)[f.address + i - 1] == c@[1])),
{
    if first_index_of(f.capabilities@, ChannelCapability::Green) is Some && cue_level(cue, ChannelCapability::Green) is Some
        && 1 <= f.address + first_index_of(f.capabilities@, ChannelCapability::Green)->0 <= 512 {
        let caps = f.capabilities@;
        lemma_first_index_of_some(caps, ChannelCapability::Green);
        let c0 = chs;
        let c1 = with_level(c0, f, ChannelCapability::Dimmer, cue_level(cue, ChannelCapability::Dimmer));
        let c2 = with_level(c1, f, ChannelCapability::Red, cue_level(cue, ChannelCapability::Red));
        let c3 = with_level(c2, f, ChannelCapability::Green, cue_level(cue, ChannelCapability::Green));
        let c4 = with_level(c3, f, ChannelCapability::Blue, cue_level(cue, ChannelCapability::Blue));
        let c5 = with_level(c4, f, ChannelCapability::Pan, cue_level(cue, ChannelCapability::Pan));
        let c6 = with_level(c5, f, ChannelCapability::Tilt, cue_level(cue, ChannelCapability::Tilt));
        let c7 = with_level(c6, f, ChannelCapability::Strobe, cue_level(cue, ChannelCapability::Strobe));
        assert(apply_cue(chs, f, cue) == c7);
        lemma_with_level_len(c0, f, ChannelCapability::Dimmer, cue_level(cue, ChannelCapability::Dimmer));
        lemma_with_level_len(c1, f, ChannelCapability::Red, cue_level(cue, ChannelCapability::Red));
        lemma_with_level_len(c2, f, ChannelCapability::Green, cue_level(cue, ChannelCapability::Green));
        lemma_with_level_len(c3, f, ChannelCapability::Blue, cue_level(cue, ChannelCapability::Blue));
        lemma_with_level_len(c4, f, ChannelCapability::Pan, cue_level(cue, ChannelCapability::Pan));
        lemma_with_level_len(c5, f, ChannelCapability::Tilt, cue_level(cue, ChannelCapability::Tilt));
        lemma_with_level_len(c6, f, ChannelCapability::Strobe, cue_level(cue, ChannelCapability::Strobe));
        let ch = f.address + first_index_of(caps, ChannelCapability::Green)->0 - 1;
        lemma_with_level_sets(c2, f, ChannelCapability::Green, cue_level(cue, ChannelCapability::Green)->0);
        lemma_with_level_keeps(c3, f, ChannelCapability::Blue, cue_level(cue, ChannelCapability::Blue), ch);
        lemma_with_level_keeps(c4, f, ChannelCapability::Pan, cue_level(cue, ChannelCapability::Pan), ch);
        lemma_with_level_keeps(c5, f, ChannelCapability::Tilt, cue_level(cue, ChannelCapability::Tilt), ch);
        lemma_with_level_keeps(c6, f, ChannelCapability::Strobe, cue_level(cue, ChannelCapability::Strobe), ch);
    }
}

/// The level the cue sets for blue survives the later writes of `apply_cue`.
proof fn lemma_cue_blue_level(chs: Seq<u8>, f: FixtureEndpoint, cue: CueLevels)
    requires
        chs.len() == 512,
    ensures
        first_index_of(f.capabilities@, ChannelCapability::Blue) matches Some(i) ==> (cue.color matches Some(c)
            ==> (1 <= f.address + i <= 512 ==> apply_cue(chs, f, cue)[f.address + i - 1] == c@[2])),
{
    if first_index_of(f.capabilities@, ChannelCapability::Blue) is Some && cue_level(cue, ChannelCapability::Blue) is Some
        && 1 <= f.address + first_index_of(f.capabilities@, ChannelCapability::Blue)->0 <= 512 {
        let caps = f.capabilities@;
        lemma_first_index_of_some(caps, ChannelCapability::Blue);
        let c0 = chs;
        let c1 = with_level(c0, f, ChannelCapability::Dimmer, cue_level(cue, ChannelCapability::Dimmer));
        let c2 = with_level(c1, f, ChannelCapability::Red, cue_level(cue, ChannelCapability::Red));
        let c3 = with_level(c2, f, ChannelCapability::Green, cue_level(cue, ChannelCapability::Green));
        let c4 = with_level(c3, f, ChannelCapability::Blue, cue_level(cue, ChannelCapability::Blue));
        let c5 = with_level(c4, f, ChannelCapability::Pan, cue_level(cue, ChannelCapability::Pan));
        let c6 = with_level(c5, f, ChannelCapability::Tilt, cue_level(cue, ChannelCapability::Tilt));
        let c7 = with_level(c6, f, ChannelCapability::Strobe, cue_level(cue, ChannelCapability::Strobe));
        assert(apply_cue(chs, f, cue) == c7);
        lemma_with_level_len(c0, f, ChannelCapability::Dimmer, cue_level(cue, ChannelCapability::Dimmer));
        lemma_with_level_len(c1, f, ChannelCapability::Red, cue_level(cue, ChannelCapability::Red));
        lemma_with_level_len(c2, f, ChannelCapability::Green, cue_level(cue, ChannelCapability::Green));
        lemma_with_level_len(c3, f, ChannelCapability::Blue, cue_level(cue, ChannelCapability::Blue));
        lemma_with_level_len(c4, f, ChannelCapability::Pan, cue_level(cue, ChannelCapability::Pan));
        lemma_with_level_len(c5, f, ChannelCapability::Tilt, cue_level(cue, ChannelCapability::Tilt));
        lemma_with_level_len(c6, f, ChannelCapability::Strobe, cue_level(cue, ChannelCapability::Strobe));
        let ch = f.address + first_index_of(caps, ChannelCapability::Blue)->0 - 1;
        lemma_with_level_sets(c3, f, ChannelCapability::Blue, cue_level(cue, ChannelCapability::Blue)->0);
        lemma_with_level_keeps(c4, f, ChannelCapability::Pan, cue_level(cue, ChannelCapability::Pan), ch);
        lemma_with_level_keeps(c5, f, ChannelCapability::Tilt, cue_level(cue, ChannelCapability::Tilt), ch);
        lemma_with_level_keeps(c6, f, ChannelCapability::Strobe, cue_level(cue, ChannelCapability::Strobe), ch);
    }
}

/// The level the cue sets for pan survives the later writes of `apply_cue`.
proof fn lemma_cue_pan_level(chs: Seq<u8>, f: FixtureEndpoint, cue: CueLevels)
    requires
        chs.len() == 512,
    ensures
        first_index_of(f.capabilities@, ChannelCapability::Pan) matches Some(i) ==> (cue.pan matches Some(v)
            ==> (1 <= f.address + i <= 512 ==> apply_cue(chs, f, cue)[f.address + i - 1] == v)),
{
    if first_index_of(f.capabilities@, ChannelCapability::Pan) is Some && cue_level(cue, ChannelCapability::Pan) is Some
        && 1 <= f.address + first_index_of(f.capabilities@, ChannelCapability::Pan)->0 <= 512 {
        let caps = f.capabilities@;
        lemma_first_index_of_some(caps, ChannelCapability::Pan);
        let c0 = chs;
        let c1 = with_level(c0, f, ChannelCapability::Dimmer, cue_level(cue, ChannelCapability::Dimmer));
        let c2 = with_level(c1, f, ChannelCapability::Red, cue_level(cue, ChannelCapability::Red));
        let c3 = with_level(c2, f, ChannelCapability::Green, cue_level(cue, ChannelCapability::Green));
        let c4 = with_level(c3, f, ChannelCapability::Blue, cue_level(cue, ChannelCapability::Blue));
        let c5 = with_level(c4, f, ChannelCapability::Pan, cue_level(cue, ChannelCapability::Pan));
        let c6 = with_level(c5, f, ChannelCapability::Tilt, cue_level(cue, ChannelCapability::Tilt));
        let c7 = with_level(c6, f, ChannelCapability::Strobe, cue_level(cue, ChannelCapability::Strobe));
        assert(apply_cue(chs, f, cue) == c7);
        lemma_with_level_len(c0, f, ChannelCapability::Dimmer, cue_level(cue, ChannelCapability::Dimmer));
        lemma_with_level_len(c1, f, ChannelCapability::Red, cue_level(cue, ChannelCapability::Red));
        lemma_with_level_len(c2, f, ChannelCapability::Green, cue_level(cue, ChannelCapability::Green));
        lemma_with_level_len(c3, f, ChannelCapability::Blue, cue_level(cue, ChannelCapability::Blue));
        lemma_with_level_len(c4, f, ChannelCapability::Pan, cue_level(cue, ChannelCapability::Pan));
        lemma_with_level_len(c5, f, ChannelCapability::Tilt, cue_level(cue, ChannelCapability::Tilt));
        lemma_with_level_len(c6, f, ChannelCapability::Strobe, cue_level(cue, ChannelCapability::Strobe));
        let ch = f.address + first_index_of(caps, ChannelCapability::Pan)->0 - 1;
        lemma_with_level_sets(c4, f, ChannelCapability::Pan, cue_level(cue, ChannelCapability::Pan)->0);
        lemma_with_level_keeps(c5, f, ChannelCapability::Tilt, cue_level(cue, ChannelCapability::Tilt), ch);
        lemma_with_level_keeps(c6, f, ChannelCapability::Strobe, cue_level(cue, ChannelCapability::Strobe), ch);
    }
}

/// The level the cue sets for tilt survives the later writes of `apply_cue`.
proof fn lemma_cue_tilt_level(chs: Seq<u8>, f: FixtureEndpoint, cue: CueLevels)
    requires
        chs.len() == 512,
    ensures
        first_index_of(f.capabilities@, ChannelCapability::Tilt) matches Some(i) ==> (cue.tilt matches Some(v)
            ==> (1 <= f.address + i <= 512 ==> apply_cue(chs, f, cue)[f.address + i - 1] == v)),
{
    if first_index_of(f.capabilities@, ChannelCapability::Tilt) is Some && cue_level(cue, ChannelCapability::Tilt) is Some
        && 1 <= f.address + first_index_of(f.capabilities@, ChannelCapability::Tilt)->0 <= 512 {
        let caps = f.capabilities@;
        lemma_first_index_of_some(caps, ChannelCapability::Tilt);
        let c0 = chs;
        let c1 = with_level(c0, f, ChannelCapability::Dimmer, cue_level(cue, ChannelCapability::Dimmer));
        let c2 = with_level(c1, f, ChannelCapability::Red, cue_level(cue, ChannelCapability::Red));
        let c3 = with_level(c2, f, ChannelCapability::Green, cue_level(cue, ChannelCapability::Green));
        let c4 = with_level(c3, f, ChannelCapability::Blue, cue_level(cue, ChannelCapability::Blue));
        let c5 = with_level(c4, f, ChannelCapability::Pan, cue_level(cue, ChannelCapability::Pan));
        let c6 = with_level(c5, f, ChannelCapability::Tilt, cue_level(cue, ChannelCapability::Tilt));
        let c7 = with_level(c6, f, ChannelCapability::Strobe, cue_level(cue, ChannelCapability::Strobe));
        assert(apply_cue(chs, f, cue) == c7);
        lemma_with_level_len(c0, f, ChannelCapability::Dimmer, cue_level(cue, ChannelCapability::Dimmer));
        lemma_with_level_len(c1, f, ChannelCapability::Red, cue_level(cue, ChannelCapability::Red));
        lemma_with_level_len(c2, f, ChannelCapability::Green, cue_level(cue, ChannelCapability::Green));
        lemma_with_level_len(c3, f, ChannelCapability::Blue, cue_level(cue, ChannelCapability::Blue));
        lemma_with_level_len(c4, f, ChannelCapability::Pan, cue_level(cue, ChannelCapability::Pan));
        lemma_with_level_len(c5, f, ChannelCapability::Tilt, cue_level(cue, ChannelCapability::Tilt));
        lemma_with_level_len(c6, f, ChannelCapability::Strobe, cue_level(cue, ChannelCapability::Strobe));
        let ch = f.address + first_index_of(caps, ChannelCapability::Tilt)->0 - 1;
        lemma_with_level_sets(c5, f, ChannelCapability::Tilt, cue_level(cue, ChannelCapability::Tilt)->0);
        lemma_with_level_keeps(c6, f, ChannelCapability::Strobe, cue_level(cue, ChannelCapability::Strobe), ch);
    }
}

/// The level the cue sets for strobe survives the later writes of `apply_cue`.
proof fn lemma_cue_strobe_level(chs: Seq<u8>, f: FixtureEndpoint, cue: CueLevels)
    requires
        chs.len() == 512,
    ensures
        first_index_of(f.capabilities@, ChannelCapability::Strobe) matches Some(i) ==> (cue.strobe matches Some(v)
            ==> (1 <= f.address + i <= 512 ==> apply_cue(chs, f, cue)[f.address + i - 1] == v)),
{
    if first_index_of(f.capabilities@, ChannelCapability::Strobe) is Some && cue_level(cue, ChannelCapability::Strobe) is Some
        && 1 <= f.address + first_index_of(f.capabilities@, ChannelCapability::Strobe)->0 <= 512 {
        let caps = f.capabilities@;
        lemma_first_index_of_some(caps, ChannelCapability::Strobe);
        let c0 = chs;
        let c1 = with_level(c0, f, ChannelCapability::Dimmer, cue_level(cue, ChannelCapability::Dimmer));
        let c2 = with_level(c1, f, ChannelCapability::Red, cue_level(cue, ChannelCapability::Red));
        let c3 = with_level(c2, f, ChannelCapability::Green, cue_level(cue, ChannelCapability::Green));
        let c4 = with_level(c3, f, ChannelCapability::Blue, cue_level(cue, ChannelCapability::Blue));
        let c5 = with_level(c4, f, ChannelCapability::Pan, cue_level(cue, ChannelCapability::Pan));
        let c6 = with_level(c5, f, ChannelCapability::Tilt, cue_level(cue, ChannelCapability::Tilt));
        let c7 = with_level(c6, f, ChannelCapability::Strobe, cue_level(cue, ChannelCapability::Strobe));
        assert(apply_cue(chs, f, cue) == c7);
        lemma_with_level_len(c0, f, ChannelCapability::Dimmer, cue_level(cue, ChannelCapability::Dimmer));
        lemma_with_level_len(c1, f, ChannelCapability::Red, cue_level(cue, ChannelCapability::Red));
        lemma_with_level_len(c2, f, ChannelCapability::Green, cue_level(cue, ChannelCapability::Green));
        lemma_with_level_len(c3, f, ChannelCapability::Blue, cue_level(cue, ChannelCapability::Blue));
        lemma_with_level_len(c4, f, ChannelCapability::Pan, cue_level(cue, ChannelCapability::Pan));
        lemma_with_level_len(c5, f, ChannelCapability::Tilt, cue_level(cue, ChannelCapability::Tilt));
        lemma_with_level_len(c6, f, ChannelCapability::Strobe, cue_level(cue, ChannelCapability::Strobe));
        lemma_with_level_sets(c6, f, ChannelCapability::Strobe, cue_level(cue, ChannelCapability::Strobe)->0);
    }
}

/// `apply_cue` keeps 512 channels and leaves those outside the fixture's
/// range alone.
proof fn lemma_cue_frame(chs: Seq<u8>, f: FixtureEndpoint, cue: CueLevels)
    requires
        chs.len() == 512,
    ensures
        apply_cue(chs, f, cue).len() == 512,
        forall|j: int| 0 <= j < 512 && !(f.address <= j + 1 < f.address + f.capabilities@.len())
            ==> #[trigger] apply_cue(chs, f, cue)[j] == chs[j],
{
    let c0 = chs;
    let c1 = with_level(c0, f, ChannelCapability::Dimmer, cue_level(cue, ChannelCapability::Dimmer));
    let c2 = with_level(c1, f, ChannelCapability::Red, cue_level(cue, ChannelCapability::Red));
    let c3 = with_level(c2, f, ChannelCapability::Green, cue_level(cue, ChannelCapability::Green));
    let c4 = with_level(c3, f, ChannelCapability::Blue, cue_level(cue, ChannelCapability::Blue));
    let c5 = with_level(c4, f, ChannelCapability::Pan, cue_level(cue, ChannelCapability::Pan));
    let c6 = with_level(c5, f, ChannelCapability::Tilt, cue_level(cue, ChannelCapability::Tilt));
    let c7 = with_level(c6, f, ChannelCapability::Strobe, cue_level(cue, ChannelCapability::Strobe));
    assert(apply_cue(chs, f, cue) == c7);
    lemma_with_level_len(c0, f, ChannelCapability::Dimmer, cue_level(cue, ChannelCapability::Dimmer));
    lemma_with_level_len(c1, f, ChannelCapability::Red, cue_level(cue, ChannelCapability::Red));
    lemma_with_level_len(c2, f, ChannelCapability::Green, cue_level(cue, ChannelCapability::Green));
    lemma_with_level_len(c3, f, ChannelCapability::Blue, cue_level(cue, ChannelCapability::Blue));
    lemma_with_level_len(c4, f, ChannelCapability::Pan, cue_level(cue, ChannelCapability::Pan));
    lemma_with_level_len(c5, f, ChannelCapability::Tilt, cue_level(cue, ChannelCapability::Tilt));
    lemma_with_level_len(c6, f, ChannelCapability::Strobe, cue_level(cue, ChannelCapability::Strobe));
    assert forall|j: int| 0 <= j < 512 && !(f.address <= j + 1 < f.address + f.capabilities@.len())
        implies #[trigger] apply_cue(chs, f, cue)[j] == chs[j] by {
        lemma_with_level_keeps(c0, f, ChannelCapability::Dimmer, cue_level(cue, ChannelCapability::Dimmer), j);
        lemma_with_level_keeps(c1, f, ChannelCapability::Red, cue_level(cue, ChannelCapability::Red), j);
        lemma_with_level_keeps(c2, f, ChannelCapability::Green, cue_level(cue, ChannelCapability::Green), j);
        lemma_with_level_keeps(c3, f, ChannelCapability::Blue, cue_level(cue, ChannelCapability::Blue), j);
        lemma_with_level_keeps(c4, f, ChannelCapability::Pan, cue_level(cue, ChannelCapability::Pan), j);
        lemma_with_level_keeps(c5, f, ChannelCapability::Tilt, cue_level(cue, ChannelCapability::Tilt), j);
        lemma_with_level_keeps(c6, f, ChannelCapability::Strobe, cue_level(cue, ChannelCapability::Strobe), j);
    }
}

pub proof fn law_cue_levels_reach_their_channels(chs: Seq<u8>, f: FixtureEndpoint, cue: CueLevels)
    requires
        chs.len() == 512,
    ensures
        first_index_of(f.capabilities@, ChannelCapability::Dimmer) matches Some(i)
            ==> (1 <= f.address + i <= 512 ==> apply_cue(chs, f, cue)[f.address + i - 1] == cue.intensity),
        first_index_of(f.capabilities@, ChannelCapability::Red) matches Some(i) ==> (cue.color matches Some(c)
            ==> (1 <= f.address + i <= 512 ==> apply_cue(chs, f, cue)[f.address + i - 1] == c@[0])),
        first_index_of(f.capabilities@, ChannelCapability::Green) matches Some(i) ==> (cue.color matches Some(c)
            ==> (1 <= f.address + i <= 512 ==> apply_cue(chs, f, cue)[f.address + i - 1] == c@[1])),
        first_index_of(f.capabilities@, ChannelCapability::Blue) matches Some(i) ==> (cue.color matches Some(c)
            ==> (1 <= f.address + i <= 512 ==> apply_cue(chs, f, cue)[f.address + i - 1] == c@[2])),
        first_index_of(f.capabilities@, ChannelCapability::Pan) matches Some(i) ==> (cue.pan matches Some(v)
            ==> (1 <= f.address + i <= 512 ==> apply_cue(chs, f, cue)[f.address + i - 1] == v)),
        first_index_of(f.capabilities@, ChannelCapability::Tilt) matches Some(i) ==> (cue.tilt matches Some(v)
            ==> (1 <= f.address + i <= 512 ==> apply_cue(chs, f, cue)[f.address + i - 1] == v)),
        first_index_of(f.capabilities@, ChannelCapability::Strobe) matches Some(i) ==> (cue.strobe matches Some(v)
            ==> (1 <= f.address + i <= 512 ==> apply_cue(chs, f, cue)[f.address + i - 1] == v)),
        apply_cue(chs, f, cue).len() == 512,
        forall|j: int| 0 <= j < 512 && !(f.address <= j + 1 < f.address + f.capabilities@.len())
            ==> #[trigger] apply_cue(chs, f, cue)[j] == chs[j],
{
    lemma_cue_frame(chs, f, cue);
    lemma_cue_dimmer_level(chs, f, cue);
    lemma_cue_red_level(chs, f, cue);
    lemma_cue_green_level(chs, f, cue);
    lemma_cue_blue_level(chs, f, cue);
    lemma_cue_pan_level(chs, f, cue);
    lemma_cue_tilt_level(chs, f, cue);
    lemma_cue_strobe_level(chs, f, cue);
}

/// Whether channel `j` (counted from 0) is the first channel of fixture `f`
/// with capability `cap`.
pub open spec fn first_channel_is(f: FixtureEndpoint, cap: ChannelCapability, j: int) -> bool {
    first_index_of(f.capabilities@, cap) matches Some(i) && f.address + i - 1 == j
}

/// Whether channel `j` (counted from 0) is one the cue writes on fixture
/// `f`: the first channel of a capability the cue sets a level for.
pub open spec fn cue_writes_at(f: FixtureEndpoint, cue: CueLevels, j: int) -> bool {
    ||| first_channel_is(f, ChannelCapability::Dimmer, j)
    ||| cue.color is Some && first_channel_is(f, ChannelCapability::Red, j)
    ||| cue.color is Some && first_channel_is(f, ChannelCapability::Green, j)
    ||| cue.color is Some && first_channel_is(f, ChannelCapability::Blue, j)
    ||| cue.pan is Some && first_channel_is(f, ChannelCapability::Pan, j)
    ||| cue.tilt is Some && first_channel_is(f, ChannelCapability::Tilt, j)
    ||| cue.strobe is Some && first_channel_is(f, ChannelCapability::Strobe, j)
}

/// Writing a level for `cap` leaves every channel but the one it writes.
proof fn lemma_with_level_other(chs: Seq<u8>, f: FixtureEndpoint, cap: ChannelCapability, level: Option<u8>, j: int)
    requires
        chs.len() == 512,
        0 <= j < 512,
        !(level is Some && first_channel_is(f, cap, j)),
    ensures
        with_level(chs, f, cap, level)[j] == chs[j],
{
    reveal(with_level);
}

/// Writing a cue to a fixture changes no channel but those it writes.
pub proof fn law_cue_changes_only_its_channels(chs: Seq<u8>, f: FixtureEndpoint, cue: CueLevels)
    requires
        chs.len() == 512,
    ensures
        forall|j: int| 0 <= j < 512 && !cue_writes_at(f, cue, j) ==> #[trigger] apply_cue(chs, f, cue)[j] == chs[j],
{
    let c0 = chs;
    let c1 = with_level(c0, f, ChannelCapability::Dimmer, cue_level(cue, ChannelCapability::Dimmer));
    let c2 = with_level(c1, f, ChannelCapability::Red, cue_level(cue, ChannelCapability::Red));
    let c3 = with_level(c2, f, ChannelCapability::Green, cue_level(cue, ChannelCapability::Green));
    let c4 = with_level(c3, f, ChannelCapability::Blue, cue_level(cue, ChannelCapability::Blue));
    let c5 = with_level(c4, f, ChannelCapability::Pan, cue_level(cue, ChannelCapability::Pan));
    let c6 = with_level(c5, f, ChannelCapability::Tilt, cue_level(cue, ChannelCapability::Tilt));
    let c7 = with_level(c6, f, ChannelCapability::Strobe, cue_level(cue, ChannelCapability::Strobe));
    assert(apply_cue(chs, f, cue) == c7);
    lemma_with_level_len(c0, f, ChannelCapability::Dimmer, cue_level(cue, ChannelCapability::Dimmer));
    lemma_with_level_len(c1, f, ChannelCapability::Red, cue_level(cue, ChannelCapability::Red));
    lemma_with_level_len(c2, f, ChannelCapability::Green, cue_level(cue, ChannelCapability::Green));
    lemma_with_level_len(c3, f, ChannelCapability::Blue, cue_level(cue, ChannelCapability::Blue));
    lemma_with_level_len(c4, f, ChannelCapability::Pan, cue_level(cue, ChannelCapability::Pan));
    lemma_with_level_len(c5, f, ChannelCapability::Tilt, cue_level(cue, ChannelCapability::Tilt));
    lemma_with_level_len(c6, f, ChannelCapability::Strobe, cue_level(cue, ChannelCapability::Strobe));
    assert forall|j: int| 0 <= j < 512 && !cue_writes_at(f, cue, j) implies #[trigger] apply_cue(chs, f, cue)[j] == chs[j] by {
        lemma_with_level_other(c0, f, ChannelCapability::Dimmer, cue_level(cue, ChannelCapability::Dimmer), j);
        lemma_with_level_other(c1, f, ChannelCapability::Red, cue_level(cue, ChannelCapability::Red), j);
        lemma_with_level_other(c2, f, ChannelCapability::Green, cue_level(cue, ChannelCapability::Green), j);
        lemma_with_level_other(c3, f, ChannelCapability::Blue, cue_level(cue, ChannelCapability::Blue), j);
        lemma_with_level_other(c4, f, ChannelCapability::Pan, cue_level(cue, ChannelCapability::Pan), j);
        lemma_with_level_other(c5, f, ChannelCapability::Tilt, cue_level(cue, ChannelCapability::Tilt), j);
        lemma_with_level_other(c6, f, ChannelCapability::Strobe, cue_level(cue, ChannelCapability::Strobe), j);
    }
}

/// Every universe's channels are 512 levels.
proof fn lemma_universe_channels_len(fs: Seq<FixtureEndpoint>, u: u16, cue: CueLevels)
    ensures
        universe_channels(fs, u, cue).len() == 512,
    decreases fs.len(),
{
    if fs.len() > 0 {
        lemma_universe_channels_len(fs.drop_last(), u, cue);
        lemma_cue_frame(universe_channels(fs.drop_last(), u, cue), fs.last(), cue);
    }
}

/// Fixtures after the last one of universe `u` leave its channels alone.
proof fn lemma_universe_channels_skip(fs: Seq<FixtureEndpoint>, u: u16, cue: CueLevels, k: int)
    requires
        0 <= k < fs.len(),
        forall|m: int| k < m < fs.len() ==> #[trigger] fs[m].universe != u,
    ensures
        universe_channels(fs, u, cue) == universe_channels(fs.take(k + 1), u, cue),
    decreases fs.len(),
{
    if fs.len() > k + 1 {
        let prev = fs.drop_last();
        assert forall|m: int| k < m < prev.len() implies #[trigger] prev[m].universe != u by {
            assert(prev[m] == fs[m]);
        }
        lemma_universe_channels_skip(prev, u, cue, k);
        assert(prev.take(k + 1) =~= fs.take(k + 1));
    } else {
        assert(fs.take(k + 1) =~= fs);
    }
}

/// A channel of universe `u` that no addressed fixture of `u` is written on
/// stays at zero in that universe's frame.
pub proof fn law_unwritten_channels_stay_dark(fs: Seq<FixtureEndpoint>, u: u16, cue: CueLevels, j: int)
    requires
        0 <= j < 512,
        forall|m: int| 0 <= m < fs.len() && (#[trigger] fs[m]).universe == u ==> !cue_writes_at(fs[m], cue, j),
    ensures
        universe_channels(fs, u, cue)[j] == 0,
    decreases fs.len(),
{
    if fs.len() > 0 {
        let prev = fs.drop_last();
        assert forall|m: int| 0 <= m < prev.len() && (#[trigger] prev[m]).universe == u implies !cue_writes_at(prev[m], cue, j) by {
            assert(prev[m] == fs[m]);
        }
        law_unwritten_channels_stay_dark(prev, u, cue, j);
        lemma_universe_channels_len(prev, u, cue);
        if fs.last().universe == u {
            assert(fs[fs.len() - 1] == fs.last());
            law_cue_changes_only_its_channels(universe_channels(prev, u, cue), fs.last(), cue);
        }
    }
}

/// In the frame of universe `u`, the last fixture of `u` that the cue
/// addresses carries the cue's levels on its first channel of each
/// capability (when that channel lies in 1..512): the intensity on the
/// dimmer, the colour on red, green and blue, and the pan, tilt and strobe
/// levels. `fs` is the addressed fixtures, in order, and `k` the position of
/// that fixture.
pub proof fn law_frame_carries_cue_levels(fs: Seq<FixtureEndpoint>, u: u16, cue: CueLevels, k: int, f: FixtureEndpoint)
    requires
        0 <= k < fs.len(),
        fs[k] == f,
        f.universe == u,
        forall|m: int| k < m < fs.len() ==> #[trigger] fs[m].universe != u,
    ensures
        first_index_of(f.capabilities@, ChannelCapability::Dimmer) matches Some(i)
            ==> (1 <= f.address + i <= 512 ==> universe_channels(fs, u, cue)[f.address + i - 1] == cue.intensity),
        first_index_of(f.capabilities@, ChannelCapability::Red) matches Some(i) ==> (cue.color matches Some(c)
            ==> (1 <= f.address + i <= 512 ==> universe_channels(fs, u, cue)[f.address + i - 1] == c@[0])),
        first_index_of(f.capabilities@, ChannelCapability::Green) matches Some(i) ==> (cue.color matches Some(c)
            ==> (1 <= f.address + i <= 512 ==> universe_channels(fs, u, cue)[f.address + i - 1] == c@[1])),
        first_index_of(f.capabilities@, ChannelCapability::Blue) matches Some(i) ==> (cue.color matches Some(c)
            ==> (1 <= f.address + i <= 512 ==> universe_channels(fs, u, cue)[f.address + i - 1] == c@[2])),
        first_index_of(f.capabilities@, ChannelCapability::Pan) matches Some(i) ==> (cue.pan matches Some(v)
            ==> (1 <= f.address + i <= 512 ==> universe_channels(fs, u, cue)[f.address + i - 1] == v)),
        first_index_of(f.capabilities@, ChannelCapability::Tilt) matches Some(i) ==> (cue.tilt matches Some(v)
            ==> (1 <= f.address + i <= 512 ==> universe_channels(fs, u, cue)[f.address + i - 1] == v)),
        first_index_of(f.capabilities@, ChannelCapability::Strobe) matches Some(i) ==> (cue.strobe matches Some(v)
            ==> (1 <= f.address + i <= 512 ==> universe_channels(fs, u, cue)[f.address + i - 1] == v)),
{
    lemma_universe_channels_skip(fs, u, cue, k);
    let pre = fs.take(k + 1);
    assert(pre.drop_last() =~= fs.take(k));
    assert(pre.last() == f);
    lemma_universe_channels_len(fs.take(k), u, cue);
    law_cue_levels_reach_their_channels(universe_channels(fs.take(k), u, cue), f, cue);
}

/// A fixture whose channel numbers fit in a `u16`.
pub open spec fn addressable(f: FixtureEndpoint) -> bool {
    f.address + f.capabilities@.len() <= u16::MAX + 1
}

/// Position of the first fixture with identifier `id`, if any.
pub open spec fn first_fixture(fs: Seq<FixtureEndpoint>, id: Seq<char>) -> Option<int> {
    if exists|i: int| 0 <= i < fs.len() && fs[i].fixture_id@ == id
        && forall|j: int| 0 <= j < i ==> #[trigger] fs[j].fixture_id@ != id {
        Some(choose|i: int| 0 <= i < fs.len() && fs[i].fixture_id@ == id
            && forall|j: int| 0 <= j < i ==> #[trigger] fs[j].fixture_id@ != id)
    } else {
        None
    }
}

/// For each named identifier in turn, the first fixture with it, if any.
pub open spec fn named_fixtures(ids: Seq<String>, fs: Seq<FixtureEndpoint>) -> Seq<FixtureEndpoint>
    decreases ids.len(),
{
    if ids.len() == 0 {
        Seq::empty()
    } else {
        let prev = named_fixtures(ids.drop_last(), fs);
        match first_fixture(fs, ids.last()@) {
            Some(i) => prev.push(fs[i]),
            None => prev,
        }
    }
}

/// The fixtures a cue addresses: all when it names none.
pub open spec fn addressed(ids: Seq<String>, fs: Seq<FixtureEndpoint>) -> Seq<FixtureEndpoint> {
    if ids.len() == 0 {
        fs
    } else {
        named_fixtures(ids, fs)
    }
}

/// The distinct universes of `fs`, in the order they are first met.
pub open spec fn universe_order(fs: Seq<FixtureEndpoint>) -> Seq<u16>
    decreases fs.len(),
{
    if fs.len() == 0 {
        Seq::empty()
    } else {
        let prev = universe_order(fs.drop_last());
        if prev.contains(fs.last().universe) {
            prev
        } else {
            prev.push(fs.last().universe)
        }
    }
}

/// The channels of universe `u` once the cue is written to every fixture
/// of `fs` in that universe, in order, starting from all zero.
pub open spec fn universe_channels(fs: Seq<FixtureEndpoint>, u: u16, cue: CueLevels) -> Seq<u8>
    decreases fs.len(),
{
    if fs.len() == 0 {
        Seq::new(512, |i: int| 0u8)
    } else {
        let prev = universe_channels(fs.drop_last(), u, cue);
        if fs.last().universe == u {
            apply_cue(prev, fs.last(), cue)
        } else {
            prev
        }
    }
}

/// A universe is in the order exactly when some fixture is in it, and
/// the order names each universe once.
pub proof fn lemma_universe_order(fs: Seq<FixtureEndpoint>)
    ensures
        forall|u: u16| universe_order(fs).contains(u) <==> exists|i: int| 0 <= i < fs.len() && #[trigger] fs[i].universe == u,
        forall|a: int, b: int| 0 <= a < b < universe_order(fs).len() ==> universe_order(fs)[a] != universe_order(fs)[b],
    decreases fs.len(),
{
    if fs.len() > 0 {
        let prev = fs.drop_last();
        let x = fs.last().universe;
        lemma_universe_order(prev);
        let op = universe_order(prev);
        let of = universe_order(fs);
        assert(of == if op.contains(x) { op } else { op.push(x) });
        assert forall|u: u16| of.contains(u) implies exists|i: int| 0 <= i < fs.len() && #[trigger] fs[i].universe == u by {
            if op.contains(u) {
                let i = choose|i: int| 0 <= i < prev.len() && #[trigger] prev[i].universe == u;
                assert(fs[i].universe == u);
            } else {
                let k = choose|k: int| 0 <= k < of.len() && of[k] == u;
                if !op.contains(x) && k < op.len() {
                    assert(op[k] == u);
                }
                assert(fs[fs.len() - 1].universe == u);
            }
        }
        assert forall|u: u16| (exists|i: int| 0 <= i < fs.len() && #[trigger] fs[i].universe == u) implies of.contains(u) by {
            let i = choose|i: int| 0 <= i < fs.len() && #[trigger] fs[i].universe == u;
            if i < fs.len() - 1 {
                assert(prev[i].universe == u);
                assert(op.contains(u));
                let k = choose|k: int| 0 <= k < op.len() && op[k] == u;
                assert(of[k] == u);
            } else if op.contains(x) {
                assert(of == op);
            } else {
                assert(of[op.len() as int] == u);
            }
        }
    }
}

/// A universe no fixture is in keeps all its channels at zero.
pub proof fn lemma_untouched_universe(fs: Seq<FixtureEndpoint>, u: u16, cue: CueLevels)
    requires
        forall|i: int| 0 <= i < fs.len() ==> #[trigger] fs[i].universe != u,
    ensures
        universe_channels(fs, u, cue) == Seq::new(512, |i: int| 0u8),
    decreases fs.len(),
{
    if fs.len() > 0 {
        let prev = fs.drop_last();
        assert forall|i: int| 0 <= i < prev.len() implies #[trigger] prev[i].universe != u by {
            assert(prev[i] == fs[i]);
        }
        lemma_untouched_universe(prev, u, cue);
    }
}

/// Writes `level` to the first channel of `fixture` that has `cap`, as far
/// as there is a level and such a channel in 1..512.
fn set_level(frame: &mut DmxFrame, fixture: &FixtureEndpoint, cap: ChannelCapability, level: Option<u8>)
    requires
        addressable(*fixture),
    ensures
        final(frame).channels@ == with_level(old(frame).channels@, *fixture, cap, level),
        final(frame).universe == old(frame).universe,
        final(frame).sequence == old(frame).sequence,
{
    reveal(with_level);
    match level {
        Some(v) => match fixture.channel_for(cap) {
            Some(ch) => {
                let _ = frame.set_channel(ch, v);
            },
            None => {},
        },
        None => {},
    }
}

/// Writes the cue's levels to the channels of `fixture`.
pub fn apply_fixture_values(frame: &mut DmxFrame, fixture: &FixtureEndpoint, cue: &CueLevels)
    requires
        addressable(*fixture),
    ensures
        final(frame).channels@ == apply_cue(old(frame).channels@, *fixture, *cue),
        final(frame).universe == old(frame).universe,
        final(frame).sequence == old(frame).sequence,
{
    set_level(frame, fixture, ChannelCapability::Dimmer, Some(cue.intensity));
    let (r, g, b) = match cue.color {
        Some(c) => (Some(c[0]), Some(c[1]), Some(c[2])),
        None => (None, None, None),
    };
    set_level(frame, fixture, ChannelCapability::Red, r);
    set_level(frame, fixture, ChannelCapability::Green, g);
    set_level(frame, fixture, ChannelCapability::Blue, b);
    set_level(frame, fixture, ChannelCapability::Pan, cue.pan);
    set_level(frame, fixture, ChannelCapability::Tilt, cue.tilt);
    set_level(frame, fixture, ChannelCapability::Strobe, cue.strobe);
}

/// The fixtures `cue` addresses in `topology`.
fn select_fixtures<'a>(cue: &CueLevels, topology: &'a FixtureBusTopology) -> (r: Vec<&'a FixtureEndpoint>)
    ensures
        r@.map_values(|f: &FixtureEndpoint| *f) == addressed(cue.fixture_ids@, topology.fixtures@),
{
    let mut out: Vec<&FixtureEndpoint> = Vec::new();
    let ghost fs = topology.fixtures@;
    if cue.fixture_ids.len() == 0 {
        let mut i: usize = 0;
        while i < topology.fixtures.len()
            invariant
                fs == topology.fixtures@,
                i <= fs.len(),
                out@.map_values(|f: &FixtureEndpoint| *f) == fs.subrange(0, i as int),
            decreases fs.len() - i,
        {
            let ghost prev = out@;
            out.push(&topology.fixtures[i]);
            proof {
                assert(out@.map_values(|f: &FixtureEndpoint| *f) =~= prev.map_values(|f: &FixtureEndpoint| *f).push(fs[i as int]));
                assert(fs.subrange(0, i + 1) =~= fs.subrange(0, i as int).push(fs[i as int]));
            }
            i = i + 1;
        }
        proof {
            assert(fs.subrange(0, fs.len() as int) =~= fs);
        }
        return out;
    }
    let ghost ids = cue.fixture_ids@;
    let mut k: usize = 0;
    while k < cue.fixture_ids.len()
        invariant
            fs == topology.fixtures@,
            ids == cue.fixture_ids@,
            k <= ids.len(),
            out@.map_values(|f: &FixtureEndpoint| *f) == named_fixtures(ids.subrange(0, k as int), fs),
        decreases ids.len() - k,
    {
        proof {
            assert(ids.subrange(0, k + 1).drop_last() =~= ids.subrange(0, k as int));
        }
        let ghost prev = out@;
        match topology.find(cue.fixture_ids[k].as_str()) {
            Some(f) => {
                out.push(f);
                proof {
                    let id = ids[k as int]@;
                    let i = choose|i: int| 0 <= i < fs.len() && fs[i] == *f && f.fixture_id@ == id
                        && forall|j: int| 0 <= j < i ==> #[trigger] fs[j].fixture_id@ != id;
                    assert(first_fixture(fs, id) == Some(i)) by {
                        let w = choose|w: int| 0 <= w < fs.len() && fs[w].fixture_id@ == id
                            && forall|j: int| 0 <= j < w ==> #[trigger] fs[j].fixture_id@ != id;
                        if w < i {
                            assert(fs[w].fixture_id@ != id);
                        } else if w > i {
                            assert(fs[i].fixture_id@ != id);
                        }
                    }
                    assert(out@.map_values(|f: &FixtureEndpoint| *f) =~= prev.map_values(|f: &FixtureEndpoint| *f).push(fs[i]));
                }
            },
            None => {
                proof {
                    let id = ids[k as int]@;
                    assert(first_fixture(fs, id) is None);
                }
            },
        }
        k = k + 1;
    }
    proof {
        assert(ids.subrange(0, ids.len() as int) =~= ids);
    }
    out
}

/// Position of the frame of universe `u`, if there is one.
fn frame_index(frames: &Vec<DmxFrame>, u: u16) -> (r: Option<usize>)
    ensures
        r matches Some(k) ==> k < frames@.len() && frames@[k as int].universe == u,
        r is None ==> forall|k: int| 0 <= k < frames@.len() ==> #[trigger] frames@[k].universe != u,
{
    let mut k: usize = 0;
    while k < frames.len()
        invariant
            k <= frames@.len(),
            forall|q: int| 0 <= q < k ==> #[trigger] frames@[q].universe != u,
        decreases frames@.len() - k,
    {
        if frames[k].universe == u {
            return Some(k);
        }
        k = k + 1;
    }
    None
}

/// Translates `cue` against `topology`: every addressed fixture gets the
/// cue's levels in the frame of its universe, frames starting all zero.
/// The fixtures the cue addresses have channel numbers that fit in a `u16`;
/// the others are not looked at.
pub fn translate_cue(cue: &CueLevels, topology: &FixtureBusTopology) -> (t: CueTranslation)
    requires
        forall|i: int| 0 <= i < addressed(cue.fixture_ids@, topology.fixtures@).len()
            ==> addressable(#[trigger] addressed(cue.fixture_ids@, topology.fixtures@)[i]),
    ensures
        t.addressed_count == addressed(cue.fixture_ids@, topology.fixtures@).len(),
        t.frames@.len() == universe_order(addressed(cue.fixture_ids@, topology.fixtures@)).len(),
        forall|k: int| 0 <= k < t.frames@.len() ==> {
            let sel = addressed(cue.fixture_ids@, topology.fixtures@);
            &&& (#[trigger] t.frames@[k]).universe == universe_order(sel)[k]
            &&& t.frames@[k].sequence == 0
            &&& t.frames@[k].channels@ == universe_channels(sel, universe_order(sel)[k], *cue)
        },
{
    let fixtures = select_fixtures(cue, topology);
    let ghost sel = fixtures@.map_values(|f: &FixtureEndpoint| *f);
    let mut frames: Vec<DmxFrame> = Vec::new();
    let mut j: usize = 0;
    while j < fixtures.len()
        invariant
            sel == fixtures@.map_values(|f: &FixtureEndpoint| *f),
            forall|q: int| 0 <= q < sel.len() ==> addressable(#[trigger] sel[q]),
            j <= sel.len(),
            frames@.len() == universe_order(sel.subrange(0, j as int)).len(),
            forall|k: int| 0 <= k < frames@.len() ==> {
                let pre = sel.subrange(0, j as int);
                &&& (#[trigger] frames@[k]).universe == universe_order(pre)[k]
                &&& frames@[k].sequence == 0
                &&& frames@[k].channels@ == universe_channels(pre, universe_order(pre)[k], *cue)
            },
        decreases sel.len() - j,
    {
        let f = fixtures[j];
        let ghost pre = sel.subrange(0, j as int);
        let ghost post = sel.subrange(0, j + 1);
        proof {
            assert(post.drop_last() =~= pre);
            assert(post.last() == *f);
            lemma_universe_order(pre);
            lemma_universe_order(post);
        }
        match frame_index(&frames, f.universe) {
            Some(k) => {
                let mut fr = DmxFrame { universe: frames[k].universe, channels: frames[k].channels, sequence: frames[k].sequence };
                apply_fixture_values(&mut fr, f, cue);
                let ghost old_frames = frames@;
                frames.set(k, fr);
                proof {
                    assert(universe_order(pre).contains(f.universe)) by {
                        assert(universe_order(pre)[k as int] == f.universe);
                    }
                    assert(universe_order(post) == universe_order(pre));
                    assert forall|q: int| 0 <= q < frames@.len() implies {
                        &&& (#[trigger] frames@[q]).universe == universe_order(post)[q]
                        &&& frames@[q].sequence == 0
                        &&& frames@[q].channels@ == universe_channels(post, universe_order(post)[q], *cue)
                    } by {
                        if q != k {
                            assert(frames@[q] == old_frames[q]);
                            assert(universe_order(pre)[q] != universe_order(pre)[k as int]);
                        }
                    }
                }
            },
            None => {
                let mut fr = DmxFrame::new(f.universe);
                proof {
                    assert(!universe_order(pre).contains(f.universe)) by {
                        if universe_order(pre).contains(f.universe) {
                            let k = choose|k: int| 0 <= k < universe_order(pre).len() && universe_order(pre)[k] == f.universe;
                            assert(frames@[k].universe == f.universe);
                        }
                    }
                    assert forall|i: int| 0 <= i < pre.len() implies #[trigger] pre[i].universe != f.universe by {
                        if pre[i].universe == f.universe {
                            assert(universe_order(pre).contains(f.universe));
                        }
                    }
                    lemma_untouched_universe(pre, f.universe, *cue);
                }
                apply_fixture_values(&mut fr, f, cue);
                let ghost old_frames = frames@;
                frames.push(fr);
                proof {
                    assert(universe_order(post) == universe_order(pre).push(f.universe));
                    assert forall|q: int| 0 <= q < frames@.len() implies {
                        &&& (#[trigger] frames@[q]).universe == universe_order(post)[q]
                        &&& frames@[q].sequence == 0
                        &&& frames@[q].channels@ == universe_channels(post, universe_order(post)[q], *cue)
                    } by {
                        if q < old_frames.len() {
                            assert(frames@[q] == old_frames[q]);
                            assert(universe_order(pre)[q] != f.universe) by {
                                assert(universe_order(pre).contains(universe_order(pre)[q]));
                            }
                        }
                    }
                }
            },
        }
        j = j + 1;
    }
    proof {
        assert(sel.subrange(0, sel.len() as int) =~= sel);
    }
    CueTranslation { frames, addressed_count: fixtures.len() }
}

/// Every fixture a cue addresses is a fixture of the topology.
pub proof fn lemma_addressed_from(ids: Seq<String>, fs: Seq<FixtureEndpoint>, j: int)
    requires
        0 <= j < addressed(ids, fs).len(),
    ensures
        exists|i: int| 0 <= i < fs.len() && fs[i] == #[trigger] addressed(ids, fs)[j],
    decreases ids.len(),
{
    if ids.len() == 0 {
        assert(fs[j] == addressed(ids, fs)[j]);
    } else {
        lemma_named_from(ids, fs, j);
    }
}

/// Every named fixture is a fixture of the topology.
pub proof fn lemma_named_from(ids: Seq<String>, fs: Seq<FixtureEndpoint>, j: int)
    requires
        0 <= j < named_fixtures(ids, fs).len(),
    ensures
        exists|i: int| 0 <= i < fs.len() && fs[i] == #[trigger] named_fixtures(ids, fs)[j],
    decreases ids.len(),
{
    if ids.len() > 0 {
        let prev = named_fixtures(ids.drop_last(), fs);
        if j < prev.len() {
            lemma_named_from(ids.drop_last(), fs, j);
            let i = choose|i: int| 0 <= i < fs.len() && fs[i] == #[trigger] named_fixtures(ids.drop_last(), fs)[j];
            assert(fs[i] == named_fixtures(ids, fs)[j]);
        } else {
            match first_fixture(fs, ids.last()@) {
                Some(i) => {
                    assert(fs[i] == named_fixtures(ids, fs)[j]);
                },
                None => {},
            }
        }
    }
}

} // verus!
