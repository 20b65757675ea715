//! DMX-512 frame management.

use vstd::prelude::*;
use crate::text::{decimal, push_decimal};

verus! {

/// Number of channels in a DMX-512 universe.
pub const DMX_UNIVERSE_SIZE: usize = 512;

/// A single DMX universe frame: 512 channels of 0..=255 each.
#[derive(Debug, Clone)]
pub struct DmxFrame {
    /// Universe number.
    pub universe: u16,
    /// Channel data; channel `c` (1-based) is at index `c - 1`.
    pub channels: [u8; 512],
    /// Sequence counter (wraps after 255).
    pub sequence: u8,
}

/// A 1-based DMX channel number is addressable.
pub open spec fn valid_channel(channel: int) -> bool {
    1 <= channel <= 512
}

/// The message for a channel outside 1..512.
pub open spec fn channel_error_text(channel: u16) -> Seq<char> {
    "DMX channel "@ + decimal(channel as nat) + " out of range 1..512"@
}

/// The message for a range that leaves the universe.
pub open spec fn range_error_text(start: u16, end: nat) -> Seq<char> {
    "range "@ + decimal(start as nat) + ".."@ + decimal(end) + " exceeds DMX universe"@
}

fn channel_error(channel: u16) -> (s: String)
    ensures
        s@ == channel_error_text(channel),
{
    let mut s = String::from_str("DMX channel ");
    push_decimal(&mut s, channel as u64);
    s.append(" out of range 1..512");
    s
}

impl DmxFrame {
    /// The value of 1-based channel `channel`.
    pub open spec fn channel_value(self, channel: int) -> u8 {
        self.channels@[channel - 1]
    }

    /// A frame for `universe` with every channel at zero and sequence zero.
    pub fn new(universe: u16) -> (f: Self)
        ensures
            f.universe == universe,
            f.sequence == 0,
            f.channels@ == Seq::new(512, |i: int| 0u8),
    {
        let f = DmxFrame { universe, channels: [0u8; 512], sequence: 0 };
        assert(f.channels@ =~= Seq::new(512, |i: int| 0u8));
        f
    }

    /// Sets 1-based channel `channel` to `value`; channels outside 1..512 are refused.
    pub fn set_channel(&mut self, channel: u16, value: u8) -> (r: Result<(), String>)
        ensures
            r is Ok <==> valid_channel(channel as int),
            r is Ok ==> final(self).channels@ == old(self).channels@.update(channel - 1, value),
            r matches Err(e) ==> e@ == channel_error_text(channel) && final(self).channels@ == old(self).channels@,
            final(self).universe == old(self).universe,
            final(self).sequence == old(self).sequence,
    {
        if channel == 0 || channel as usize > DMX_UNIVERSE_SIZE {
            return Err(channel_error(channel));
        }
        let idx = (channel - 1) as usize;
        self.channels[idx] = value;
        Ok(())
    }

    /// The value of 1-based channel `channel`; channels outside 1..512 are refused.
    pub fn get_channel(&self, channel: u16) -> (r: Result<u8, String>)
        ensures
            r is Ok <==> valid_channel(channel as int),
            r matches Ok(v) ==> v == self.channel_value(channel as int),
            r matches Err(e) ==> e@ == channel_error_text(channel),
    {
        if channel == 0 || channel as usize > DMX_UNIVERSE_SIZE {
            return Err(channel_error(channel));
        }
        Ok(self.channels[(channel - 1) as usize])
    }

    /// Writes `values` to consecutive channels from 1-based `start`; a range that
    /// does not fit in 1..512 is refused and leaves the frame unchanged.
    pub fn set_range(&mut self, start: u16, values: &[u8]) -> (r: Result<(), String>)
        requires
            start as int + values@.len() <= usize::MAX,
        ensures
            r is Ok <==> (start >= 1 && start as int + values@.len() - 1 <= 512),
            r is Ok ==> final(self).channels@ == old(self).channels@.subrange(0, start - 1)
                + values@
                + old(self).channels@.subrange(start - 1 + values@.len(), 512),
            r matches Err(e) ==> e@ == range_error_text(start, (start + values@.len()) as nat)
                && final(self).channels@ == old(self).channels@,
            final(self).universe == old(self).universe,
            final(self).sequence == old(self).sequence,
    {
        let end = start as usize + values.len();
        if start == 0 || end - 1 > DMX_UNIVERSE_SIZE {
            let mut s = String::from_str("range ");
            push_decimal(&mut s, start as u64);
            s.append("..");
            push_decimal(&mut s, end as u64);
            s.append(" exceeds DMX universe");
            return Err(s);
        }
        let offset = (start - 1) as usize;
        let ghost before = self.channels@;
        let mut i: usize = 0;
        while i < values.len()
            invariant
                offset as int + values@.len() <= 512,
                offset == start - 1,
                i <= values@.len(),
                self.channels@.len() == 512,
                forall|k: int| 0 <= k < offset ==> self.channels@[k] == before[k],
                forall|k: int| 0 <= k < i ==> self.channels@[offset + k] == values@[k],
                forall|k: int| offset + i <= k < 512 ==> self.channels@[k] == before[k],
                self.universe == old(self).universe,
                self.sequence == old(self).sequence,
                before == old(self).channels@,
            decreases values@.len() - i,
        {
            self.channels[offset + i] = values[i];
            i = i + 1;
        }
        assert(self.channels@ =~= before.subrange(0, start - 1) + values@ + before.subrange(start - 1 + values@.len(), 512));
        Ok(())
    }

    /// Sets every channel to zero.
    pub fn blackout(&mut self)
        ensures
            final(self).channels@ == Seq::new(512, |i: int| 0u8),
            final(self).universe == old(self).universe,
            final(self).sequence == old(self).sequence,
    {
        let mut i: usize = 0;
        while i < DMX_UNIVERSE_SIZE
            invariant
                i <= 512,
                self.channels@.len() == 512,
                forall|k: int| 0 <= k < i ==> self.channels@[k] == 0u8,
                self.universe == old(self).universe,
                self.sequence == old(self).sequence,
            decreases 512 - i,
        {
            self.channels[i] = 0;
            i = i + 1;
        }
        assert(self.channels@ =~= Seq::new(512, |i: int| 0u8));
    }

    /// Advances the sequence counter, wrapping from 255 to 0.
    pub fn next_sequence(&mut self)
        ensures
            final(self).sequence == (if old(self).sequence == 255 { 0 } else { old(self).sequence + 1 }),
            final(self).channels@ == old(self).channels@,
            final(self).universe == old(self).universe,
    {
        self.sequence = self.sequence.wrapping_add(1);
    }
}

/// Fixture addressing range within a DMX universe.
#[derive(Debug, Clone)]
pub struct FixtureAddress {
    /// Fixture identifier.
    pub fixture_id: String,
    /// Universe number.
    pub universe: u16,
    /// Start channel (1-based).
    pub start_channel: u16,
    /// Number of channels the fixture occupies.
    pub channel_count: u16,
}


/// What `set_channel` writes is what a later `get_channel` of that channel
/// reads, and every other channel reads as before. `r` is what
/// `set_channel(channel, value)` returned and `g` what the later
/// `get_channel(c)` returned; the requirements are their contracts.
pub proof fn law_set_then_get(
    before: DmxFrame,
    after: DmxFrame,
    channel: u16,
    value: u8,
    r: Result<(), String>,
    c: u16,
    g: Result<u8, String>,
)
    requires
        r is Ok <==> valid_channel(channel as int),
        r is Ok ==> after.channels@ == before.channels@.update(channel - 1, value),
        r is Err ==> after.channels@ == before.channels@,
        g is Ok <==> valid_channel(c as int),
        g matches Ok(v) ==> v == after.channel_value(c as int),
    ensures
        r is Ok && c == channel ==> g == Ok::<u8, String>(value),
        c != channel && valid_channel(c as int) ==> (g matches Ok(v) && v == before.channel_value(c as int)),
        r is Err && valid_channel(c as int) ==> (g matches Ok(v) && v == before.channel_value(c as int)),
        !valid_channel(c as int) ==> g is Err,
{
}

} // verus!
