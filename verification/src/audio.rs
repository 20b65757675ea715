//! scsynth bridge: node and buffer bookkeeping, translation of audio actions
//! into OSC command sequences, server configuration and process lifecycle.

use std::collections::HashMap;
use vstd::prelude::*;
use crate::osc::{OscMessage, OscValue, ScynthCmd};
use crate::strmap::StrMap;
use crate::adapters::string_views;
use crate::text::{decimal, decimal_string, join2, str_eq};

verus! {

broadcast use vstd::std_specs::hash::group_hash_axioms;

/// Allocates scsynth node ids to actions (from 1000 upward) and buffer
/// numbers to nodes (from 0 upward).
pub struct NodeMapping {
    next_node_id: i32,
    map: StrMap<i32>,
    buffer_map: HashMap<i32, i32>,
    next_buffer_num: i32,
}

impl NodeMapping {
    /// Each active action to its node id.
    pub closed spec fn nodes_spec(&self) -> Map<Seq<char>, i32> {
        self.map@
    }

    /// The active actions and their node ids, in increasing action order.
    pub closed spec fn node_entries(&self) -> Seq<(String, i32)> {
        self.map.entries_spec()
    }

    /// Each node with a buffer to its buffer number.
    pub closed spec fn buffers_spec(&self) -> Map<i32, i32> {
        self.buffer_map@
    }

    /// The node id the next allocation hands out.
    pub closed spec fn next_node_spec(&self) -> i32 {
        self.next_node_id
    }

    /// The buffer number the next buffer allocation hands out.
    pub closed spec fn next_buffer_spec(&self) -> i32 {
        self.next_buffer_num
    }

    /// Actions occur once, in increasing order, and buffer numbers are not
    /// negative.
    pub closed spec fn wf(&self) -> bool {
        &&& self.map.wf()
        &&& self.next_buffer_num >= 0
    }

    /// An empty mapping: node ids start at 1000, buffer numbers at 0.
    pub fn new() -> (m: Self)
        ensures
            m.wf(),
            m.nodes_spec() == Map::<Seq<char>, i32>::empty(),
            m.node_entries().len() == 0,
            m.buffers_spec() == Map::<i32, i32>::empty(),
            m.next_node_spec() == 1000,
            m.next_buffer_spec() == 0,
    {
        NodeMapping { next_node_id: 1000, map: StrMap::new(), buffer_map: HashMap::new(), next_buffer_num: 0 }
    }

    /// Hands the next node id to `action_id`, replacing any id it had.
    pub fn allocate(&mut self, action_id: &str) -> (id: i32)
        requires
            old(self).wf(),
            old(self).next_node_spec() < i32::MAX,
        ensures
            final(self).wf(),
            node_step(*old(self), NodeCall::Allocate(action_id@, id), *final(self)),
            id == old(self).next_node_spec(),
            final(self).next_node_spec() == old(self).next_node_spec() + 1,
            final(self).nodes_spec() == old(self).nodes_spec().insert(action_id@, id),
            final(self).buffers_spec() == old(self).buffers_spec(),
            final(self).next_buffer_spec() == old(self).next_buffer_spec(),
    {
        let id = self.next_node_id;
        self.next_node_id = self.next_node_id + 1;
        match self.map.find(action_id) {
            Some(i) => {
                self.map.set_value(i, id);
            },
            None => {
                let _ = self.map.insert_new(String::from_str(action_id), id);
            },
        }
        id
    }

    /// The node id of `action_id`, if it is active.
    pub fn lookup(&self, action_id: &str) -> (r: Option<i32>)
        requires
            self.wf(),
        ensures
            r == (if self.nodes_spec().contains_key(action_id@) { Some(self.nodes_spec()[action_id@]) } else { None::<i32> }),
    {
        match self.map.get(action_id) {
            Some(id) => Some(*id),
            None => None,
        }
    }

    /// Forgets `action_id`, returning its node id.
    pub fn remove(&mut self, action_id: &str) -> (r: Option<i32>)
        requires
            old(self).wf(),
        ensures
            final(self).wf(),
            node_step(*old(self), NodeCall::Remove(action_id@, r), *final(self)),
            r == (if old(self).nodes_spec().contains_key(action_id@) { Some(old(self).nodes_spec()[action_id@]) } else { None::<i32> }),
            final(self).nodes_spec() == old(self).nodes_spec().remove(action_id@),
            final(self).buffers_spec() == old(self).buffers_spec(),
            final(self).next_node_spec() == old(self).next_node_spec(),
            final(self).next_buffer_spec() == old(self).next_buffer_spec(),
    {
        self.map.remove(action_id)
    }

    /// Hands the next buffer number to `node_id`, replacing any it had.
    pub fn allocate_buffer(&mut self, node_id: i32) -> (buf: i32)
        requires
            old(self).wf(),
            old(self).next_buffer_spec() < i32::MAX,
        ensures
            final(self).wf(),
            node_step(*old(self), NodeCall::AllocateBuffer(node_id, buf), *final(self)),
            buf == old(self).next_buffer_spec(),
            final(self).next_buffer_spec() == old(self).next_buffer_spec() + 1,
            final(self).buffers_spec() == old(self).buffers_spec().insert(node_id, buf),
            final(self).nodes_spec() == old(self).nodes_spec(),
            final(self).node_entries() == old(self).node_entries(),
            final(self).next_node_spec() == old(self).next_node_spec(),
    {
        let buf = self.next_buffer_num;
        self.next_buffer_num = self.next_buffer_num + 1;
        self.buffer_map.insert(node_id, buf);
        buf
    }

    /// The buffer number of `node_id`, if it has one.
    pub fn buffer_for_node(&self, node_id: i32) -> (r: Option<i32>)
        ensures
            r == (if self.buffers_spec().contains_key(node_id) { Some(self.buffers_spec()[node_id]) } else { None::<i32> }),
    {
        match self.buffer_map.get(&node_id) {
            Some(b) => Some(*b),
            None => None,
        }
    }

    /// Forgets the buffer of `node_id`, returning its number.
    pub fn remove_buffer(&mut self, node_id: i32) -> (r: Option<i32>)
        requires
            old(self).wf(),
        ensures
            final(self).wf(),
            node_step(*old(self), NodeCall::RemoveBuffer(node_id, r), *final(self)),
            r == (if old(self).buffers_spec().contains_key(node_id) { Some(old(self).buffers_spec()[node_id]) } else { None::<i32> }),
            final(self).buffers_spec() == old(self).buffers_spec().remove(node_id),
            final(self).nodes_spec() == old(self).nodes_spec(),
            final(self).node_entries() == old(self).node_entries(),
            final(self).next_node_spec() == old(self).next_node_spec(),
            final(self).next_buffer_spec() == old(self).next_buffer_spec(),
    {
        self.buffer_map.remove(&node_id)
    }

    /// The node id the next allocation hands out.
    pub fn next_node_id(&self) -> (n: i32)
        ensures
            n == self.next_node_spec(),
    {
        self.next_node_id
    }

    /// The buffer number the next buffer allocation hands out.
    pub fn next_buffer_num(&self) -> (n: i32)
        ensures
            n == self.next_buffer_spec(),
    {
        self.next_buffer_num
    }

    /// Number of active actions.
    pub fn active_count(&self) -> (n: usize)
        ensures
            n == self.node_entries().len(),
            self.wf() ==> n == self.nodes_spec().dom().len(),
    {
        self.map.len()
    }

    /// A well-formed mapping has one entry per active action, so the count of
    /// entries is the number of actions in `nodes_spec`.
    pub proof fn lemma_entries_count(&self)
        requires
            self.wf(),
        ensures
            self.nodes_spec().dom().finite(),
            self.node_entries().len() == self.nodes_spec().dom().len(),
    {
        crate::strmap::lemma_map_of_len(self.map.entries_spec());
    }

    /// The active actions, in increasing order.
    pub fn active_actions(&self) -> (r: Vec<&str>)
        ensures
            r@.map_values(|s: &str| s@) == self.node_entries().map_values(|e: (String, i32)| e.0@),
    {
        let mut out: Vec<&str> = Vec::new();
        let n = self.map.len();
        let mut i: usize = 0;
        while i < n
            invariant
                n == self.node_entries().len(),
                i <= n,
                out@.map_values(|s: &str| s@) == self.node_entries().map_values(|e: (String, i32)| e.0@).subrange(0, i as int),
            decreases n - i,
        {
            let e = self.map.entry(i);
            let ghost prev = out@;
            out.push(e.0.as_str());
            proof {
                assert(out@.map_values(|s: &str| s@) =~= prev.map_values(|s: &str| s@).push(e.0@));
                assert(self.node_entries().map_values(|e: (String, i32)| e.0@).subrange(0, i + 1)
                    =~= self.node_entries().map_values(|e: (String, i32)| e.0@).subrange(0, i as int).push(e.0@));
            }
            i = i + 1;
        }
        proof {
            assert(self.node_entries().map_values(|e: (String, i32)| e.0@).subrange(0, n as int)
                =~= self.node_entries().map_values(|e: (String, i32)| e.0@));
        }
        out
    }
}

/// A call on a node mapping, with the key it was given and what it returned.
pub enum NodeCall {
    /// `allocate(action)` returned `id`.
    Allocate(Seq<char>, i32),
    /// `remove(action)` returned `r`.
    Remove(Seq<char>, Option<i32>),
    /// `allocate_buffer(node)` returned `buf`.
    AllocateBuffer(i32, i32),
    /// `remove_buffer(node)` returned `r`.
    RemoveBuffer(i32, Option<i32>),
}

/// What the contract of each mutating call of `NodeMapping` says of the
/// mapping before (`m0`) and after (`m1`) it, and of what it returned.
pub open spec fn node_step(m0: NodeMapping, call: NodeCall, m1: NodeMapping) -> bool {
    match call {
        NodeCall::Allocate(a, id) => {
            &&& id == m0.next_node_spec()
            &&& m1.next_node_spec() == m0.next_node_spec() + 1
            &&& m1.nodes_spec() == m0.nodes_spec().insert(a, id)
            &&& m1.buffers_spec() == m0.buffers_spec()
            &&& m1.next_buffer_spec() == m0.next_buffer_spec()
        },
        NodeCall::Remove(a, r) => {
            &&& r == (if m0.nodes_spec().contains_key(a) { Some(m0.nodes_spec()[a]) } else { None::<i32> })
            &&& m1.nodes_spec() == m0.nodes_spec().remove(a)
            &&& m1.buffers_spec() == m0.buffers_spec()
            &&& m1.next_node_spec() == m0.next_node_spec()
            &&& m1.next_buffer_spec() == m0.next_buffer_spec()
        },
        NodeCall::AllocateBuffer(n, b) => {
            &&& b == m0.next_buffer_spec()
            &&& m1.next_buffer_spec() == m0.next_buffer_spec() + 1
            &&& m1.buffers_spec() == m0.buffers_spec().insert(n, b)
            &&& m1.nodes_spec() == m0.nodes_spec()
            &&& m1.next_node_spec() == m0.next_node_spec()
        },
        NodeCall::RemoveBuffer(n, r) => {
            &&& r == (if m0.buffers_spec().contains_key(n) { Some(m0.buffers_spec()[n]) } else { None::<i32> })
            &&& m1.buffers_spec() == m0.buffers_spec().remove(n)
            &&& m1.nodes_spec() == m0.nodes_spec()
            &&& m1.next_node_spec() == m0.next_node_spec()
            &&& m1.next_buffer_spec() == m0.next_buffer_spec()
        },
    }
}

/// How many of `calls` allocate a node.
pub open spec fn node_allocations(calls: Seq<NodeCall>) -> nat
    decreases calls.len(),
{
    if calls.len() == 0 {
        0
    } else {
        node_allocations(calls.drop_last()) + (if calls.last() is Allocate { 1nat } else { 0nat })
    }
}

/// How many of `calls` allocate a buffer.
pub open spec fn buffer_allocations(calls: Seq<NodeCall>) -> nat
    decreases calls.len(),
{
    if calls.len() == 0 {
        0
    } else {
        buffer_allocations(calls.drop_last()) + (if calls.last() is AllocateBuffer { 1nat } else { 0nat })
    }
}

/// Along a run of calls, each mapping's counters stand at their start plus
/// the allocations made so far.
proof fn lemma_counters_along(states: Seq<NodeMapping>, calls: Seq<NodeCall>, i: int)
    requires
        states.len() == calls.len() + 1,
        forall|k: int| 0 <= k < calls.len() ==> node_step(#[trigger] states[k], calls[k], states[k + 1]),
        0 <= i <= calls.len(),
    ensures
        states[i].next_node_spec() == states[0].next_node_spec() + node_allocations(calls.take(i)),
        states[i].next_buffer_spec() == states[0].next_buffer_spec() + buffer_allocations(calls.take(i)),
    decreases i,
{
    if i > 0 {
        lemma_counters_along(states, calls, i - 1);
        assert(calls.take(i).drop_last() =~= calls.take(i - 1));
        assert(calls.take(i).last() == calls[i - 1]);
        assert(node_step(states[i - 1], calls[i - 1], states[i]));
    } else {
        assert(calls.take(0) =~= Seq::<NodeCall>::empty());
    }
}

/// Node ids and buffer numbers are handed out one after another: over any
/// run of calls on a fresh mapping, the k-th node allocation returns
/// `1000 + k` and the k-th buffer allocation returns `k`, whatever other
/// calls come in between.
pub proof fn law_ids_handed_out_in_sequence(states: Seq<NodeMapping>, calls: Seq<NodeCall>)
    requires
        states.len() == calls.len() + 1,
        states[0].next_node_spec() == 1000,
        states[0].next_buffer_spec() == 0,
        forall|k: int| 0 <= k < calls.len() ==> node_step(#[trigger] states[k], calls[k], states[k + 1]),
    ensures
        forall|k: int| 0 <= k < calls.len() ==> (#[trigger] calls[k] matches NodeCall::Allocate(_, id)
            ==> id == 1000 + node_allocations(calls.take(k))),
        forall|k: int| 0 <= k < calls.len() ==> (#[trigger] calls[k] matches NodeCall::AllocateBuffer(_, b)
            ==> b == buffer_allocations(calls.take(k))),
        states.last().next_node_spec() == 1000 + node_allocations(calls),
        states.last().next_buffer_spec() == buffer_allocations(calls),
{
    assert forall|k: int| 0 <= k < calls.len() implies (#[trigger] calls[k] matches NodeCall::Allocate(_, id)
        ==> id == 1000 + node_allocations(calls.take(k))) by {
        lemma_counters_along(states, calls, k);
        assert(node_step(states[k], calls[k], states[k + 1]));
    }
    assert forall|k: int| 0 <= k < calls.len() implies (#[trigger] calls[k] matches NodeCall::AllocateBuffer(_, b)
        ==> b == buffer_allocations(calls.take(k))) by {
        lemma_counters_along(states, calls, k);
        assert(node_step(states[k], calls[k], states[k + 1]));
    }
    lemma_counters_along(states, calls, calls.len() as int);
    assert(calls.take(calls.len() as int) =~= calls);
}

/// Two to the power `k`.
pub open spec fn two_pow(k: nat) -> nat
    decreases k,
{
    if k == 0 {
        1
    } else {
        2 * two_pow((k - 1) as nat)
    }
}

/// Powers of two grow with the exponent.
pub proof fn lemma_two_pow_mono(a: nat, b: nat)
    requires
        a <= b,
    ensures
        1 <= two_pow(a) <= two_pow(b),
    decreases b,
{
    if b > 0 {
        if a < b {
            lemma_two_pow_mono(a, (b - 1) as nat);
        } else {
            lemma_two_pow_mono((a - 1) as nat, (b - 1) as nat);
        }
    }
}

/// Two to the power `a + b` is the product of the two powers.
pub proof fn lemma_two_pow_add(a: nat, b: nat)
    ensures
        two_pow(a + b) == two_pow(a) * two_pow(b),
    decreases b,
{
    if b == 0 {
        assert(two_pow(0) == 1);
        assert(a + b == a);
    } else {
        lemma_two_pow_add(a, (b - 1) as nat);
        assert((a + b - 1) as nat == a + (b - 1) as nat);
        assert(two_pow(a + b) == 2 * two_pow((a + b - 1) as nat));
        assert(two_pow(b) == 2 * two_pow((b - 1) as nat));
        assert(two_pow(a) * (2 * two_pow((b - 1) as nat)) == 2 * (two_pow(a) * two_pow((b - 1) as nat))) by (nonlinear_arith);
    }
}

/// The single-precision bits of a whole number `n` with `2^e <= n < 2^(e+1)`:
/// biased exponent `127 + e` and the 23 bits after the leading one. Up to
/// `e == 23` every bit fits; above, the `e - 23` low bits are dropped and the
/// mantissa rounds up when they are past half, or exactly half with an odd
/// mantissa (ties to even). A round-up that carries out of the mantissa
/// lands in the exponent, as the encoding intends.
pub open spec fn f32_bits_at(n: nat, e: nat) -> int {
    if e <= 23 {
        (127 + e) * two_pow(23) + (n - two_pow(e)) * two_pow((23 - e) as nat)
    } else {
        let d = two_pow((e - 23) as nat);
        let q = n / d;
        let r = n % d;
        let up = r > d / 2 || (r == d / 2 && q % 2 == 1);
        (127 + e) * two_pow(23) + (q - two_pow(23)) + (if up { 1int } else { 0int })
    }
}

/// Whether `bits` is the IEEE 754 single-precision encoding of the whole
/// number `n` (below 2^31) rounded to the nearest float, ties to even, as a
/// cast to `f32` does; exact below 2^24.
pub open spec fn is_f32_bits_of(n: nat, bits: u32) -> bool {
    if n == 0 {
        bits == 0
    } else {
        exists|e: nat| e <= 30 && #[trigger] two_pow(e) <= n < 2 * two_pow(e) && bits == f32_bits_at(n, e)
    }
}

/// The single-precision float bits of a whole number below 2^31, rounded
/// to nearest with ties to even.
pub fn int_f32_bits(n: u32) -> (bits: u32)
    requires
        n < 0x8000_0000,
    ensures
        is_f32_bits_of(n as nat, bits),
{
    if n == 0 {
        return 0;
    }
    proof {
        reveal_with_fuel(two_pow, 32);
    }
    let mut e: u32 = 0;
    let mut p: u32 = 1;
    while p <= n / 2
        invariant
            1 <= n < 0x8000_0000,
            e <= 30,
            p == two_pow(e as nat),
            p <= n,
            p >= 1,
            two_pow(30) == 0x4000_0000,
        decreases n - p,
    {
        proof {
            assert(two_pow((e + 1) as nat) == 2 * two_pow(e as nat));
            if e == 30 {
                assert(p == 0x4000_0000);
            }
        }
        p = p * 2;
        e = e + 1;
    }
    proof {
        assert(two_pow(e as nat) <= n < 2 * two_pow(e as nat));
        assert(two_pow(23) == 0x80_0000);
    }
    if e <= 23 {
        let mut m: u32 = n - p;
        let mut k: u32 = e;
        proof {
            assert(two_pow(0) == 1);
            assert((n - p) * two_pow(0) == n - p);
            assert forall|j: nat| j <= 23 implies two_pow(j) <= 0x80_0000 by {
                lemma_two_pow_mono(j, 23);
            }
        }
        while k < 23
            invariant
                e <= k <= 23,
                p == two_pow(e as nat),
                n < 2 * p,
                m == (n - p) * two_pow((k - e) as nat),
                m < two_pow(k as nat),
                two_pow(23) == 0x80_0000,
                forall|j: nat| j <= 23 ==> two_pow(j) <= 0x80_0000,
            decreases 23 - k,
        {
            proof {
                assert(two_pow((k + 1 - e) as nat) == 2 * two_pow((k - e) as nat));
                assert(two_pow((k + 1) as nat) == 2 * two_pow(k as nat));
                assert(m * 2 == (n - p) * two_pow((k + 1 - e) as nat)) by (nonlinear_arith)
                    requires
                        m == (n - p) * two_pow((k - e) as nat),
                        two_pow((k + 1 - e) as nat) == 2 * two_pow((k - e) as nat),
                ;
                assert(two_pow(k as nat) <= 0x80_0000);
            }
            m = m * 2;
            k = k + 1;
        }
        proof {
            assert(m < 0x80_0000);
        }
        let bits = (127 + e) * 0x80_0000 + m;
        proof {
            assert(bits == f32_bits_at(n as nat, e as nat));
        }
        bits
    } else {
        let s: u32 = e - 23;
        let mut d: u32 = 1;
        let mut k: u32 = 0;
        while k < s
            invariant
                k <= s,
                s <= 7,
                d == two_pow(k as nat),
                d <= 128,
                two_pow(7) == 128,
            decreases s - k,
        {
            proof {
                assert(two_pow((k + 1) as nat) == 2 * two_pow(k as nat));
                lemma_two_pow_mono((k + 1) as nat, 7);
            }
            d = d * 2;
            k = k + 1;
        }
        proof {
            lemma_two_pow_add(23, s as nat);
            assert(23 + s == e);
            assert(p == 0x80_0000 * d);
        }
        let q = n / d;
        let r = n % d;
        let h = d / 2;
        proof {
            assert(0x80_0000 <= q < 0x100_0000) by (nonlinear_arith)
                requires
                    p == 0x80_0000 * d,
                    p <= n,
                    n < 2 * p,
                    d >= 1,
                    q == n / d,
            ;
        }
        let up: u32 = if r > h || (r == h && q % 2 == 1) { 1 } else { 0 };
        let bits = (127 + e) * 0x80_0000 + (q - 0x80_0000) + up;
        proof {
            assert(bits == f32_bits_at(n as nat, e as nat));
        }
        bits
    }
}

/// The kind of work an audio action asks for, from its operation name.
#[derive(Debug, Clone, PartialEq, Eq)]
pub enum AudioPath {
    /// Load a buffer and play it.
    AssetPlayback,
    /// Create a synth node and set its parameters.
    SynthRender,
    /// Free a running node and its buffer.
    Stop,
    /// Left to an external adapter (MIDI instruments and the like).
    DeferToAdapter,
    /// An operation name not recognised.
    Unknown(String),
}

/// The path an operation name selects.
pub open spec fn spec_audio_path(op: Seq<char>) -> AudioPath {
    if op == "play"@ || op == "play_asset"@ || op == "asset_playback"@ || op == "loop"@ {
        AudioPath::AssetPlayback
    } else if op == "synth"@ || op == "synth_render"@ || op == "render"@ || op == "gen"@ {
        AudioPath::SynthRender
    } else if op == "stop"@ || op == "free"@ || op == "kill"@ {
        AudioPath::Stop
    } else if op == "midi"@ || op == "midi_to_instrument"@ || op == "adapter"@ {
        AudioPath::DeferToAdapter
    } else {
        AudioPath::Unknown(arbitrary())
    }
}

/// Whether `p` is the path that `op` selects (an unknown path carries `op`).
pub open spec fn path_of(op: Seq<char>, p: AudioPath) -> bool {
    match spec_audio_path(op) {
        AudioPath::Unknown(_) => p matches AudioPath::Unknown(s) && s@ == op,
        other => p == other,
    }
}

impl AudioPath {
    /// Classifies an operation name.
    pub fn from_op(op: &str) -> (p: Self)
        ensures
            path_of(op@, p),
    {
        if str_eq(op, "play") || str_eq(op, "play_asset") || str_eq(op, "asset_playback") || str_eq(op, "loop") {
            AudioPath::AssetPlayback
        } else if str_eq(op, "synth") || str_eq(op, "synth_render") || str_eq(op, "render") || str_eq(op, "gen") {
            AudioPath::SynthRender
        } else if str_eq(op, "stop") || str_eq(op, "free") || str_eq(op, "kill") {
            AudioPath::Stop
        } else if str_eq(op, "midi") || str_eq(op, "midi_to_instrument") || str_eq(op, "adapter") {
            AudioPath::DeferToAdapter
        } else {
            AudioPath::Unknown(String::from_str(op))
        }
    }
}

/// OSC commands for one audio action, ready for scsynth.
#[derive(Debug)]
pub struct CommandSequence {
    pub action_id: String,
    pub path: AudioPath,
    pub messages: Vec<OscMessage>,
}

/// The address and values of each message.
pub open spec fn parts_of(ms: Seq<OscMessage>) -> Seq<(Seq<char>, Seq<OscValue>)> {
    ms.map_values(|m: OscMessage| m.parts())
}

/// Translates audio actions into scsynth OSC command sequences, keeping
/// the node and buffer bookkeeping.
pub struct CommandTranslator {
    mapping: NodeMapping,
    default_playback_def: String,
}

/// Name of the playback synth definition.
pub open spec fn playback_def() -> Seq<char> {
    "vidodo_playbuf"@
}

/// Messages that play `asset` on `node` from buffer `buf`, then set the
/// buffer number and, when given, the amplitude.
pub open spec fn playback_messages(node: i32, buf: i32, asset: Seq<char>, amp_bits: Option<u32>, buf_bits: u32)
    -> Seq<(Seq<char>, Seq<OscValue>)>
{
    let base = seq![
        ("/b_allocRead"@, seq![OscValue::Int(buf), OscValue::Str(asset)]),
        ("/s_new"@, seq![OscValue::Str(playback_def()), OscValue::Int(node), OscValue::Int(0), OscValue::Int(1)]),
        ("/n_set"@, seq![OscValue::Int(node), OscValue::Str("bufnum"@), OscValue::Float(buf_bits)]),
    ];
    match amp_bits {
        Some(a) => base.push(("/n_set"@, seq![OscValue::Int(node), OscValue::Str("amp"@), OscValue::Float(a)])),
        None => base,
    }
}

/// Messages that create the layer's own synth on `node` and, when given,
/// set its amplitude.
pub open spec fn render_messages(node: i32, layer_id: Seq<char>, amp_bits: Option<u32>) -> Seq<(Seq<char>, Seq<OscValue>)> {
    let base = seq![("/s_new"@, seq![OscValue::Str("vidodo_"@ + layer_id), OscValue::Int(node), OscValue::Int(0), OscValue::Int(1)])];
    match amp_bits {
        Some(a) => base.push(("/n_set"@, seq![OscValue::Int(node), OscValue::Str("amp"@), OscValue::Float(a)])),
        None => base,
    }
}

/// What translating one action does to the bookkeeping, from `m0` to
/// `m1`, and which messages it gives: see `CommandTranslator::translate`.
pub open spec fn translation(
    m0: NodeMapping,
    m1: NodeMapping,
    layer_id: Seq<char>,
    op: Seq<char>,
    target_asset_id: Option<Seq<char>>,
    amp_bits: Option<u32>,
    messages: Seq<OscMessage>,
) -> bool {
    let node = m0.next_node_spec();
    let buf = m0.next_buffer_spec();
    match spec_audio_path(op) {
        AudioPath::AssetPlayback => {
            &&& m1.nodes_spec() == m0.nodes_spec().insert(layer_id, node)
            &&& m1.buffers_spec() == m0.buffers_spec().insert(node, buf)
            &&& m1.next_node_spec() == node + 1
            &&& m1.next_buffer_spec() == buf + 1
            &&& exists|bb: u32| #[trigger] is_f32_bits_of(buf as nat, bb) && parts_of(messages) == playback_messages(
                node,
                buf,
                match target_asset_id { Some(a) => a, None => "unknown.wav"@ },
                amp_bits,
                bb,
            )
        },
        AudioPath::SynthRender => {
            &&& m1.nodes_spec() == m0.nodes_spec().insert(layer_id, node)
            &&& m1.buffers_spec() == m0.buffers_spec()
            &&& m1.next_node_spec() == node + 1
            &&& m1.next_buffer_spec() == buf
            &&& parts_of(messages) == render_messages(node, layer_id, amp_bits)
        },
        AudioPath::Stop => {
            &&& m1.nodes_spec() == m0.nodes_spec().remove(layer_id)
            &&& m1.next_node_spec() == node
            &&& m1.next_buffer_spec() == buf
            &&& if m0.nodes_spec().contains_key(layer_id) {
                let n = m0.nodes_spec()[layer_id];
                &&& m1.buffers_spec() == m0.buffers_spec().remove(n)
                &&& if m0.buffers_spec().contains_key(n) {
                    parts_of(messages) == seq![
                        ("/n_free"@, seq![OscValue::Int(n)]),
                        ("/b_free"@, seq![OscValue::Int(m0.buffers_spec()[n])]),
                    ]
                } else {
                    parts_of(messages) == seq![("/n_free"@, seq![OscValue::Int(n)])]
                }
            } else {
                &&& m1.buffers_spec() == m0.buffers_spec()
                &&& messages.len() == 0
            }
        },
        _ => {
            &&& m1 == m0
            &&& messages.len() == 0
        },
    }
}

impl CommandTranslator {
    /// The node and buffer bookkeeping.
    pub closed spec fn mapping_spec(&self) -> NodeMapping {
        self.mapping
    }

    /// The bookkeeping is well formed and the playback definition is fixed.
    pub closed spec fn wf(&self) -> bool {
        &&& self.mapping.wf()
        &&& self.default_playback_def@ == playback_def()
    }

    /// A translator with empty bookkeeping.
    pub fn new() -> (t: Self)
        ensures
            t.wf(),
            t.mapping_spec().nodes_spec() == Map::<Seq<char>, i32>::empty(),
            t.mapping_spec().buffers_spec() == Map::<i32, i32>::empty(),
            t.mapping_spec().next_node_spec() == 1000,
            t.mapping_spec().next_buffer_spec() == 0,
    {
        CommandTranslator { mapping: NodeMapping::new(), default_playback_def: String::from_str("vidodo_playbuf") }
    }

    /// Translates one audio action. `amp_bits` is the linear amplitude for
    /// the action's gain, as the bits of an `f32`, when a gain was given.
    ///
    /// Playback allocates a node for the layer and a buffer for the node,
    /// loads the asset ("unknown.wav" when none is named), starts the
    /// playback synth and sets its buffer and amplitude. Rendering allocates
    /// a node and starts the layer's own synth. Stopping frees the layer's
    /// node and that node's buffer, as far as they exist. Other operations
    /// give no messages.
    pub fn translate(
        &mut self,
        layer_id: &str,
        op: &str,
        target_asset_id: Option<&str>,
        amp_bits: Option<u32>,
        duration_beats: Option<u32>,
    ) -> (c: CommandSequence)
        requires
            old(self).wf(),
            spec_audio_path(op@) is AssetPlayback || spec_audio_path(op@) is SynthRender
                ==> old(self).mapping_spec().next_node_spec() < i32::MAX,
            spec_audio_path(op@) is AssetPlayback ==> old(self).mapping_spec().next_buffer_spec() < i32::MAX,
        ensures
            final(self).wf(),
            c.action_id@ == layer_id@,
            path_of(op@, c.path),
            translation(old(self).mapping_spec(), final(self).mapping_spec(), layer_id@, op@,
                match target_asset_id { Some(a) => Some(a@), None => None::<Seq<char>> }, amp_bits, c.messages@),
    {
        let path = AudioPath::from_op(op);
        let messages = match &path {
            AudioPath::AssetPlayback => self.translate_asset_playback(layer_id, target_asset_id, amp_bits),
            AudioPath::SynthRender => self.translate_synth_render(layer_id, amp_bits),
            AudioPath::Stop => self.translate_stop(layer_id),
            AudioPath::DeferToAdapter => Vec::new(),
            AudioPath::Unknown(_) => Vec::new(),
        };
        CommandSequence { action_id: String::from_str(layer_id), path, messages }
    }

    fn translate_asset_playback(&mut self, layer_id: &str, target_asset_id: Option<&str>, amp_bits: Option<u32>) -> (ms: Vec<OscMessage>)
        requires
            old(self).wf(),
            old(self).mapping_spec().next_node_spec() < i32::MAX,
            old(self).mapping_spec().next_buffer_spec() < i32::MAX,
        ensures
            final(self).wf(),
            ({
                let m0 = old(self).mapping_spec();
                let m1 = final(self).mapping_spec();
                let node = m0.next_node_spec();
                let buf = m0.next_buffer_spec();
                &&& m1.nodes_spec() == m0.nodes_spec().insert(layer_id@, node)
                &&& m1.buffers_spec() == m0.buffers_spec().insert(node, buf)
                &&& m1.next_node_spec() == node + 1
                &&& m1.next_buffer_spec() == buf + 1
                &&& exists|bb: u32| #[trigger] is_f32_bits_of(buf as nat, bb) && parts_of(ms@) == playback_messages(
                    node,
                    buf,
                    match target_asset_id { Some(a) => a@, None => "unknown.wav"@ },
                    amp_bits,
                    bb,
                )
            }),
    {
        let node_id = self.mapping.allocate(layer_id);
        let buf_num = self.mapping.allocate_buffer(node_id);
        let asset_path: &str = match target_asset_id {
            Some(a) => a,
            None => "unknown.wav",
        };
        let buf_bits = int_f32_bits(buf_num as u32);
        let mut cmds = vec![
            ScynthCmd::buffer_alloc_read(buf_num, asset_path),
            ScynthCmd::synth_new(self.default_playback_def.as_str(), node_id, 0, 1),
        ];
        cmds.push(ScynthCmd::node_set(node_id, "bufnum", buf_bits));
        match amp_bits {
            Some(a) => {
                cmds.push(ScynthCmd::node_set(node_id, "amp", a));
            },
            None => {},
        }
        proof {
            assert(is_f32_bits_of(buf_num as nat, buf_bits));
            assert(parts_of(cmds@) =~= playback_messages(node_id, buf_num, asset_path@, amp_bits, buf_bits));
        }
        cmds
    }

    fn translate_synth_render(&mut self, layer_id: &str, amp_bits: Option<u32>) -> (ms: Vec<OscMessage>)
        requires
            old(self).wf(),
            old(self).mapping_spec().next_node_spec() < i32::MAX,
        ensures
            final(self).wf(),
            ({
                let m0 = old(self).mapping_spec();
                let m1 = final(self).mapping_spec();
                let node = m0.next_node_spec();
                &&& m1.nodes_spec() == m0.nodes_spec().insert(layer_id@, node)
                &&& m1.buffers_spec() == m0.buffers_spec()
                &&& m1.next_node_spec() == node + 1
                &&& m1.next_buffer_spec() == m0.next_buffer_spec()
                &&& parts_of(ms@) == render_messages(node, layer_id@, amp_bits)
            }),
    {
        let node_id = self.mapping.allocate(layer_id);
        let def_name = join2("vidodo_", layer_id);
        let mut cmds = vec![ScynthCmd::synth_new(def_name.as_str(), node_id, 0, 1)];
        match amp_bits {
            Some(a) => {
                cmds.push(ScynthCmd::node_set(node_id, "amp", a));
            },
            None => {},
        }
        proof {
            assert(parts_of(cmds@) =~= render_messages(node_id, layer_id@, amp_bits));
        }
        cmds
    }

    fn translate_stop(&mut self, layer_id: &str) -> (ms: Vec<OscMessage>)
        requires
            old(self).wf(),
        ensures
            final(self).wf(),
            ({
                let m0 = old(self).mapping_spec();
                let m1 = final(self).mapping_spec();
                &&& m1.nodes_spec() == m0.nodes_spec().remove(layer_id@)
                &&& m1.next_node_spec() == m0.next_node_spec()
                &&& m1.next_buffer_spec() == m0.next_buffer_spec()
                &&& if m0.nodes_spec().contains_key(layer_id@) {
                    let n = m0.nodes_spec()[layer_id@];
                    &&& m1.buffers_spec() == m0.buffers_spec().remove(n)
                    &&& if m0.buffers_spec().contains_key(n) {
                        parts_of(ms@) == seq![
                            ("/n_free"@, seq![OscValue::Int(n)]),
                            ("/b_free"@, seq![OscValue::Int(m0.buffers_spec()[n])]),
                        ]
                    } else {
                        parts_of(ms@) == seq![("/n_free"@, seq![OscValue::Int(n)])]
                    }
                } else {
                    &&& m1.buffers_spec() == m0.buffers_spec()
                    &&& ms@.len() == 0
                }
            }),
    {
        let mut cmds: Vec<OscMessage> = Vec::new();
        match self.mapping.remove(layer_id) {
            Some(node_id) => {
                cmds.push(ScynthCmd::node_free(node_id));
                match self.mapping.remove_buffer(node_id) {
                    Some(buf_num) => {
                        cmds.push(ScynthCmd::buffer_free(buf_num));
                        proof {
                            assert(parts_of(cmds@) =~= seq![
                                ("/n_free"@, seq![OscValue::Int(node_id)]),
                                ("/b_free"@, seq![OscValue::Int(buf_num)]),
                            ]);
                        }
                    },
                    None => {
                        proof {
                            assert(parts_of(cmds@) =~= seq![("/n_free"@, seq![OscValue::Int(node_id)])]);
                        }
                    },
                }
            },
            None => {},
        }
        cmds
    }

    /// The node and buffer bookkeeping.
    pub fn mapping(&self) -> (m: &NodeMapping)
        ensures
            *m == self.mapping_spec(),
    {
        &self.mapping
    }

    /// The node and buffer bookkeeping, for changes by the caller.
    pub fn mapping_mut(&mut self) -> (m: &mut NodeMapping)
        requires
            old(self).wf(),
        ensures
            *m == old(self).mapping_spec(),
            final(self).mapping_spec() == *final(m),
            final(self).wf() == final(m).wf(),
    {
        &mut self.mapping
    }
}


impl Default for CommandTranslator {
    /// A translator with empty bookkeeping.
    fn default() -> (t: Self)
        ensures
            t.wf(),
            t.mapping_spec().nodes_spec() == Map::<Seq<char>, i32>::empty(),
            t.mapping_spec().buffers_spec() == Map::<i32, i32>::empty(),
            t.mapping_spec().next_node_spec() == 1000,
            t.mapping_spec().next_buffer_spec() == 0,
    {
        CommandTranslator::new()
    }
}

/// State of an action sent to scsynth.
#[derive(Debug, Clone, Copy, PartialEq, Eq, Structural)]
pub enum ActionStatus {
    /// Sent, waiting for an acknowledgement.
    Pending,
    /// `/done` received.
    Loaded,
    /// `/fail` received, or no answer in time.
    Failed,
}

/// Health of the scsynth backend.
#[derive(Debug, Clone, Copy, PartialEq, Eq, Structural)]
pub enum ScynthHealth {
    /// The server answers normally.
    Healthy,
    /// No status reply within the timeout.
    Degraded,
    /// The server is confirmed unreachable.
    Offline,
}

/// Configuration of the scsynth process. The binary is named by a path
/// string; the process itself is started outside the library.
#[derive(Debug, Clone)]
pub struct ScynthConfig {
    pub binary_path: String,
    pub port: u16,
    pub max_nodes: u32,
    pub num_audio_bus_channels: u32,
    pub num_control_bus_channels: u32,
    pub block_size: u32,
    pub sample_rate: u32,
    pub num_output_channels: u32,
    pub num_input_channels: u32,
    pub max_restart_attempts: u32,
}

impl Default for ScynthConfig {
    /// The stock configuration: `scsynth` from the path on UDP port 57110,
    /// 1024 nodes, 128 audio and 4096 control buses, blocks of 64 samples at
    /// 44100 Hz, two outputs, no inputs, three restart attempts.
    fn default() -> (c: Self)
        ensures
            c.binary_path@ == "scsynth"@,
            c.port == 57110,
            c.max_nodes == 1024,
            c.num_audio_bus_channels == 128,
            c.num_control_bus_channels == 4096,
            c.block_size == 64,
            c.sample_rate == 44100,
            c.num_output_channels == 2,
            c.num_input_channels == 0,
            c.max_restart_attempts == 3,
    {
        ScynthConfig {
            binary_path: String::from_str("scsynth"),
            port: 57110,
            max_nodes: 1024,
            num_audio_bus_channels: 128,
            num_control_bus_channels: 4096,
            block_size: 64,
            sample_rate: 44100,
            num_output_channels: 2,
            num_input_channels: 0,
            max_restart_attempts: 3,
        }
    }
}

/// The command line scsynth is started with for `c`.
pub open spec fn spec_build_args(c: ScynthConfig) -> Seq<Seq<char>> {
    seq![
        "-u"@, decimal(c.port as nat),
        "-a"@, decimal(c.num_audio_bus_channels as nat),
        "-c"@, decimal(c.num_control_bus_channels as nat),
        "-z"@, decimal(c.block_size as nat),
        "-S"@, decimal(c.sample_rate as nat),
        "-o"@, decimal(c.num_output_channels as nat),
        "-i"@, decimal(c.num_input_channels as nat),
        "-n"@, decimal(c.max_nodes as nat),
    ]
}

/// The command-line arguments scsynth is started with.
pub fn build_args(config: &ScynthConfig) -> (args: Vec<String>)
    ensures
        string_views(args@) == spec_build_args(*config),
{
    let args = vec![
        String::from_str("-u"), decimal_string(config.port as u64),
        String::from_str("-a"), decimal_string(config.num_audio_bus_channels as u64),
        String::from_str("-c"), decimal_string(config.num_control_bus_channels as u64),
        String::from_str("-z"), decimal_string(config.block_size as u64),
        String::from_str("-S"), decimal_string(config.sample_rate as u64),
        String::from_str("-o"), decimal_string(config.num_output_channels as u64),
        String::from_str("-i"), decimal_string(config.num_input_channels as u64),
        String::from_str("-n"), decimal_string(config.max_nodes as u64),
    ];
    proof {
        assert(string_views(args@) =~= spec_build_args(*config));
    }
    args
}

/// Status of the scsynth process.
#[derive(Debug, Clone, Copy, PartialEq, Eq, Structural)]
pub enum ProcessStatus {
    /// Not started yet.
    NotStarted,
    /// Running and responsive.
    Running,
    /// Exited unexpectedly.
    Crashed,
    /// Shut down on request.
    Stopped,
    /// Being restarted.
    Restarting,
}

/// Error text when the restart budget is spent.
pub open spec fn restart_error(max_attempts: u32) -> Seq<char> {
    "exceeded max restart attempts ("@ + decimal(max_attempts as nat) + ")"@
}

/// The decisions of the scsynth process manager: its status and how many
/// restarts were made since the last successful boot. The manager reports
/// what happened to the process; the lifecycle says what to do next.
pub struct ProcessLifecycle {
    status: ProcessStatus,
    restart_count: u32,
}

impl ProcessLifecycle {
    /// Current status.
    pub closed spec fn status_spec(&self) -> ProcessStatus {
        self.status
    }

    /// Restarts since the last successful boot.
    pub closed spec fn restarts_spec(&self) -> u32 {
        self.restart_count
    }

    /// Not started, no restarts.
    pub fn new() -> (l: Self)
        ensures
            l.status_spec() == ProcessStatus::NotStarted,
            l.restarts_spec() == 0,
    {
        ProcessLifecycle { status: ProcessStatus::NotStarted, restart_count: 0 }
    }

    /// Whether a boot request has to start a process: not while one runs.
    pub fn needs_boot(&self) -> (b: bool)
        ensures
            b == (self.status_spec() != ProcessStatus::Running),
    {
        self.status != ProcessStatus::Running
    }

    /// The process was started: running, and the restart budget is renewed.
    pub fn booted(&mut self)
        ensures
            final(self).status_spec() == ProcessStatus::Running,
            final(self).restarts_spec() == 0,
    {
        self.status = ProcessStatus::Running;
        self.restart_count = 0;
    }

    /// The process was found to have exited.
    pub fn exited(&mut self)
        ensures
            final(self).status_spec() == ProcessStatus::Crashed,
            final(self).restarts_spec() == old(self).restarts_spec(),
    {
        self.status = ProcessStatus::Crashed;
    }

    /// Asks to restart: refused once `max_attempts` restarts were made since
    /// the last boot; otherwise counts the attempt and marks the process as
    /// restarting, after which the manager boots it again.
    pub fn begin_restart(&mut self, max_attempts: u32) -> (r: Result<(), String>)
        ensures
            old(self).restarts_spec() >= max_attempts ==> (r matches Err(e) && e@ == restart_error(max_attempts)
                && *final(self) == *old(self)),
            old(self).restarts_spec() < max_attempts ==> (r is Ok
                && final(self).status_spec() == ProcessStatus::Restarting
                && final(self).restarts_spec() == old(self).restarts_spec() + 1),
    {
        if self.restart_count >= max_attempts {
            let mut e = String::from_str("exceeded max restart attempts (");
            crate::text::push_decimal(&mut e, max_attempts as u64);
            e.append(")");
            return Err(e);
        }
        self.status = ProcessStatus::Restarting;
        self.restart_count = self.restart_count + 1;
        Ok(())
    }

    /// The process was shut down on request.
    pub fn stopped(&mut self)
        ensures
            final(self).status_spec() == ProcessStatus::Stopped,
            final(self).restarts_spec() == old(self).restarts_spec(),
    {
        self.status = ProcessStatus::Stopped;
    }

    /// Current status.
    pub fn status(&self) -> (s: ProcessStatus)
        ensures
            s == self.status_spec(),
    {
        self.status
    }

    /// Restarts since the last successful boot.
    pub fn restart_count(&self) -> (n: u32)
        ensures
            n == self.restarts_spec(),
    {
        self.restart_count
    }
}


/// Allocating gives the action the next node id, which a lookup then
/// finds; removing the action right after returns that id and leaves the
/// action unknown, with the other actions as before the allocation.
pub proof fn law_allocate_lookup_remove(
    m0: NodeMapping,
    m1: NodeMapping,
    m2: NodeMapping,
    action: Seq<char>,
    id: i32,
    r: Option<i32>,
)
    requires
        node_step(m0, NodeCall::Allocate(action, id), m1),
        node_step(m1, NodeCall::Remove(action, r), m2),
    ensures
        id == m0.next_node_spec(),
        m1.nodes_spec().contains_key(action) && m1.nodes_spec()[action] == id,
        r == Some(id),
        !m2.nodes_spec().contains_key(action),
        m2.nodes_spec() == m0.nodes_spec().remove(action),
{
    assert(m2.nodes_spec() =~= m0.nodes_spec().remove(action));
}

/// Stopping a layer right after playing it frees exactly the node and
/// buffer the playback allocated, and leaves the layer without a node.
pub proof fn law_stop_frees_what_play_allocated(
    m0: NodeMapping,
    m1: NodeMapping,
    m2: NodeMapping,
    layer: Seq<char>,
    play: Seq<char>,
    stop: Seq<char>,
    asset: Option<Seq<char>>,
    amp_bits: Option<u32>,
    played: Seq<OscMessage>,
    stopped: Seq<OscMessage>,
)
    requires
        spec_audio_path(play) is AssetPlayback,
        spec_audio_path(stop) is Stop,
        translation(m0, m1, layer, play, asset, amp_bits, played),
        translation(m1, m2, layer, stop, None, None, stopped),
    ensures
        parts_of(stopped) == seq![
            ("/n_free"@, seq![OscValue::Int(m0.next_node_spec())]),
            ("/b_free"@, seq![OscValue::Int(m0.next_buffer_spec())]),
        ],
        !m2.nodes_spec().contains_key(layer),
        !m2.buffers_spec().contains_key(m0.next_node_spec()),
{
}

/// Between two boots the process is restarted at most `max_attempts`
/// times: a restart asked for with the budget spent is refused and changes
/// nothing, and one granted stays within the budget.
pub proof fn law_restart_budget(l0: ProcessLifecycle, l1: ProcessLifecycle, max_attempts: u32, granted: bool)
    requires
        l0.restarts_spec() <= max_attempts,
        l0.restarts_spec() >= max_attempts ==> !granted && l1 == l0,
        l0.restarts_spec() < max_attempts ==> granted && l1.status_spec() == ProcessStatus::Restarting
            && l1.restarts_spec() == l0.restarts_spec() + 1,
    ensures
        l1.restarts_spec() <= max_attempts,
        granted <==> l0.restarts_spec() < max_attempts,
{
}

} // verus!
