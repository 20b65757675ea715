//! Fixture topology and DMX address mapping.

use vstd::prelude::*;
use crate::text::{decimal, push_decimal, str_eq};

verus! {

/// What a fixture channel controls.
#[derive(Debug, Clone, Copy, PartialEq, Eq, Structural)]
pub enum ChannelCapability {
    Dimmer,
    Red,
    Green,
    Blue,
    White,
    Amber,
    Pan,
    Tilt,
    Strobe,
    ColorWheel,
    Gobo,
}

/// A fixture with its DMX addressing and channel capabilities.
#[derive(Debug, Clone)]
pub struct FixtureEndpoint {
    pub fixture_id: String,
    pub universe: u16,
    /// Start address (1-based).
    pub address: u16,
    /// One capability per occupied channel, in channel order.
    pub capabilities: Vec<ChannelCapability>,
    /// Human-readable label.
    pub label: Option<String>,
}

/// Index of the first occurrence of `cap` in `caps`, if any.
pub open spec fn first_index_of(caps: Seq<ChannelCapability>, cap: ChannelCapability) -> Option<int> {
    if exists|i: int| 0 <= i < caps.len() && caps[i] == cap {
        Some(choose|i: int| 0 <= i < caps.len() && caps[i] == cap && forall|j: int| 0 <= j < i ==> caps[j] != cap)
    } else {
        None
    }
}

/// Where `cap` occurs in `caps` at all, `first_index_of` finds its first
/// occurrence: a position holding `cap` with no `cap` before it.
pub proof fn lemma_first_index_of_found(caps: Seq<ChannelCapability>, cap: ChannelCapability, i: int)
    requires
        0 <= i < caps.len(),
        caps[i] == cap,
    ensures
        first_index_of(caps, cap) matches Some(k) && 0 <= k <= i && caps[k] == cap
            && forall|j: int| 0 <= j < k ==> caps[j] != cap,
    decreases i,
{
    if exists|j: int| 0 <= j < i && caps[j] == cap {
        let j = choose|j: int| 0 <= j < i && caps[j] == cap;
        lemma_first_index_of_found(caps, cap, j);
    } else {
        assert(0 <= i < caps.len() && caps[i] == cap && forall|j: int| 0 <= j < i ==> caps[j] != cap);
        let k = choose|k: int| 0 <= k < caps.len() && caps[k] == cap && forall|j: int| 0 <= j < k ==> caps[j] != cap;
        assert(k == i) by {
            if k < i {
            } else if k > i {
                assert(caps[i] != cap);
            }
        }
    }
}

impl FixtureEndpoint {
    /// Number of channels, as the fixture counts it.
    pub open spec fn count(self) -> int {
        (self.capabilities@.len() as u16) as int
    }

    /// Last occupied channel (inclusive).
    pub open spec fn end(self) -> int {
        self.address + self.count() - 1
    }

    /// The end address can be computed without leaving the `u16` range.
    pub open spec fn end_computable(self) -> bool {
        1 <= self.address + self.count() <= u16::MAX
    }

    /// Number of DMX channels this fixture occupies.
    pub fn channel_count(&self) -> (n: u16)
        ensures
            n == self.count(),
    {
        self.capabilities.len() as u16
    }

    /// The absolute channel of the first channel with capability `cap`, if any.
    pub fn channel_for(&self, cap: ChannelCapability) -> (r: Option<u16>)
        requires
            self.address + self.capabilities@.len() <= u16::MAX + 1,
        ensures
            r matches Some(ch) ==> first_index_of(self.capabilities@, cap) matches Some(i) && ch == self.address + i,
            r is None <==> first_index_of(self.capabilities@, cap) is None,
    {
        let mut i: usize = 0;
        while i < self.capabilities.len()
            invariant
                i <= self.capabilities@.len(),
                self.address + self.capabilities@.len() <= u16::MAX + 1,
                forall|j: int| 0 <= j < i ==> self.capabilities@[j] != cap,
            decreases self.capabilities@.len() - i,
        {
            if self.capabilities[i] == cap {
                let ghost caps = self.capabilities@;
                assert(first_index_of(caps, cap) == Some(i as int)) by {
                    assert(0 <= i < caps.len() && caps[i as int] == cap);
                    let w = choose|k: int| 0 <= k < caps.len() && caps[k] == cap && forall|j: int| 0 <= j < k ==> caps[j] != cap;
                    assert(0 <= w < caps.len() && caps[w] == cap && forall|j: int| 0 <= j < w ==> caps[j] != cap);
                    assert(w == i) by {
                        if w < i {
                        } else if w > i {
                            assert(caps[i as int] != cap);
                        }
                    }
                }
                return Some(self.address + i as u16);
            }
            i = i + 1;
        }
        None
    }

    /// End address (inclusive) in the DMX universe.
    pub fn end_address(&self) -> (e: u16)
        requires
            self.end_computable(),
        ensures
            e == self.end(),
    {
        self.address + self.channel_count() - 1
    }
}

/// Two inclusive ranges share a channel.
pub open spec fn spec_ranges_overlap(a_start: int, a_end: int, b_start: int, b_end: int) -> bool {
    a_start <= b_end && b_start <= a_end
}

/// Whether two inclusive channel ranges overlap.
pub fn ranges_overlap(a_start: u16, a_end: u16, b_start: u16, b_end: u16) -> (r: bool)
    ensures
        r == spec_ranges_overlap(a_start as int, a_end as int, b_start as int, b_end as int),
{
    a_start <= b_end && b_start <= a_end
}

/// A fixture occupies a range inside 1..512.
pub open spec fn placed(f: FixtureEndpoint) -> bool {
    f.address >= 1 && f.end_computable() && f.end() <= 512
}

/// Two fixtures in the same universe occupy a common channel.
pub open spec fn clash(a: FixtureEndpoint, b: FixtureEndpoint) -> bool {
    a.universe == b.universe && spec_ranges_overlap(a.address as int, a.end(), b.address as int, b.end())
}

/// A collection of fixtures forming a lighting bus topology.
#[derive(Debug, Clone)]
pub struct FixtureBusTopology {
    pub topology_id: String,
    pub fixtures: Vec<FixtureEndpoint>,
}

/// The message for a fixture whose range leaves 1..512.
pub open spec fn range_error_text(f: FixtureEndpoint) -> Seq<char> {
    "fixture '"@ + f.fixture_id@ + "' address range "@ + decimal(f.address as nat) + "-"@
        + decimal(f.end() as nat) + " out of DMX range 1-512"@
}

/// The message for a fixture that overlaps an existing one.
pub open spec fn overlap_error_text(f: FixtureEndpoint, existing: FixtureEndpoint) -> Seq<char> {
    "fixture '"@ + f.fixture_id@ + "' overlaps with '"@ + existing.fixture_id@ + "' in universe "@
        + decimal(f.universe as nat)
}

/// Whether `s` is strictly increasing.
pub open spec fn strictly_increasing(s: Seq<u16>) -> bool {
    forall|i: int, j: int| 0 <= i < j < s.len() ==> s[i] < s[j]
}

impl FixtureBusTopology {
    /// Every fixture lies in 1..512 and no two fixtures of a universe share a channel.
    pub open spec fn wf(self) -> bool {
        &&& forall|i: int| 0 <= i < self.fixtures@.len() ==> placed(#[trigger] self.fixtures@[i])
        &&& forall|i: int, j: int|
            0 <= i < j < self.fixtures@.len() ==> !clash(#[trigger] self.fixtures@[i], #[trigger] self.fixtures@[j])
    }

    /// An empty topology.
    pub fn new(topology_id: &str) -> (t: Self)
        ensures
            t.topology_id@ == topology_id@,
            t.fixtures@ == Seq::<FixtureEndpoint>::empty(),
            t.wf(),
    {
        FixtureBusTopology { topology_id: String::from_str(topology_id), fixtures: Vec::new() }
    }

    /// Adds a fixture, refusing one that leaves 1..512 or shares a channel with a
    /// fixture of the same universe. A refused fixture leaves the topology unchanged,
    /// and a well-formed topology stays well-formed. The end address of the new
    /// fixture, and of each fixture already in its universe, is computed, so each
    /// must fit in a `u16`.
    pub fn add_fixture(&mut self, fixture: FixtureEndpoint) -> (r: Result<(), String>)
        requires
            fixture.end_computable(),
            forall|i: int| 0 <= i < old(self).fixtures@.len() && (#[trigger] old(self).fixtures@[i]).universe == fixture.universe
                ==> old(self).fixtures@[i].end_computable(),
        ensures
            old(self).wf() ==> final(self).wf(),
            final(self).topology_id == old(self).topology_id,
            r is Ok <==> (placed(fixture) && forall|i: int| 0 <= i < old(self).fixtures@.len()
                ==> !clash(#[trigger] old(self).fixtures@[i], fixture)),
            r is Ok ==> final(self).fixtures@ == old(self).fixtures@.push(fixture),
            r is Err ==> final(self).fixtures@ == old(self).fixtures@,
            !placed(fixture) ==> (r matches Err(e) && e@ == range_error_text(fixture)),
            (placed(fixture) && r is Err) ==> exists|i: int| 0 <= i < old(self).fixtures@.len()
                && clash(old(self).fixtures@[i], fixture)
                && (forall|j: int| 0 <= j < i ==> !clash(#[trigger] old(self).fixtures@[j], fixture))
                && (r matches Err(e) && e@ == overlap_error_text(fixture, old(self).fixtures@[i])),
    {
        if fixture.address == 0 || fixture.end_address() > 512 {
            let mut s = String::from_str("fixture '");
            s.append(fixture.fixture_id.as_str());
            s.append("' address range ");
            push_decimal(&mut s, fixture.address as u64);
            s.append("-");
            push_decimal(&mut s, fixture.end_address() as u64);
            s.append(" out of DMX range 1-512");
            return Err(s);
        }
        let f_end = fixture.end_address();
        let mut i: usize = 0;
        while i < self.fixtures.len()
            invariant
                i <= self.fixtures@.len(),
                self.fixtures@ == old(self).fixtures@,
                self.topology_id == old(self).topology_id,
                forall|k: int| 0 <= k < old(self).fixtures@.len() && (#[trigger] old(self).fixtures@[k]).universe == fixture.universe
                    ==> old(self).fixtures@[k].end_computable(),
                placed(fixture),
                f_end == fixture.end(),
                forall|j: int| 0 <= j < i ==> !clash(#[trigger] old(self).fixtures@[j], fixture),
            decreases self.fixtures@.len() - i,
        {
            let existing = &self.fixtures[i];
            if existing.universe == fixture.universe
                && ranges_overlap(existing.address, existing.end_address(), fixture.address, f_end)
            {
                let mut s = String::from_str("fixture '");
                s.append(fixture.fixture_id.as_str());
                s.append("' overlaps with '");
                s.append(existing.fixture_id.as_str());
                s.append("' in universe ");
                push_decimal(&mut s, fixture.universe as u64);
                assert(s@ =~= overlap_error_text(fixture, old(self).fixtures@[i as int]));
                return Err(s);
            }
            i = i + 1;
        }
        self.fixtures.push(fixture);
        proof {
            if old(self).wf() {
                assert forall|a: int, b: int| 0 <= a < b < self.fixtures@.len() implies
                    !clash(#[trigger] self.fixtures@[a], #[trigger] self.fixtures@[b]) by {
                    if b == self.fixtures@.len() - 1 {
                        assert(!clash(old(self).fixtures@[a], fixture));
                    }
                }
            }
        }
        Ok(())
    }

    /// The first fixture with identifier `fixture_id`, if any.
    pub fn find(&self, fixture_id: &str) -> (r: Option<&FixtureEndpoint>)
        ensures
            r matches Some(f) ==> exists|i: int| 0 <= i < self.fixtures@.len()
                && self.fixtures@[i] == *f && f.fixture_id@ == fixture_id@
                && forall|j: int| 0 <= j < i ==> #[trigger] self.fixtures@[j].fixture_id@ != fixture_id@,
            r is None <==> forall|j: int| 0 <= j < self.fixtures@.len() ==> #[trigger] self.fixtures@[j].fixture_id@ != fixture_id@,
    {
        let mut i: usize = 0;
        while i < self.fixtures.len()
            invariant
                i <= self.fixtures@.len(),
                forall|j: int| 0 <= j < i ==> #[trigger] self.fixtures@[j].fixture_id@ != fixture_id@,
            decreases self.fixtures@.len() - i,
        {
            if str_eq(self.fixtures[i].fixture_id.as_str(), fixture_id) {
                return Some(&self.fixtures[i]);
            }
            i = i + 1;
        }
        None
    }

    /// The fixtures of `universe`, in insertion order.
    pub fn fixtures_in_universe(&self, universe: u16) -> (r: Vec<&FixtureEndpoint>)
        ensures
            r@.map_values(|f: &FixtureEndpoint| *f) == self.fixtures@.filter(|f: FixtureEndpoint| f.universe == universe),
    {
        let mut out: Vec<&FixtureEndpoint> = Vec::new();
        let mut i: usize = 0;
        while i < self.fixtures.len()
            invariant
                i <= self.fixtures@.len(),
                out@.map_values(|f: &FixtureEndpoint| *f) == self.fixtures@.subrange(0, i as int).filter(|f: FixtureEndpoint| f.universe == universe),
            decreases self.fixtures@.len() - i,
        {
            proof {
                reveal_with_fuel(Seq::filter, 1);
                assert(self.fixtures@.subrange(0, i + 1).drop_last() =~= self.fixtures@.subrange(0, i as int));
            }
            let ghost prev = out@;
            if self.fixtures[i].universe == universe {
                out.push(&self.fixtures[i]);
                assert(out@.map_values(|f: &FixtureEndpoint| *f) =~= prev.map_values(|f: &FixtureEndpoint| *f).push(self.fixtures@[i as int]));
            }
            i = i + 1;
        }
        assert(self.fixtures@.subrange(0, self.fixtures@.len() as int) =~= self.fixtures@);
        out
    }

    /// Total number of fixtures.
    pub fn fixture_count(&self) -> (n: usize)
        ensures
            n == self.fixtures@.len(),
    {
        self.fixtures.len()
    }

    /// The distinct universes used by the topology, in increasing order.
    pub fn universes(&self) -> (r: Vec<u16>)
        ensures
            strictly_increasing(r@),
            forall|u: u16| r@.contains(u) <==> exists|i: int| 0 <= i < self.fixtures@.len() && #[trigger] self.fixtures@[i].universe == u,
    {
        let mut out: Vec<u16> = Vec::new();
        let mut i: usize = 0;
        while i < self.fixtures.len()
            invariant
                i <= self.fixtures@.len(),
                strictly_increasing(out@),
                forall|u: u16| out@.contains(u) <==> exists|k: int| 0 <= k < i && #[trigger] self.fixtures@[k].universe == u,
            decreases self.fixtures@.len() - i,
        {
            let u = self.fixtures[i].universe;
            insert_sorted_unique(&mut out, u);
            proof {
                assert forall|v: u16| out@.contains(v) <==> exists|k: int| 0 <= k < i + 1 && #[trigger] self.fixtures@[k].universe == v by {
                    if v == u {
                        assert(self.fixtures@[i as int].universe == v);
                    }
                }
            }
            i = i + 1;
        }
        out
    }
}

/// Inserts `u` into a strictly increasing vector unless it is already there.
fn insert_sorted_unique(v: &mut Vec<u16>, u: u16)
    requires
        strictly_increasing(old(v)@),
    ensures
        strictly_increasing(final(v)@),
        forall|x: u16| final(v)@.contains(x) <==> (old(v)@.contains(x) || x == u),
{
    let mut i: usize = 0;
    while i < v.len() && v[i] < u
        invariant
            i <= v@.len(),
            v@ == old(v)@,
            forall|k: int| 0 <= k < i ==> v@[k] < u,
        decreases v@.len() - i,
    {
        i = i + 1;
    }
    if i < v.len() && v[i] == u {
        return;
    }
    let ghost before = v@;
    v.insert(i, u);
    proof {
        before.insert_ensures(i as int, u);
        assert forall|k: int| 0 <= k < v@.len() implies #[trigger] v@[k] == (if k < i { before[k] } else if k == i { u } else { before[k - 1] }) by {
            if k > i {
                assert(before.insert(i as int, u)[(k - 1) + 1] == before[k - 1]);
            }
        }
        assert forall|a: int, b: int| 0 <= a < b < v@.len() implies v@[a] < v@[b] by {
            let va = v@[a];
            let vb = v@[b];
            if b < i {
            } else if b == i {
            } else {
                assert(vb == before[b - 1]);
                if a < i {
                    assert(before[a] < u);
                } else if a == i {
                    assert(before[i as int] > u);
                    assert(before[i as int] <= before[b - 1] || i == b - 1);
                } else {
                    assert(va == before[a - 1]);
                }
            }
        }
        assert forall|x: u16| v@.contains(x) <==> (before.contains(x) || x == u) by {
            if v@.contains(x) {
                let k = choose|k: int| 0 <= k < v@.len() && v@[k] == x;
                if k < i {
                    assert(before[k] == x);
                } else if k > i {
                    assert(before[k - 1] == x);
                }
            }
            if before.contains(x) {
                let k = choose|k: int| 0 <= k < before.len() && before[k] == x;
                if k < i {
                    assert(v@[k] == x);
                } else {
                    assert(v@[k + 1] == x);
                }
            }
            if x == u {
                assert(v@[i as int] == u);
            }
        }
    }
}

/// Channel `c` lies in the inclusive range of channels fixture `f` takes.
pub open spec fn occupies(f: FixtureEndpoint, c: int) -> bool {
    f.address <= c <= f.end()
}

/// Two fixtures clash exactly when they are in one universe and some
/// channel lies in both of their inclusive ranges (for fixtures that occupy
/// at least one channel); clashing does not depend on which fixture comes
/// first.
pub proof fn law_clash_is_shared_channel(a: FixtureEndpoint, b: FixtureEndpoint)
    ensures
        clash(a, b) == clash(b, a),
        a.count() >= 1 && b.count() >= 1 ==> (clash(a, b) <==> (a.universe == b.universe
            && exists|c: int| #[trigger] occupies(a, c) && occupies(b, c))),
        (a.universe == b.universe && exists|c: int| #[trigger] occupies(a, c) && occupies(b, c)) ==> clash(a, b),
{
    if a.count() >= 1 && b.count() >= 1 && clash(a, b) {
        let c = if a.address >= b.address { a.address as int } else { b.address as int };
        assert(occupies(a, c) && occupies(b, c));
    }
}

/// In a well-formed topology no channel of a universe is claimed by two
/// fixtures.
pub proof fn law_no_shared_channel(t: FixtureBusTopology)
    requires
        t.wf(),
    ensures
        forall|i: int, j: int, c: int| 0 <= i < t.fixtures@.len() && 0 <= j < t.fixtures@.len() && i != j
            && t.fixtures@[i].universe == t.fixtures@[j].universe
            ==> !(#[trigger] occupies(t.fixtures@[i], c) && #[trigger] occupies(t.fixtures@[j], c)),
{
    assert forall|i: int, j: int, c: int| 0 <= i < t.fixtures@.len() && 0 <= j < t.fixtures@.len() && i != j
        && t.fixtures@[i].universe == t.fixtures@[j].universe
        implies !(#[trigger] occupies(t.fixtures@[i], c) && #[trigger] occupies(t.fixtures@[j], c)) by {
        let a = t.fixtures@[i];
        let b = t.fixtures@[j];
        if occupies(a, c) && occupies(b, c) {
            law_clash_is_shared_channel(a, b);
            if i < j {
                assert(!clash(t.fixtures@[i], t.fixtures@[j]));
            } else {
                assert(!clash(t.fixtures@[j], t.fixtures@[i]));
            }
        }
    }
}

/// A fixture that `add_fixture` accepts shares no channel with a fixture
/// already in its universe: `r` is what `add_fixture(f)` returned on a
/// topology holding `existing`, and the requirement is its contract.
pub proof fn law_added_fixture_shares_no_channel(existing: Seq<FixtureEndpoint>, f: FixtureEndpoint, r: Result<(), String>)
    requires
        r is Ok <==> (placed(f) && forall|i: int| 0 <= i < existing.len() ==> !clash(#[trigger] existing[i], f)),
        r is Ok,
    ensures
        forall|i: int, c: int| 0 <= i < existing.len() && existing[i].universe == f.universe
            ==> !(#[trigger] occupies(existing[i], c) && occupies(f, c)),
{
    assert forall|i: int, c: int| 0 <= i < existing.len() && existing[i].universe == f.universe
        implies !(#[trigger] occupies(existing[i], c) && occupies(f, c)) by {
        if occupies(existing[i], c) && occupies(f, c) {
            law_clash_is_shared_channel(existing[i], f);
            assert(!clash(existing[i], f));
        }
    }
}

/// A fixture that takes at least one channel is placed exactly when every
/// channel it takes lies in 1..512 (its end address being computable).
pub proof fn law_placed_is_inside_the_universe(f: FixtureEndpoint)
    requires
        f.count() >= 1,
        f.end_computable(),
    ensures
        placed(f) <==> forall|c: int| #[trigger] occupies(f, c) ==> 1 <= c <= 512,
{
    if forall|c: int| #[trigger] occupies(f, c) ==> 1 <= c <= 512 {
        assert(occupies(f, f.address as int));
        assert(occupies(f, f.end()));
    }
}

/// A fixture takes one channel per capability, from its start address on.
pub proof fn law_fixture_takes_one_channel_per_capability(f: FixtureEndpoint, c: int)
    requires
        f.capabilities@.len() <= u16::MAX,
    ensures
        occupies(f, c) <==> f.address <= c < f.address + f.capabilities@.len(),
{
}

} // verus!
