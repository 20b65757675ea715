//! Runtime resilience: hang detection, panic recovery and degrade notices.
//!
//! Each runtime heartbeats with the time it is alive at; a runtime whose
//! last heartbeat is older than the hang threshold is degraded, one whose
//! thread panicked is marked so, and the others go on unaffected. Times are
//! milliseconds held as the bits of an `f64`; comparing them with a clock
//! is left to the caller, which reports the hangs it found.

use vstd::prelude::*;
use crate::ipc::RuntimeHealth;
use crate::strmap::{StrMap, map_of, sorted_keys, keys_where, key_lt, lemma_keys_where_prefix,
    lemma_index_of_present};
use crate::text::join3;

verus! {

/// A degrade event for a runtime found unhealthy.
#[derive(Debug, Clone)]
pub struct DegradeNotice {
    pub runtime_name: String,
    pub reason: String,
    pub health: RuntimeHealth,
    pub detected_at_ms_bits: u64,
}

/// The runtimes in health `state`.
pub open spec fn runtimes_in(runtimes: Map<Seq<char>, (u64, RuntimeHealth)>, state: RuntimeHealth) -> Set<Seq<char>> {
    keys_where(runtimes, |v: (u64, RuntimeHealth)| v.1 == state)
}

/// The reason given when the thread of `name` panicked.
pub open spec fn panic_reason(name: Seq<char>) -> Seq<char> {
    "runtime thread '"@ + name + "' panicked"@
}

/// Watches runtime threads through their heartbeats.
pub struct ResilienceMonitor {
    runtimes: StrMap<(u64, RuntimeHealth)>,
    hang_threshold_ms_bits: u64,
}

impl ResilienceMonitor {
    /// Each monitored runtime to its last heartbeat and health.
    pub closed spec fn runtimes_spec(&self) -> Map<Seq<char>, (u64, RuntimeHealth)> {
        self.runtimes@
    }

    /// How long a runtime may go without a heartbeat.
    pub closed spec fn threshold_spec(&self) -> u64 {
        self.hang_threshold_ms_bits
    }

    /// The runtime table is well formed.
    pub closed spec fn wf(&self) -> bool {
        self.runtimes.wf()
    }

    /// A monitor with no runtimes.
    pub fn new(hang_threshold_ms_bits: u64) -> (m: Self)
        ensures
            m.wf(),
            m.runtimes_spec() == Map::<Seq<char>, (u64, RuntimeHealth)>::empty(),
            m.threshold_spec() == hang_threshold_ms_bits,
    {
        ResilienceMonitor { runtimes: StrMap::new(), hang_threshold_ms_bits }
    }

    /// The hang threshold, as the bits of an `f64` in milliseconds.
    pub fn hang_threshold_ms_bits(&self) -> (t: u64)
        ensures
            t == self.threshold_spec(),
    {
        self.hang_threshold_ms_bits
    }

    /// Monitors `name` from `now_ms_bits` on, as healthy.
    pub fn register(&mut self, name: &str, now_ms_bits: u64)
        requires
            old(self).wf(),
        ensures
            final(self).wf(),
            final(self).runtimes_spec() == old(self).runtimes_spec().insert(name@, (now_ms_bits, RuntimeHealth::Healthy)),
            final(self).threshold_spec() == old(self).threshold_spec(),
    {
        let v = (now_ms_bits, RuntimeHealth::Healthy);
        match self.runtimes.find(name) {
            Some(i) => {
                self.runtimes.set_value(i, v);
            },
            None => {
                let _ = self.runtimes.insert_new(String::from_str(name), v);
            },
        }
    }

    /// A heartbeat from `name` at `now_ms_bits`; it brings a degraded
    /// runtime back to healthy. Unknown names are ignored.
    pub fn heartbeat(&mut self, name: &str, now_ms_bits: u64)
        requires
            old(self).wf(),
        ensures
            final(self).wf(),
            final(self).threshold_spec() == old(self).threshold_spec(),
            final(self).runtimes_spec() == (if old(self).runtimes_spec().contains_key(name@) {
                let h = old(self).runtimes_spec()[name@].1;
                old(self).runtimes_spec().insert(name@, (now_ms_bits, if h == RuntimeHealth::Degraded {
                    RuntimeHealth::Healthy
                } else {
                    h
                }))
            } else {
                old(self).runtimes_spec()
            }),
    {
        match self.runtimes.find(name) {
            Some(i) => {
                proof {
                    crate::strmap::lemma_index_unique(self.runtimes.entries_spec(), name@);
                    assert(self.runtimes@[name@] == self.runtimes.entries_spec()[i as int].1);
                }
                let h = self.runtimes.entry(i).1.1;
                let nh = if h == RuntimeHealth::Degraded { RuntimeHealth::Healthy } else { h };
                self.runtimes.set_value(i, (now_ms_bits, nh));
            },
            None => {},
        }
    }

    /// Marks `name` as panicked, keeping its last heartbeat, and gives the
    /// degrade notice for it; `None` for an unknown name.
    pub fn mark_panicked(&mut self, name: &str, now_ms_bits: u64) -> (r: Option<DegradeNotice>)
        requires
            old(self).wf(),
        ensures
            final(self).wf(),
            final(self).threshold_spec() == old(self).threshold_spec(),
            if old(self).runtimes_spec().contains_key(name@) {
                &&& final(self).runtimes_spec() == old(self).runtimes_spec().insert(
                    name@,
                    (old(self).runtimes_spec()[name@].0, RuntimeHealth::Panicked),
                )
                &&& r matches Some(n) && n.runtime_name@ == name@ && n.reason@ == panic_reason(name@)
                    && n.health == RuntimeHealth::Panicked && n.detected_at_ms_bits == now_ms_bits
            } else {
                &&& final(self).runtimes_spec() == old(self).runtimes_spec()
                &&& r is None
            },
    {
        match self.runtimes.find(name) {
            Some(i) => {
                proof {
                    crate::strmap::lemma_index_unique(self.runtimes.entries_spec(), name@);
                    assert(self.runtimes@[name@] == self.runtimes.entries_spec()[i as int].1);
                }
                let last = self.runtimes.entry(i).1.0;
                self.runtimes.set_value(i, (last, RuntimeHealth::Panicked));
                proof {
                    reveal_strlit("runtime thread '");
                    reveal_strlit("' panicked");
                }
                Some(DegradeNotice {
                    runtime_name: String::from_str(name),
                    reason: join3("runtime thread '", name, "' panicked"),
                    health: RuntimeHealth::Panicked,
                    detected_at_ms_bits: now_ms_bits,
                })
            },
            None => None,
        }
    }

    /// The healthy runtimes with their last heartbeats, in name order:
    /// those a hang check looks at.
    pub fn hang_candidates(&self) -> (r: Vec<(String, u64)>)
        requires
            self.wf(),
        ensures
            runtimes_in(self.runtimes_spec(), RuntimeHealth::Healthy).finite(),
            r@.len() == runtimes_in(self.runtimes_spec(), RuntimeHealth::Healthy).len(),
            forall|i: int| 0 <= i < r@.len() ==> {
                let k = #[trigger] r@[i].0@;
                &&& self.runtimes_spec().contains_key(k)
                &&& self.runtimes_spec()[k].1 == RuntimeHealth::Healthy
                &&& r@[i].1 == self.runtimes_spec()[k].0
            },
            forall|i: int, j: int| 0 <= i < j < r@.len() ==> key_lt(#[trigger] r@[i].0@, #[trigger] r@[j].0@),
    {
        let ghost entries = self.runtimes.entries_spec();
        let ghost p = |v: (u64, RuntimeHealth)| v.1 == RuntimeHealth::Healthy;
        let count = self.runtimes.len();
        let mut out: Vec<(String, u64)> = Vec::new();
        let ghost mut idx: Seq<int> = Seq::empty();
        let mut i: usize = 0;
        proof {
            assert(keys_where(map_of(entries.take(0)), p) =~= Set::<Seq<char>>::empty());
        }
        while i < count
            invariant
                p == (|v: (u64, RuntimeHealth)| v.1 == RuntimeHealth::Healthy),
                entries == self.runtimes.entries_spec(),
                sorted_keys(entries),
                count == entries.len(),
                i <= count,
                keys_where(map_of(entries.take(i as int)), p).finite(),
                out@.len() == keys_where(map_of(entries.take(i as int)), p).len(),
                idx.len() == out@.len(),
                forall|a: int| 0 <= a < idx.len() ==> {
                    &&& 0 <= #[trigger] idx[a] < i
                    &&& out@[a].0@ == entries[idx[a]].0@
                    &&& entries[idx[a]].1.1 == RuntimeHealth::Healthy
                    &&& out@[a].1 == entries[idx[a]].1.0
                },
                forall|a: int, b: int| 0 <= a < b < idx.len() ==> #[trigger] idx[a] < #[trigger] idx[b],
            decreases count - i,
        {
            proof {
                lemma_keys_where_prefix(entries, i as int, p);
                assert(p(entries[i as int].1) == (entries[i as int].1.1 == RuntimeHealth::Healthy));
            }
            let e = self.runtimes.entry(i);
            if e.1.1 == RuntimeHealth::Healthy {
                out.push((e.0.clone(), e.1.0));
                proof {
                    idx = idx.push(i as int);
                }
            }
            i = i + 1;
        }
        proof {
            assert(entries.take(count as int) =~= entries);
            assert(runtimes_in(self.runtimes_spec(), RuntimeHealth::Healthy) =~= keys_where(map_of(entries), p));
            assert forall|a: int| 0 <= a < out@.len() implies {
                let k = #[trigger] out@[a].0@;
                &&& self.runtimes_spec().contains_key(k)
                &&& self.runtimes_spec()[k].1 == RuntimeHealth::Healthy
                &&& out@[a].1 == self.runtimes_spec()[k].0
            } by {
                lemma_index_of_present(entries, idx[a]);
            }
            assert forall|a: int, b: int| 0 <= a < b < out@.len() implies key_lt(#[trigger] out@[a].0@, #[trigger] out@[b].0@) by {
                assert(idx[a] < idx[b]);
            }
        }
        out
    }

    /// Degrades `name` as hung, if it is healthy, and gives the notice with
    /// `reason`; `None` otherwise, so a runtime already degraded or panicked
    /// is not reported again.
    pub fn mark_hung(&mut self, name: &str, now_ms_bits: u64, reason: String) -> (r: Option<DegradeNotice>)
        requires
            old(self).wf(),
        ensures
            final(self).wf(),
            final(self).threshold_spec() == old(self).threshold_spec(),
            if old(self).runtimes_spec().contains_key(name@)
                && old(self).runtimes_spec()[name@].1 == RuntimeHealth::Healthy {
                &&& final(self).runtimes_spec() == old(self).runtimes_spec().insert(
                    name@,
                    (old(self).runtimes_spec()[name@].0, RuntimeHealth::Degraded),
                )
                &&& r matches Some(n) && n.runtime_name@ == name@ && n.reason@ == reason@
                    && n.health == RuntimeHealth::Degraded && n.detected_at_ms_bits == now_ms_bits
            } else {
                &&& final(self).runtimes_spec() == old(self).runtimes_spec()
                &&& r is None
            },
    {
        match self.runtimes.find(name) {
            Some(i) => {
                proof {
                    crate::strmap::lemma_index_unique(self.runtimes.entries_spec(), name@);
                    assert(self.runtimes@[name@] == self.runtimes.entries_spec()[i as int].1);
                }
                let (last, h) = self.runtimes.entry(i).1;
                if h == RuntimeHealth::Healthy {
                    self.runtimes.set_value(i, (last, RuntimeHealth::Degraded));
                    Some(DegradeNotice {
                        runtime_name: String::from_str(name),
                        reason,
                        health: RuntimeHealth::Degraded,
                        detected_at_ms_bits: now_ms_bits,
                    })
                } else {
                    None
                }
            },
            None => None,
        }
    }

    /// The health of `name`, if it is monitored.
    pub fn health(&self, name: &str) -> (r: Option<RuntimeHealth>)
        requires
            self.wf(),
        ensures
            r == (if self.runtimes_spec().contains_key(name@) {
                Some(self.runtimes_spec()[name@].1)
            } else {
                None::<RuntimeHealth>
            }),
    {
        match self.runtimes.get(name) {
            Some(v) => Some(v.1),
            None => None,
        }
    }

    /// Number of monitored runtimes.
    pub fn runtime_count(&self) -> (n: usize)
        requires
            self.wf(),
        ensures
            self.runtimes_spec().dom().finite(),
            n == self.runtimes_spec().dom().len(),
    {
        self.runtimes.len()
    }

    /// Number of runtimes in health `state`.
    pub fn count_in_state(&self, state: RuntimeHealth) -> (n: usize)
        requires
            self.wf(),
        ensures
            runtimes_in(self.runtimes_spec(), state).finite(),
            n == runtimes_in(self.runtimes_spec(), state).len(),
    {
        let ghost entries = self.runtimes.entries_spec();
        let ghost p = |v: (u64, RuntimeHealth)| v.1 == state;
        let count = self.runtimes.len();
        let mut n: usize = 0;
        let mut i: usize = 0;
        proof {
            assert(keys_where(map_of(entries.take(0)), p) =~= Set::<Seq<char>>::empty());
        }
        while i < count
            invariant
                p == (|v: (u64, RuntimeHealth)| v.1 == state),
                entries == self.runtimes.entries_spec(),
                sorted_keys(entries),
                count == entries.len(),
                i <= count,
                keys_where(map_of(entries.take(i as int)), p).finite(),
                n == keys_where(map_of(entries.take(i as int)), p).len(),
                n <= i,
            decreases count - i,
        {
            proof {
                lemma_keys_where_prefix(entries, i as int, p);
                assert(p(entries[i as int].1) == (entries[i as int].1.1 == state));
            }
            if self.runtimes.entry(i).1.1 == state {
                n = n + 1;
            }
            i = i + 1;
        }
        proof {
            assert(entries.take(count as int) =~= entries);
            assert(runtimes_in(self.runtimes_spec(), state) =~= keys_where(map_of(entries), p));
        }
        n
    }
}

/// Every monitored runtime is in exactly one health state, so the counts
/// per state add up to the number of runtimes.
pub proof fn law_health_states_partition(runtimes: Map<Seq<char>, (u64, RuntimeHealth)>)
    requires
        runtimes.dom().finite(),
    ensures
        runtimes_in(runtimes, RuntimeHealth::Healthy).len() + runtimes_in(runtimes, RuntimeHealth::Degraded).len()
            + runtimes_in(runtimes, RuntimeHealth::Panicked).len() == runtimes.dom().len(),
{
    let h = runtimes_in(runtimes, RuntimeHealth::Healthy);
    let d = runtimes_in(runtimes, RuntimeHealth::Degraded);
    let p = runtimes_in(runtimes, RuntimeHealth::Panicked);
    vstd::set_lib::lemma_len_subset(h, runtimes.dom());
    vstd::set_lib::lemma_len_subset(d, runtimes.dom());
    vstd::set_lib::lemma_len_subset(p, runtimes.dom());
    assert(h.disjoint(d));
    vstd::set_lib::lemma_set_disjoint_lens(h, d);
    assert((h + d).disjoint(p));
    vstd::set_lib::lemma_set_disjoint_lens(h + d, p);
    assert(h + d + p =~= runtimes.dom());
}

} // verus!
