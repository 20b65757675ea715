//! Watching scsynth: acknowledgements of sent actions, liveness polling and
//! server status replies.
//!
//! Times are milliseconds held as the bits of an `f64`; comparing them with
//! a clock is left to the caller, which tells these types what it found.

use std::collections::HashMap;
use vstd::prelude::*;
use crate::osc::{OscArg, OscMessage, ScynthCmd, OscValue};
use crate::audio::{ActionStatus, ScynthHealth};
use crate::strmap::{StrMap, map_of, sorted_keys, keys_where, key_lt, lemma_keys_where_prefix,
    lemma_map_of_prefix, lemma_index_of_present};
use crate::text::str_eq;

verus! {

broadcast use vstd::std_specs::hash::group_hash_axioms;

/// The status a reply address announces: `/done` loads, `/fail` fails.
pub open spec fn reply_status(address: Seq<char>) -> Option<ActionStatus> {
    if address == "/done"@ {
        Some(ActionStatus::Loaded)
    } else if address == "/fail"@ {
        Some(ActionStatus::Failed)
    } else {
        None
    }
}

/// The first argument, when it is an integer.
pub open spec fn first_int(args: Seq<OscArg>) -> Option<i32> {
    if args.len() > 0 && args[0] is Int {
        Some(args[0]->Int_0)
    } else {
        None
    }
}

/// The action a reply concerns and the status it announces: the reply must
/// be `/done` or `/fail` and its first argument a node id that some action
/// was registered with.
pub open spec fn reply_target(nodes: Map<i32, Seq<char>>, msg: OscMessage) -> Option<(Seq<char>, ActionStatus)> {
    match (reply_status(msg.address@), first_int(msg.args@)) {
        (Some(st), Some(n)) => if nodes.contains_key(n) {
            Some((nodes[n], st))
        } else {
            None
        },
        _ => None,
    }
}

/// `actions` with the status of `k` set to `st`, when `k` is there.
pub open spec fn with_status(actions: Map<Seq<char>, (i32, ActionStatus, u64)>, k: Seq<char>, st: ActionStatus)
    -> Map<Seq<char>, (i32, ActionStatus, u64)>
{
    if actions.contains_key(k) {
        actions.insert(k, (actions[k].0, st, actions[k].2))
    } else {
        actions
    }
}

/// The actions still waiting for an acknowledgement.
pub open spec fn pending_keys(actions: Map<Seq<char>, (i32, ActionStatus, u64)>) -> Set<Seq<char>> {
    keys_where(actions, |v: (i32, ActionStatus, u64)| v.1 == ActionStatus::Pending)
}

/// The actions that were acknowledged or failed.
pub open spec fn completed_keys(actions: Map<Seq<char>, (i32, ActionStatus, u64)>) -> Set<Seq<char>> {
    keys_where(actions, |v: (i32, ActionStatus, u64)| v.1 != ActionStatus::Pending)
}

/// The node ids of the completed actions.
pub open spec fn completed_nodes(actions: Map<Seq<char>, (i32, ActionStatus, u64)>) -> Set<i32> {
    Set::new(|n: i32| exists|k: Seq<char>| #[trigger] completed_keys(actions).contains(k) && actions[k].0 == n)
}

/// Tracks actions sent to scsynth and matches its `/done` and `/fail`
/// replies to them through their node ids.
pub struct AckCollector {
    actions: StrMap<(i32, ActionStatus, u64)>,
    node_to_action: HashMap<i32, String>,
    timeout_ms_bits: u64,
}

impl AckCollector {
    /// Each action to its node id, status and send time.
    pub closed spec fn actions_spec(&self) -> Map<Seq<char>, (i32, ActionStatus, u64)> {
        self.actions@
    }

    /// Each registered node id to its action.
    pub closed spec fn nodes_spec(&self) -> Map<i32, Seq<char>> {
        self.node_to_action@.map_values(|s: String| s@)
    }

    /// How long an action may wait for its acknowledgement.
    pub closed spec fn timeout_spec(&self) -> u64 {
        self.timeout_ms_bits
    }

    /// The action table is well formed.
    pub closed spec fn wf(&self) -> bool {
        self.actions.wf()
    }

    /// A collector with nothing in flight.
    pub fn new(timeout_ms_bits: u64) -> (c: Self)
        ensures
            c.wf(),
            c.actions_spec() == Map::<Seq<char>, (i32, ActionStatus, u64)>::empty(),
            c.nodes_spec() == Map::<i32, Seq<char>>::empty(),
            c.timeout_spec() == timeout_ms_bits,
    {
        let c = AckCollector { actions: StrMap::new(), node_to_action: HashMap::new(), timeout_ms_bits };
        proof {
            assert(c.nodes_spec() =~= Map::<i32, Seq<char>>::empty());
        }
        c
    }

    /// The timeout, as the bits of an `f64` in milliseconds.
    pub fn timeout_ms_bits(&self) -> (t: u64)
        ensures
            t == self.timeout_spec(),
    {
        self.timeout_ms_bits
    }

    /// Registers a pending action sent with `node_id` at `sent_at_ms_bits`.
    pub fn register(&mut self, action_id: &str, node_id: i32, sent_at_ms_bits: u64)
        requires
            old(self).wf(),
        ensures
            final(self).wf(),
            final(self).actions_spec() == old(self).actions_spec().insert(
                action_id@,
                (node_id, ActionStatus::Pending, sent_at_ms_bits),
            ),
            final(self).nodes_spec() == old(self).nodes_spec().insert(node_id, action_id@),
            final(self).timeout_spec() == old(self).timeout_spec(),
    {
        let v = (node_id, ActionStatus::Pending, sent_at_ms_bits);
        match self.actions.find(action_id) {
            Some(i) => {
                self.actions.set_value(i, v);
            },
            None => {
                let _ = self.actions.insert_new(String::from_str(action_id), v);
            },
        }
        let ghost before = self.node_to_action@;
        self.node_to_action.insert(node_id, String::from_str(action_id));
        proof {
            assert(self.nodes_spec() =~= old(self).nodes_spec().insert(node_id, action_id@));
        }
    }

    /// Handles a reply from scsynth: a `/done` or `/fail` whose first
    /// argument is a registered node id sets that node's action to loaded
    /// or failed and names the action and its new status. Anything else is
    /// ignored.
    pub fn process_reply(&mut self, msg: &OscMessage) -> (r: Option<(String, ActionStatus)>)
        requires
            old(self).wf(),
        ensures
            final(self).wf(),
            final(self).nodes_spec() == old(self).nodes_spec(),
            final(self).timeout_spec() == old(self).timeout_spec(),
            match reply_target(old(self).nodes_spec(), *msg) {
                Some((k, st)) => {
                    &&& r matches Some((id, s)) && id@ == k && s == st
                    &&& final(self).actions_spec() == with_status(old(self).actions_spec(), k, st)
                },
                None => {
                    &&& r is None
                    &&& final(self).actions_spec() == old(self).actions_spec()
                },
            },
    {
        proof {
            reveal_strlit("/done");
            reveal_strlit("/fail");
        }
        let new_status = if str_eq(msg.address.as_str(), "/done") {
            ActionStatus::Loaded
        } else if str_eq(msg.address.as_str(), "/fail") {
            ActionStatus::Failed
        } else {
            return None;
        };
        if msg.args.len() == 0 {
            return None;
        }
        let node_id = match &msg.args[0] {
            OscArg::Int(id) => *id,
            _ => {
                return None;
            },
        };
        let action_id: String = match self.node_to_action.get(&node_id) {
            Some(a) => a.clone(),
            None => {
                return None;
            },
        };
        proof {
            assert(old(self).nodes_spec().contains_key(node_id));
            assert(old(self).nodes_spec()[node_id] == action_id@);
            assert(first_int(msg.args@) == Some(node_id));
        }
        match self.actions.find(action_id.as_str()) {
            Some(i) => {
                proof {
                    crate::strmap::lemma_index_unique(self.actions.entries_spec(), action_id@);
                    assert(self.actions@.contains_key(action_id@));
                    assert(self.actions@[action_id@] == self.actions.entries_spec()[i as int].1);
                }
                let (n, _, sent) = self.actions.entry(i).1;
                self.actions.set_value(i, (n, new_status, sent));
            },
            None => {
                proof {
                    assert(!self.actions@.contains_key(action_id@));
                }
            },
        }
        Some((action_id, new_status))
    }

    /// The status of `action_id`, if it is tracked.
    pub fn status(&self, action_id: &str) -> (r: Option<ActionStatus>)
        requires
            self.wf(),
        ensures
            r == (if self.actions_spec().contains_key(action_id@) {
                Some(self.actions_spec()[action_id@].1)
            } else {
                None::<ActionStatus>
            }),
    {
        match self.actions.get(action_id) {
            Some(v) => Some(v.1),
            None => None,
        }
    }

    /// Number of actions still pending.
    pub fn pending_count(&self) -> (n: usize)
        requires
            self.wf(),
        ensures
            pending_keys(self.actions_spec()).finite(),
            n == pending_keys(self.actions_spec()).len(),
    {
        let ghost entries = self.actions.entries_spec();
        let ghost p = |v: (i32, ActionStatus, u64)| v.1 == ActionStatus::Pending;
        let count = self.actions.len();
        let mut n: usize = 0;
        let mut i: usize = 0;
        proof {
            assert(keys_where(map_of(entries.take(0)), p) =~= Set::<Seq<char>>::empty());
        }
        while i < count
            invariant
                p == (|v: (i32, ActionStatus, u64)| v.1 == ActionStatus::Pending),
                entries == self.actions.entries_spec(),
                sorted_keys(entries),
                count == entries.len(),
                i <= count,
                keys_where(map_of(entries.take(i as int)), p).finite(),
                n == keys_where(map_of(entries.take(i as int)), p).len(),
                n <= i,
            decreases count - i,
        {
            proof {
                lemma_keys_where_prefix(entries, i as int, p);
                assert(p(entries[i as int].1) == (entries[i as int].1.1 == ActionStatus::Pending));
            }
            if self.actions.entry(i).1.1 == ActionStatus::Pending {
                n = n + 1;
            }
            i = i + 1;
        }
        proof {
            assert(entries.take(count as int) =~= entries);
        }
        n
    }

    /// The pending actions with their send times, in increasing action order.
    pub fn pending_actions(&self) -> (r: Vec<(String, u64)>)
        requires
            self.wf(),
        ensures
            pending_keys(self.actions_spec()).finite(),
            r@.len() == pending_keys(self.actions_spec()).len(),
            forall|i: int| 0 <= i < r@.len() ==> {
                let k = #[trigger] r@[i].0@;
                &&& self.actions_spec().contains_key(k)
                &&& self.actions_spec()[k].1 == ActionStatus::Pending
                &&& r@[i].1 == self.actions_spec()[k].2
            },
            forall|i: int, j: int| 0 <= i < j < r@.len() ==> key_lt(#[trigger] r@[i].0@, #[trigger] r@[j].0@),
    {
        let ghost entries = self.actions.entries_spec();
        let ghost p = |v: (i32, ActionStatus, u64)| v.1 == ActionStatus::Pending;
        let count = self.actions.len();
        let mut out: Vec<(String, u64)> = Vec::new();
        let ghost mut idx: Seq<int> = Seq::empty();
        let mut i: usize = 0;
        proof {
            assert(keys_where(map_of(entries.take(0)), p) =~= Set::<Seq<char>>::empty());
        }
        while i < count
            invariant
                p == (|v: (i32, ActionStatus, u64)| v.1 == ActionStatus::Pending),
                entries == self.actions.entries_spec(),
                sorted_keys(entries),
                count == entries.len(),
                i <= count,
                keys_where(map_of(entries.take(i as int)), p).finite(),
                out@.len() == keys_where(map_of(entries.take(i as int)), p).len(),
                idx.len() == out@.len(),
                forall|a: int| 0 <= a < idx.len() ==> {
                    &&& 0 <= #[trigger] idx[a] < i
                    &&& out@[a].0@ == entries[idx[a]].0@
                    &&& entries[idx[a]].1.1 == ActionStatus::Pending
                    &&& out@[a].1 == entries[idx[a]].1.2
                },
                forall|a: int, b: int| 0 <= a < b < idx.len() ==> #[trigger] idx[a] < #[trigger] idx[b],
            decreases count - i,
        {
            proof {
                lemma_keys_where_prefix(entries, i as int, p);
                assert(p(entries[i as int].1) == (entries[i as int].1.1 == ActionStatus::Pending));
            }
            let e = self.actions.entry(i);
            if e.1.1 == ActionStatus::Pending {
                out.push((e.0.clone(), e.1.2));
                proof {
                    idx = idx.push(i as int);
                }
            }
            i = i + 1;
        }
        proof {
            assert(entries.take(count as int) =~= entries);
            assert forall|a: int| 0 <= a < out@.len() implies {
                let k = #[trigger] out@[a].0@;
                &&& self.actions_spec().contains_key(k)
                &&& self.actions_spec()[k].1 == ActionStatus::Pending
                &&& out@[a].1 == self.actions_spec()[k].2
            } by {
                lemma_index_of_present(entries, idx[a]);
            }
            assert forall|a: int, b: int| 0 <= a < b < out@.len() implies key_lt(#[trigger] out@[a].0@, #[trigger] out@[b].0@) by {
                assert(idx[a] < idx[b]);
            }
        }
        out
    }

    /// Removes the acknowledged and failed actions, with the node ids they
    /// were registered with, and hands them out with their statuses in
    /// increasing action order.
    pub fn drain_completed(&mut self) -> (r: Vec<(String, ActionStatus)>)
        requires
            old(self).wf(),
        ensures
            final(self).wf(),
            completed_keys(old(self).actions_spec()).finite(),
            r@.len() == completed_keys(old(self).actions_spec()).len(),
            forall|i: int| 0 <= i < r@.len() ==> {
                let k = #[trigger] r@[i].0@;
                &&& old(self).actions_spec().contains_key(k)
                &&& old(self).actions_spec()[k].1 != ActionStatus::Pending
                &&& r@[i].1 == old(self).actions_spec()[k].1
            },
            forall|i: int, j: int| 0 <= i < j < r@.len() ==> key_lt(#[trigger] r@[i].0@, #[trigger] r@[j].0@),
            final(self).actions_spec() == old(self).actions_spec().remove_keys(completed_keys(old(self).actions_spec())),
            final(self).nodes_spec() == old(self).nodes_spec().remove_keys(completed_nodes(old(self).actions_spec())),
            final(self).timeout_spec() == old(self).timeout_spec(),
    {
        let ghost entries = self.actions.entries_spec();
        let ghost q = |v: (i32, ActionStatus, u64)| v.1 != ActionStatus::Pending;
        let ghost old_actions = self.actions@;
        let ghost old_nodes = self.nodes_spec();
        let count = self.actions.len();
        let mut done: Vec<(String, ActionStatus)> = Vec::new();
        let mut nodes: Vec<i32> = Vec::new();
        let ghost mut idx: Seq<int> = Seq::empty();
        let ghost mut keys: Seq<Seq<char>> = Seq::empty();
        let mut i: usize = 0;
        proof {
            assert(keys_where(map_of(entries.take(0)), q) =~= Set::<Seq<char>>::empty());
            assert(keys.to_set() =~= Set::<Seq<char>>::empty());
        }
        while i < count
            invariant
                q == (|v: (i32, ActionStatus, u64)| v.1 != ActionStatus::Pending),
                entries == self.actions.entries_spec(),
                sorted_keys(entries),
                count == entries.len(),
                i <= count,
                keys_where(map_of(entries.take(i as int)), q).finite(),
                keys.to_set() == keys_where(map_of(entries.take(i as int)), q),
                done@.len() == keys_where(map_of(entries.take(i as int)), q).len(),
                idx.len() == done@.len(),
                keys.len() == done@.len(),
                nodes@.len() == done@.len(),
                forall|a: int| 0 <= a < idx.len() ==> {
                    &&& 0 <= #[trigger] idx[a] < i
                    &&& done@[a].0@ == entries[idx[a]].0@
                    &&& keys[a] == entries[idx[a]].0@
                    &&& entries[idx[a]].1.1 != ActionStatus::Pending
                    &&& done@[a].1 == entries[idx[a]].1.1
                    &&& nodes@[a] == entries[idx[a]].1.0
                },
                forall|a: int, b: int| 0 <= a < b < idx.len() ==> #[trigger] idx[a] < #[trigger] idx[b],
            decreases count - i,
        {
            proof {
                lemma_keys_where_prefix(entries, i as int, q);
                lemma_map_of_prefix(entries, i as int);
                assert(q(entries[i as int].1) == (entries[i as int].1.1 != ActionStatus::Pending));
            }
            let e = self.actions.entry(i);
            if e.1.1 != ActionStatus::Pending {
                done.push((e.0.clone(), e.1.1));
                nodes.push(e.1.0);
                proof {
                    let k = entries[i as int].0@;
                    keys.lemma_push_to_set_commute(k);
                    assert(keys_where(map_of(entries.take(i + 1)), q) =~= keys_where(map_of(entries.take(i as int)), q).insert(k));
                    idx = idx.push(i as int);
                    keys = keys.push(k);
                }
            } else {
                proof {
                    assert(keys_where(map_of(entries.take(i + 1)), q) =~= keys_where(map_of(entries.take(i as int)), q));
                }
            }
            i = i + 1;
        }
        proof {
            assert(entries.take(count as int) =~= entries);
            assert(old_actions == map_of(entries));
            assert forall|a: int| 0 <= a < idx.len() implies old_actions.contains_key(#[trigger] keys[a])
                && old_actions[keys[a]] == entries[idx[a]].1 by {
                lemma_index_of_present(entries, idx[a]);
            }
        }
        let n = done.len();
        let mut j: usize = 0;
        proof {
            assert(old_actions.remove_keys(keys.take(0).to_set()) =~= old_actions);
            assert(old_nodes.remove_keys(nodes@.take(0).to_set()) =~= old_nodes);
        }
        while j < n
            invariant
                n == done@.len(),
                n == keys.len(),
                n == nodes@.len(),
                j <= n,
                forall|a: int| 0 <= a < n ==> #[trigger] done@[a].0@ == keys[a],
                self.actions.wf(),
                self.actions@ == old_actions.remove_keys(keys.take(j as int).to_set()),
                self.nodes_spec() == old_nodes.remove_keys(nodes@.take(j as int).to_set()),
                self.timeout_ms_bits == old(self).timeout_ms_bits,
            decreases n - j,
        {
            let _ = self.actions.remove(done[j].0.as_str());
            let ghost prev_spec = self.nodes_spec();
            let _ = self.node_to_action.remove(&nodes[j]);
            proof {
                assert(self.nodes_spec() =~= prev_spec.remove(nodes@[j as int]));
                assert(keys.take(j + 1) =~= keys.take(j as int).push(keys[j as int]));
                assert(nodes@.take(j + 1) =~= nodes@.take(j as int).push(nodes@[j as int]));
                keys.take(j as int).lemma_push_to_set_commute(keys[j as int]);
                nodes@.take(j as int).lemma_push_to_set_commute(nodes@[j as int]);
                assert(self.actions@ =~= old_actions.remove_keys(keys.take(j + 1).to_set()));
                assert(self.nodes_spec() =~= old_nodes.remove_keys(nodes@.take(j + 1).to_set()));
            }
            j = j + 1;
        }
        proof {
            assert(keys.take(n as int) =~= keys);
            assert(nodes@.take(n as int) =~= nodes@);
            assert(completed_keys(old_actions) == keys.to_set());
            assert forall|x: i32| #[trigger] nodes@.to_set().contains(x) <==> completed_nodes(old_actions).contains(x) by {
                if nodes@.to_set().contains(x) {
                    let a = choose|a: int| 0 <= a < nodes@.len() && nodes@[a] == x;
                    assert(keys.to_set().contains(keys[a]));
                    assert(completed_keys(old_actions).contains(keys[a]) && old_actions[keys[a]].0 == x);
                }
                if completed_nodes(old_actions).contains(x) {
                    let k = choose|k: Seq<char>| #[trigger] completed_keys(old_actions).contains(k) && old_actions[k].0 == x;
                    assert(keys.to_set().contains(k));
                    let a = choose|a: int| 0 <= a < keys.len() && keys[a] == k;
                    assert(nodes@[a] == x);
                    assert(nodes@.contains(x));
                }
            }
            assert(nodes@.to_set() =~= completed_nodes(old_actions));
            assert forall|a: int| 0 <= a < done@.len() implies {
                let k = #[trigger] done@[a].0@;
                &&& old_actions.contains_key(k)
                &&& old_actions[k].1 != ActionStatus::Pending
                &&& done@[a].1 == old_actions[k].1
            } by {
                assert(done@[a].0@ == keys[a]);
            }
            assert forall|a: int, b: int| 0 <= a < b < done@.len() implies key_lt(#[trigger] done@[a].0@, #[trigger] done@[b].0@) by {
                assert(idx[a] < idx[b]);
            }
        }
        done
    }

    /// Marks `action_id` failed if it is pending; whether it was.
    pub fn fail_pending(&mut self, action_id: &str) -> (b: bool)
        requires
            old(self).wf(),
        ensures
            final(self).wf(),
            b == (old(self).actions_spec().contains_key(action_id@)
                && old(self).actions_spec()[action_id@].1 == ActionStatus::Pending),
            final(self).actions_spec() == (if b {
                with_status(old(self).actions_spec(), action_id@, ActionStatus::Failed)
            } else {
                old(self).actions_spec()
            }),
            final(self).nodes_spec() == old(self).nodes_spec(),
            final(self).timeout_spec() == old(self).timeout_spec(),
    {
        match self.actions.find(action_id) {
            Some(i) => {
                proof {
                    crate::strmap::lemma_index_unique(self.actions.entries_spec(), action_id@);
                    assert(self.actions@.contains_key(action_id@));
                    assert(self.actions@[action_id@] == self.actions.entries_spec()[i as int].1);
                }
                let (n, st, sent) = self.actions.entry(i).1;
                if st == ActionStatus::Pending {
                    self.actions.set_value(i, (n, ActionStatus::Failed, sent));
                    true
                } else {
                    false
                }
            },
            None => {
                proof {
                    assert(!self.actions@.contains_key(action_id@));
                }
                false
            },
        }
    }
}


/// After a drain only pending actions remain, and all of them do.
pub proof fn law_drain_keeps_exactly_the_pending(actions: Map<Seq<char>, (i32, ActionStatus, u64)>)
    requires
        actions.dom().finite(),
    ensures
        completed_keys(actions.remove_keys(completed_keys(actions))) == Set::<Seq<char>>::empty(),
        pending_keys(actions.remove_keys(completed_keys(actions))) == pending_keys(actions),
{
    let after = actions.remove_keys(completed_keys(actions));
    assert(completed_keys(after) =~= Set::<Seq<char>>::empty());
    assert(pending_keys(after) =~= pending_keys(actions));
}

/// A `/done` or `/fail` reply naming the node an action was registered
/// with reaches that action.
pub proof fn law_registered_node_is_acknowledged(
    nodes: Map<i32, Seq<char>>,
    node_id: i32,
    action_id: Seq<char>,
    msg: OscMessage,
    st: ActionStatus,
)
    requires
        reply_status(msg.address@) == Some(st),
        msg.args@.len() > 0,
        msg.args@[0] == OscArg::Int(node_id),
    ensures
        reply_target(nodes.insert(node_id, action_id), msg) == Some((action_id, st)),
{
}

/// Monitors scsynth liveness by polling `/status`.
///
/// The caller owns the clock: it says whether the poll in flight has gone
/// unanswered for the timeout, from the times this monitor reports.
pub struct HealthMonitor {
    timeout_ms_bits: u64,
    last_poll_ms_bits: u64,
    last_reply_ms_bits: u64,
    health: ScynthHealth,
    poll_in_flight: bool,
}

impl HealthMonitor {
    /// The current health.
    pub closed spec fn health_spec(&self) -> ScynthHealth {
        self.health
    }

    /// Whether a poll waits for its reply.
    pub closed spec fn in_flight_spec(&self) -> bool {
        self.poll_in_flight
    }

    /// When the last poll was sent.
    pub closed spec fn last_poll_spec(&self) -> u64 {
        self.last_poll_ms_bits
    }

    /// When the last status reply came.
    pub closed spec fn last_reply_spec(&self) -> u64 {
        self.last_reply_ms_bits
    }

    /// How long a poll may wait for its reply.
    pub closed spec fn timeout_spec(&self) -> u64 {
        self.timeout_ms_bits
    }

    /// A healthy monitor with no poll sent; both times are zero.
    pub fn new(timeout_ms_bits: u64) -> (m: Self)
        ensures
            m.health_spec() == ScynthHealth::Healthy,
            !m.in_flight_spec(),
            m.last_poll_spec() == 0,
            m.last_reply_spec() == 0,
            m.timeout_spec() == timeout_ms_bits,
    {
        HealthMonitor {
            timeout_ms_bits,
            last_poll_ms_bits: 0,
            last_reply_ms_bits: 0,
            health: ScynthHealth::Healthy,
            poll_in_flight: false,
        }
    }

    /// A `/status` poll to send at `now_ms_bits`, unless one is in flight
    /// and not `expired`. A poll that expired unanswered degrades the
    /// health before the new one goes out.
    pub fn poll(&mut self, now_ms_bits: u64, expired: bool) -> (r: Option<OscMessage>)
        ensures
            final(self).timeout_spec() == old(self).timeout_spec(),
            final(self).last_reply_spec() == old(self).last_reply_spec(),
            if old(self).in_flight_spec() && !expired {
                &&& r is None
                &&& *final(self) == *old(self)
            } else {
                &&& r matches Some(m) && m.parts() == ("/status"@, Seq::<OscValue>::empty())
                &&& final(self).in_flight_spec()
                &&& final(self).last_poll_spec() == now_ms_bits
                &&& final(self).health_spec() == (if old(self).in_flight_spec() {
                    ScynthHealth::Degraded
                } else {
                    old(self).health_spec()
                })
            },
    {
        if self.poll_in_flight && !expired {
            return None;
        }
        if self.poll_in_flight {
            self.health = ScynthHealth::Degraded;
        }
        self.last_poll_ms_bits = now_ms_bits;
        self.poll_in_flight = true;
        Some(ScynthCmd::status())
    }

    /// Handles a reply: a `/status.reply` marks the server healthy, ends the
    /// poll in flight and records `now_ms_bits`; whether it was one.
    pub fn process_reply(&mut self, msg: &OscMessage, now_ms_bits: u64) -> (b: bool)
        ensures
            b == (msg.address@ == "/status.reply"@),
            final(self).timeout_spec() == old(self).timeout_spec(),
            final(self).last_poll_spec() == old(self).last_poll_spec(),
            b ==> final(self).health_spec() == ScynthHealth::Healthy && !final(self).in_flight_spec()
                && final(self).last_reply_spec() == now_ms_bits,
            !b ==> *final(self) == *old(self),
    {
        if !str_eq(msg.address.as_str(), "/status.reply") {
            return false;
        }
        self.last_reply_ms_bits = now_ms_bits;
        self.poll_in_flight = false;
        self.health = ScynthHealth::Healthy;
        true
    }

    /// The health after a look at the clock: a poll in flight that
    /// `expired` degrades it.
    pub fn evaluate(&mut self, expired: bool) -> (h: ScynthHealth)
        ensures
            final(self).in_flight_spec() == old(self).in_flight_spec(),
            final(self).last_poll_spec() == old(self).last_poll_spec(),
            final(self).last_reply_spec() == old(self).last_reply_spec(),
            final(self).timeout_spec() == old(self).timeout_spec(),
            final(self).health_spec() == (if old(self).in_flight_spec() && expired {
                ScynthHealth::Degraded
            } else {
                old(self).health_spec()
            }),
            h == final(self).health_spec(),
    {
        if self.poll_in_flight && expired {
            self.health = ScynthHealth::Degraded;
        }
        self.health
    }

    /// The current health.
    pub fn health(&self) -> (h: ScynthHealth)
        ensures
            h == self.health_spec(),
    {
        self.health
    }

    /// Marks the server offline, as when its process died.
    pub fn mark_offline(&mut self)
        ensures
            final(self).health_spec() == ScynthHealth::Offline,
            !final(self).in_flight_spec(),
            final(self).last_poll_spec() == old(self).last_poll_spec(),
            final(self).last_reply_spec() == old(self).last_reply_spec(),
            final(self).timeout_spec() == old(self).timeout_spec(),
    {
        self.health = ScynthHealth::Offline;
        self.poll_in_flight = false;
    }

    /// Whether a poll waits for its reply.
    pub fn poll_in_flight(&self) -> (b: bool)
        ensures
            b == self.in_flight_spec(),
    {
        self.poll_in_flight
    }

    /// When the last poll was sent, as the bits of an `f64` in milliseconds.
    pub fn last_poll_ms_bits(&self) -> (t: u64)
        ensures
            t == self.last_poll_spec(),
    {
        self.last_poll_ms_bits
    }

    /// When the last status reply came, as the bits of an `f64` in milliseconds.
    pub fn last_reply_ms_bits(&self) -> (t: u64)
        ensures
            t == self.last_reply_spec(),
    {
        self.last_reply_ms_bits
    }

    /// The timeout, as the bits of an `f64` in milliseconds.
    pub fn timeout_ms_bits(&self) -> (t: u64)
        ensures
            t == self.timeout_spec(),
    {
        self.timeout_ms_bits
    }
}

/// scsynth's state as a `/status.reply` reports it. The CPU loads and
/// sample rates are `f32` values, held as their bits.
#[derive(Debug, Clone)]
pub struct ServerStatus {
    pub num_ugens: i32,
    pub num_synths: i32,
    pub num_groups: i32,
    pub num_synthdefs: i32,
    pub avg_cpu_bits: u32,
    pub peak_cpu_bits: u32,
    pub nominal_sample_rate_bits: u32,
    pub actual_sample_rate_bits: u32,
}

/// Why a message is not a status reply.
#[derive(Debug, Clone)]
pub enum StatusReplyError {
    /// The address is not `/status.reply`; it holds the address found.
    WrongAddress(String),
    /// Fewer than nine arguments; it holds the count found.
    TooFewArgs(usize),
    /// The named field should be an integer; it holds the argument found.
    ExpectedInt(String, OscArg),
    /// The named field should be a float; it holds the argument found.
    ExpectedFloat(String, OscArg),
}

/// The outcome of a status query.
#[derive(Debug, Clone)]
pub enum QueryResult {
    /// The server answered with its status.
    Reply(ServerStatus),
    Timeout,
    Error(String),
}

/// The field read from argument `i` of a status reply (the first argument
/// is unused).
pub open spec fn status_field_name(i: int) -> Seq<char> {
    if i == 1 { "num_ugens"@ }
    else if i == 2 { "num_synths"@ }
    else if i == 3 { "num_groups"@ }
    else if i == 4 { "num_synthdefs"@ }
    else if i == 5 { "avg_cpu"@ }
    else if i == 6 { "peak_cpu"@ }
    else if i == 7 { "nominal_sr"@ }
    else { "actual_sr"@ }
}

/// Argument `i` has the type its field needs: integers first, then floats.
pub open spec fn status_arg_fits(i: int, a: OscArg) -> bool {
    if i <= 4 { a is Int } else { a is Float }
}

/// The first of the arguments `from..=8` that has the wrong type.
pub open spec fn first_misfit(args: Seq<OscArg>, from: int) -> Option<int>
    decreases 9 - from,
{
    if from > 8 {
        None
    } else if !status_arg_fits(from, args[from]) {
        Some(from)
    } else {
        first_misfit(args, from + 1)
    }
}

/// The integer in an argument known to be one.
pub open spec fn int_of(a: OscArg) -> i32 {
    a->Int_0
}

/// The float bits in an argument known to be a float.
pub open spec fn float_of(a: OscArg) -> u32 {
    a->Float_0
}

/// `st` holds the fields of the status reply arguments `args`.
pub open spec fn status_from_args(st: ServerStatus, args: Seq<OscArg>) -> bool {
    &&& st.num_ugens == int_of(args[1])
    &&& st.num_synths == int_of(args[2])
    &&& st.num_groups == int_of(args[3])
    &&& st.num_synthdefs == int_of(args[4])
    &&& st.avg_cpu_bits == float_of(args[5])
    &&& st.peak_cpu_bits == float_of(args[6])
    &&& st.nominal_sample_rate_bits == float_of(args[7])
    &&& st.actual_sample_rate_bits == float_of(args[8])
}

fn status_field(i: usize) -> (s: String)
    requires
        1 <= i <= 8,
    ensures
        s@ == status_field_name(i as int),
{
    proof {
        reveal_strlit("num_ugens");
        reveal_strlit("num_synths");
        reveal_strlit("num_groups");
        reveal_strlit("num_synthdefs");
        reveal_strlit("avg_cpu");
        reveal_strlit("peak_cpu");
        reveal_strlit("nominal_sr");
        reveal_strlit("actual_sr");
    }
    let name = if i == 1 { "num_ugens" }
        else if i == 2 { "num_synths" }
        else if i == 3 { "num_groups" }
        else if i == 4 { "num_synthdefs" }
        else if i == 5 { "avg_cpu" }
        else if i == 6 { "peak_cpu" }
        else if i == 7 { "nominal_sr" }
        else { "actual_sr" };
    String::from_str(name)
}

/// A copy of an argument.
fn copy_arg(a: &OscArg) -> (r: OscArg)
    ensures
        r.value() == a.value(),
{
    match a {
        OscArg::Int(v) => OscArg::Int(*v),
        OscArg::Float(b) => OscArg::Float(*b),
        OscArg::String(t) => OscArg::String(t.clone()),
        OscArg::Blob(d) => {
            let c = d.clone();
            proof {
                assert(c@ =~= d@);
            }
            OscArg::Blob(c)
        },
    }
}

fn extract_int(args: &Vec<OscArg>, i: usize) -> (r: Result<i32, StatusReplyError>)
    requires
        1 <= i <= 4,
        i < args@.len(),
    ensures
        match r {
            Ok(v) => args@[i as int] is Int && v == int_of(args@[i as int]),
            Err(StatusReplyError::ExpectedInt(name, a)) => !(args@[i as int] is Int)
                && name@ == status_field_name(i as int) && a.value() == args@[i as int].value(),
            Err(_) => false,
        },
{
    match &args[i] {
        OscArg::Int(v) => Ok(*v),
        other => Err(StatusReplyError::ExpectedInt(status_field(i), copy_arg(other))),
    }
}

fn extract_float(args: &Vec<OscArg>, i: usize) -> (r: Result<u32, StatusReplyError>)
    requires
        5 <= i <= 8,
        i < args@.len(),
    ensures
        match r {
            Ok(v) => args@[i as int] is Float && v == float_of(args@[i as int]),
            Err(StatusReplyError::ExpectedFloat(name, a)) => !(args@[i as int] is Float)
                && name@ == status_field_name(i as int) && a.value() == args@[i as int].value(),
            Err(_) => false,
        },
{
    match &args[i] {
        OscArg::Float(v) => Ok(*v),
        other => Err(StatusReplyError::ExpectedFloat(status_field(i), copy_arg(other))),
    }
}

impl ServerStatus {
    /// Reads a `/status.reply`: after an unused first argument come four
    /// integers (unit generators, synths, groups, synth definitions) and
    /// four floats (average and peak CPU, nominal and actual sample rate).
    /// The first check that fails names the error: the address, then the
    /// argument count, then each argument's type in order.
    pub fn from_status_reply(msg: &OscMessage) -> (r: Result<ServerStatus, StatusReplyError>)
        ensures
            msg.address@ != "/status.reply"@ ==> (r matches Err(StatusReplyError::WrongAddress(a)) && a@ == msg.address@),
            msg.address@ == "/status.reply"@ && msg.args@.len() < 9 ==> (r matches Err(StatusReplyError::TooFewArgs(n))
                && n == msg.args@.len()),
            msg.address@ == "/status.reply"@ && msg.args@.len() >= 9 ==> match first_misfit(msg.args@, 1) {
                Some(i) => if i <= 4 {
                    r matches Err(StatusReplyError::ExpectedInt(name, a)) && name@ == status_field_name(i) && a.value() == msg.args@[i].value()
                } else {
                    r matches Err(StatusReplyError::ExpectedFloat(name, a)) && name@ == status_field_name(i) && a.value() == msg.args@[i].value()
                },
                None => r matches Ok(st) && status_from_args(st, msg.args@),
            },
    {
        if !str_eq(msg.address.as_str(), "/status.reply") {
            return Err(StatusReplyError::WrongAddress(msg.address.clone()));
        }
        if msg.args.len() < 9 {
            return Err(StatusReplyError::TooFewArgs(msg.args.len()));
        }
        proof {
            reveal_with_fuel(first_misfit, 9);
        }
        let args = &msg.args;
        let num_ugens = match extract_int(args, 1) { Ok(v) => v, Err(e) => { return Err(e); } };
        let num_synths = match extract_int(args, 2) { Ok(v) => v, Err(e) => { return Err(e); } };
        let num_groups = match extract_int(args, 3) { Ok(v) => v, Err(e) => { return Err(e); } };
        let num_synthdefs = match extract_int(args, 4) { Ok(v) => v, Err(e) => { return Err(e); } };
        let avg_cpu_bits = match extract_float(args, 5) { Ok(v) => v, Err(e) => { return Err(e); } };
        let peak_cpu_bits = match extract_float(args, 6) { Ok(v) => v, Err(e) => { return Err(e); } };
        let nominal_sample_rate_bits = match extract_float(args, 7) { Ok(v) => v, Err(e) => { return Err(e); } };
        let actual_sample_rate_bits = match extract_float(args, 8) { Ok(v) => v, Err(e) => { return Err(e); } };
        Ok(ServerStatus {
            num_ugens,
            num_synths,
            num_groups,
            num_synthdefs,
            avg_cpu_bits,
            peak_cpu_bits,
            nominal_sample_rate_bits,
            actual_sample_rate_bits,
        })
    }
}

} // verus!
