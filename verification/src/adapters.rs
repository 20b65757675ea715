//! Registry of adapter plugins with health aggregation, and the example
//! analyzer and visual executor adapters.

use vstd::prelude::*;
use crate::ir::{
    AdapterPluginManifest, Diagnostic, BackendAck, BackendDescription, BackendHealthSnapshot, BackendStatus,
    BackendTopology, DegradeMode, ExecutablePayload, HealthContract,
};
use crate::strmap::{StrMap, index_of_key, lemma_index_unique, map_of, sorted_keys};
use crate::text::{decimal, join2, join3, push_decimal, str_eq};

verus! {

/// Error text for a plugin registered twice.
pub open spec fn duplicate_plugin_error(id: Seq<char>) -> Seq<char> {
    "ADP-001: adapter plugin '"@ + id + "' is already registered"@
}

/// Error text for a lookup of an unregistered plugin.
pub open spec fn unknown_plugin_error(id: Seq<char>) -> Seq<char> {
    "ADP-002: unknown plugin_id '"@ + id + "'"@
}

/// A snapshot status that counts as healthy.
pub open spec fn is_healthy_status(status: Seq<char>) -> bool {
    status == "healthy"@ || status == "ok"@
}

/// A snapshot status that counts as degraded.
pub open spec fn is_degraded_status(status: Seq<char>) -> bool {
    status == "degraded"@
}

/// Every other snapshot status counts as offline.
pub open spec fn is_offline_status(status: Seq<char>) -> bool {
    !is_healthy_status(status) && !is_degraded_status(status)
}

/// Number of snapshots, among `snaps`, of a registered plugin whose status
/// satisfies `class`.
pub open spec fn count_reports(
    registered: Map<Seq<char>, AdapterPluginManifest>,
    snaps: Seq<BackendHealthSnapshot>,
    class: spec_fn(Seq<char>) -> bool,
) -> nat
    decreases snaps.len(),
{
    if snaps.len() == 0 {
        0
    } else {
        count_reports(registered, snaps.drop_last(), class) + if registered.contains_key(snaps.last().plugin_ref@)
            && class(snaps.last().status@) {
            1nat
        } else {
            0nat
        }
    }
}

/// Whether some snapshot reports on plugin `id`.
pub open spec fn reported(snaps: Seq<BackendHealthSnapshot>, id: Seq<char>) -> bool {
    exists|j: int| 0 <= j < snaps.len() && #[trigger] snaps[j].plugin_ref@ == id
}

/// The registered entries on which no snapshot reports.
pub open spec fn unreported(
    entries: Seq<(String, AdapterPluginManifest)>,
    snaps: Seq<BackendHealthSnapshot>,
) -> Seq<(String, AdapterPluginManifest)> {
    entries.filter(|e: (String, AdapterPluginManifest)| !reported(snaps, e.0@))
}

/// The status text of a backend's lifecycle.
pub open spec fn lifecycle_text(shut_down: bool, prepared: bool) -> Seq<char> {
    if shut_down {
        "shutdown"@
    } else if prepared {
        "ready"@
    } else {
        "idle"@
    }
}

/// The status text of a backend's lifecycle, as a string.
pub fn lifecycle_status(shut_down: bool, prepared: bool) -> (s: String)
    ensures
        s@ == lifecycle_text(shut_down, prepared),
{
    if shut_down {
        String::from_str("shutdown")
    } else if prepared {
        String::from_str("ready")
    } else {
        String::from_str("idle")
    }
}

/// The views of a list of strings.
pub open spec fn string_views(v: Seq<String>) -> Seq<Seq<char>> {
    v.map_values(|s: String| s@)
}

/// Counts of registered adapters by health.
#[derive(Debug, Clone, PartialEq, Eq, Structural)]
pub struct HealthSummary {
    pub total: usize,
    pub healthy: usize,
    pub degraded: usize,
    pub offline: usize,
}

/// In-memory registry of adapter plugins, keyed by `plugin_id` and kept in
/// key order.
pub struct AdapterRegistry {
    plugins: StrMap<AdapterPluginManifest>,
}

impl View for AdapterRegistry {
    type V = Map<Seq<char>, AdapterPluginManifest>;

    /// Each registered plugin id to its manifest.
    open spec fn view(&self) -> Map<Seq<char>, AdapterPluginManifest> {
        map_of(self.plugins_spec())
    }
}

impl AdapterRegistry {
    /// The registered entries, in increasing key order.
    pub closed spec fn plugins_spec(self) -> Seq<(String, AdapterPluginManifest)> {
        self.plugins.entries_spec()
    }

    /// The registered manifests, in increasing key order.
    pub open spec fn manifests(self) -> Seq<AdapterPluginManifest> {
        self.plugins_spec().map_values(|e: (String, AdapterPluginManifest)| e.1)
    }

    /// Keys are strictly increasing, so each plugin id occurs once.
    pub open spec fn wf(self) -> bool {
        sorted_keys(self.plugins_spec())
    }

    /// An empty registry.
    pub fn new() -> (r: Self)
        ensures
            r.wf(),
            r@ == Map::<Seq<char>, AdapterPluginManifest>::empty(),
            r.plugins_spec().len() == 0,
    {
        AdapterRegistry { plugins: StrMap::new() }
    }

    /// Registers `manifest` under its `plugin_id`, unless that id is taken.
    pub fn register(&mut self, manifest: AdapterPluginManifest) -> (r: Result<(), String>)
        requires
            old(self).wf(),
        ensures
            final(self).wf(),
            r is Ok <==> !old(self)@.contains_key(manifest.plugin_id@),
            r is Ok ==> final(self)@ == old(self)@.insert(manifest.plugin_id@, manifest),
            r matches Err(e) ==> e@ == duplicate_plugin_error(manifest.plugin_id@)
                && final(self).plugins_spec() == old(self).plugins_spec(),
    {
        if self.plugins.find(manifest.plugin_id.as_str()).is_some() {
            return Err(join3("ADP-001: adapter plugin '", manifest.plugin_id.as_str(), "' is already registered"));
        }
        let key = manifest.plugin_id.clone();
        let _ = self.plugins.insert_new(key, manifest);
        Ok(())
    }

    /// The manifest registered under `plugin_id`.
    pub fn lookup(&self, plugin_id: &str) -> (r: Result<&AdapterPluginManifest, String>)
        requires
            self.wf(),
        ensures
            r is Ok <==> self@.contains_key(plugin_id@),
            r matches Ok(m) ==> *m == self@[plugin_id@],
            r matches Err(e) ==> e@ == unknown_plugin_error(plugin_id@),
    {
        match self.plugins.get(plugin_id) {
            Some(m) => Ok(m),
            None => Err(join3("ADP-002: unknown plugin_id '", plugin_id, "'")),
        }
    }

    /// All registered manifests, in increasing `plugin_id` order.
    pub fn list(&self) -> (r: Vec<&AdapterPluginManifest>)
        ensures
            r@.map_values(|m: &AdapterPluginManifest| *m) == self.manifests(),
    {
        let mut out: Vec<&AdapterPluginManifest> = Vec::new();
        let n = self.plugins.len();
        let mut i: usize = 0;
        while i < n
            invariant
                n == self.plugins_spec().len(),
                i <= n,
                out@.map_values(|m: &AdapterPluginManifest| *m) == self.manifests().subrange(0, i as int),
            decreases n - i,
        {
            let e = self.plugins.entry(i);
            let ghost prev = out@;
            out.push(&e.1);
            proof {
                assert(out@.map_values(|m: &AdapterPluginManifest| *m) =~= prev.map_values(
                    |m: &AdapterPluginManifest| *m,
                ).push(self.manifests()[i as int]));
                assert(self.manifests().subrange(0, i + 1) =~= self.manifests().subrange(0, i as int).push(self.manifests()[i as int]));
            }
            i = i + 1;
        }
        proof {
            assert(self.manifests().subrange(0, n as int) =~= self.manifests());
        }
        out
    }

    /// The registered manifests whose `backend_kind` is `backend_kind`, in
    /// increasing `plugin_id` order.
    pub fn list_by_backend(&self, backend_kind: &str) -> (r: Vec<&AdapterPluginManifest>)
        ensures
            r@.map_values(|m: &AdapterPluginManifest| *m) == self.manifests().filter(
                |m: AdapterPluginManifest| m.backend_kind@ == backend_kind@,
            ),
    {
        let mut out: Vec<&AdapterPluginManifest> = Vec::new();
        let n = self.plugins.len();
        let mut i: usize = 0;
        while i < n
            invariant
                n == self.plugins_spec().len(),
                i <= n,
                out@.map_values(|m: &AdapterPluginManifest| *m) == self.manifests().subrange(0, i as int).filter(
                    |m: AdapterPluginManifest| m.backend_kind@ == backend_kind@,
                ),
            decreases n - i,
        {
            proof {
                reveal_with_fuel(Seq::filter, 1);
                assert(self.manifests().subrange(0, i + 1).drop_last() =~= self.manifests().subrange(0, i as int));
            }
            let e = self.plugins.entry(i);
            let ghost prev = out@;
            if str_eq(e.1.backend_kind.as_str(), backend_kind) {
                out.push(&e.1);
                assert(out@.map_values(|m: &AdapterPluginManifest| *m) =~= prev.map_values(
                    |m: &AdapterPluginManifest| *m,
                ).push(self.manifests()[i as int]));
            }
            i = i + 1;
        }
        proof {
            assert(self.manifests().subrange(0, n as int) =~= self.manifests());
        }
        out
    }

    /// Aggregates `snapshots` over the registered plugins: each snapshot of a
    /// registered plugin counts once by its status ("healthy" or "ok",
    /// "degraded", anything else offline); snapshots of unregistered plugins
    /// are ignored; registered plugins with no snapshot count as offline.
    pub fn health_summary(&self, snapshots: &[BackendHealthSnapshot]) -> (s: HealthSummary)
        requires
            self.wf(),
            snapshots@.len() + self.plugins_spec().len() <= usize::MAX,
        ensures
            s.total == self.plugins_spec().len(),
            s.healthy == count_reports(self@, snapshots@, |st: Seq<char>| is_healthy_status(st)),
            s.degraded == count_reports(self@, snapshots@, |st: Seq<char>| is_degraded_status(st)),
            s.offline == count_reports(self@, snapshots@, |st: Seq<char>| is_offline_status(st))
                + unreported(self.plugins_spec(), snapshots@).len(),
    {
        let n = self.plugins.len();
        let ghost entries = self.plugins_spec();
        let ghost hc = |st: Seq<char>| is_healthy_status(st);
        let ghost dc = |st: Seq<char>| is_degraded_status(st);
        let ghost oc = |st: Seq<char>| is_offline_status(st);
        let mut seen: Vec<bool> = Vec::new();
        let mut k: usize = 0;
        while k < n
            invariant
                k <= n,
                seen@.len() == k,
                forall|j: int| 0 <= j < k ==> !seen@[j],
            decreases n - k,
        {
            seen.push(false);
            k = k + 1;
        }
        let mut healthy: usize = 0;
        let mut degraded: usize = 0;
        let mut offline: usize = 0;
        let mut i: usize = 0;
        while i < snapshots.len()
            invariant
                self.wf(),
                entries == self.plugins_spec(),
                n == entries.len(),
                snapshots@.len() + n <= usize::MAX,
                i <= snapshots@.len(),
                seen@.len() == n,
                forall|j: int| 0 <= j < n ==> #[trigger] seen@[j] == reported(snapshots@.subrange(0, i as int), entries[j].0@),
                healthy == count_reports(self@, snapshots@.subrange(0, i as int), hc),
                degraded == count_reports(self@, snapshots@.subrange(0, i as int), dc),
                offline == count_reports(self@, snapshots@.subrange(0, i as int), oc),
                healthy + degraded + offline <= i,
                hc == (|st: Seq<char>| is_healthy_status(st)),
                dc == (|st: Seq<char>| is_degraded_status(st)),
                oc == (|st: Seq<char>| is_offline_status(st)),
            decreases snapshots@.len() - i,
        {
            let snap = &snapshots[i];
            let ghost before = snapshots@.subrange(0, i as int);
            let ghost after = snapshots@.subrange(0, i + 1);
            proof {
                reveal_strlit("healthy");
                reveal_strlit("ok");
                reveal_strlit("degraded");
                assert("healthy"@.len() != "degraded"@.len());
                assert("ok"@.len() != "degraded"@.len());
                assert(after.drop_last() =~= before);
                assert(after.last() == snapshots@[i as int]);
                lemma_index_unique(entries, snap.plugin_ref@);
            }
            let ghost seen_before = seen@;
            match self.plugins.find(snap.plugin_ref.as_str()) {
                Some(idx) => {
                    seen.set(idx, true);
                    if str_eq(snap.status.as_str(), "healthy") || str_eq(snap.status.as_str(), "ok") {
                        healthy = healthy + 1;
                    } else if str_eq(snap.status.as_str(), "degraded") {
                        degraded = degraded + 1;
                    } else {
                        offline = offline + 1;
                    }
                    proof {
                        assert forall|j: int| 0 <= j < n implies #[trigger] seen@[j] == reported(after, entries[j].0@) by {
                            if j == idx {
                                assert(after[i as int].plugin_ref@ == entries[j].0@);
                            } else {
                                assert(seen@[j] == seen_before[j]);
                                if reported(after, entries[j].0@) {
                                    let w = choose|w: int| 0 <= w < after.len() && #[trigger] after[w].plugin_ref@ == entries[j].0@;
                                    if w == i {
                                        assert(entries[j].0@ == entries[idx as int].0@);
                                    } else {
                                        assert(before[w] == after[w]);
                                    }
                                }
                                if reported(before, entries[j].0@) {
                                    let w = choose|w: int| 0 <= w < before.len() && #[trigger] before[w].plugin_ref@ == entries[j].0@;
                                    assert(before[w] == after[w]);
                                }
                            }
                        }
                    }
                },
                None => {
                    proof {
                        assert forall|j: int| 0 <= j < n implies #[trigger] seen@[j] == reported(after, entries[j].0@) by {
                            if reported(after, entries[j].0@) {
                                let w = choose|w: int| 0 <= w < after.len() && #[trigger] after[w].plugin_ref@ == entries[j].0@;
                                if w == i {
                                    lemma_index_unique(entries, entries[j].0@);
                                    assert(index_of_key(entries, snap.plugin_ref@) is Some);
                                } else {
                                    assert(before[w] == after[w]);
                                }
                            }
                            if reported(before, entries[j].0@) {
                                let w = choose|w: int| 0 <= w < before.len() && #[trigger] before[w].plugin_ref@ == entries[j].0@;
                                assert(before[w] == after[w]);
                            }
                        }
                    }
                },
            }
            i = i + 1;
        }
        proof {
            assert(snapshots@.subrange(0, snapshots@.len() as int) =~= snapshots@);
        }
        let ghost snaps = snapshots@;
        let mut unrep: usize = 0;
        let mut j: usize = 0;
        while j < n
            invariant
                n == entries.len(),
                j <= n,
                seen@.len() == n,
                forall|q: int| 0 <= q < n ==> #[trigger] seen@[q] == reported(snaps, entries[q].0@),
                unrep == unreported(entries.subrange(0, j as int), snaps).len(),
                unrep <= j,
            decreases n - j,
        {
            proof {
                reveal_with_fuel(Seq::filter, 1);
                assert(entries.subrange(0, j + 1).drop_last() =~= entries.subrange(0, j as int));
            }
            if !seen[j] {
                unrep = unrep + 1;
            }
            j = j + 1;
        }
        proof {
            assert(entries.subrange(0, n as int) =~= entries);
        }
        HealthSummary { total: n, healthy, degraded, offline: offline + unrep }
    }

    /// The health contract declared by the plugin registered under `plugin_id`.
    pub fn health_contract(&self, plugin_id: &str) -> (r: Option<&HealthContract>)
        requires
            self.wf(),
        ensures
            r matches Some(h) ==> self@.contains_key(plugin_id@) && self@[plugin_id@].health_contract == Some(*h),
            r is None <==> (!self@.contains_key(plugin_id@) || self@[plugin_id@].health_contract is None),
    {
        match self.plugins.get(plugin_id) {
            Some(m) => match &m.health_contract {
                Some(h) => Some(h),
                None => None,
            },
            None => None,
        }
    }
}

/// Example third-party audio analyzer: always ready.
pub struct ExampleAudioAnalyzer {
    analyzer_id: String,
}

impl ExampleAudioAnalyzer {
    /// The analyzer's identifier.
    pub closed spec fn id_spec(&self) -> Seq<char> {
        self.analyzer_id@
    }

    /// An analyzer named `analyzer_id`.
    pub fn new(analyzer_id: &str) -> (a: Self)
        ensures
            a.id_spec() == analyzer_id@,
    {
        ExampleAudioAnalyzer { analyzer_id: String::from_str(analyzer_id) }
    }

    /// The analyzer's identifier.
    pub fn analyzer_id(&self) -> (r: &str)
        ensures
            r@ == self.id_spec(),
    {
        self.analyzer_id.as_str()
    }

    /// Whether the analyzer is ready: always.
    pub fn ready(&self) -> (b: bool)
        ensures
            b,
    {
        true
    }
}

/// A call that changes an `ExampleVisualExecutor`, with whether it was accepted
/// where that matters.
pub enum VisualCall {
    /// `prepare_backend`.
    Prepare,
    /// `apply_show_state` or `apply_degrade_mode`, which change nothing.
    Unchanged,
    /// `execute_payload(payload)`, accepted (`Ok`) or not.
    Execute(ExecutablePayload, bool),
    /// `shutdown_backend`.
    Shutdown,
}

/// What the contract of each call says of the executor before (`e0`) and
/// after (`e1`) it: only an accepted payload counts, and a payload is
/// accepted exactly when it is visual and the executor is not shut down.
pub open spec fn visual_step(e0: ExampleVisualExecutor, call: VisualCall, e1: ExampleVisualExecutor) -> bool {
    &&& e1.id_spec() == e0.id_spec()
    &&& match call {
        VisualCall::Prepare => e1.count_spec() == e0.count_spec() && e1.shut_down_spec() == e0.shut_down_spec(),
        VisualCall::Unchanged => e1 == e0,
        VisualCall::Execute(p, ok) => {
            &&& ok == (!e0.shut_down_spec() && p is Visual)
            &&& e1.count_spec() == e0.count_spec() + (if ok { 1int } else { 0int })
            &&& e1.shut_down_spec() == e0.shut_down_spec()
        },
        VisualCall::Shutdown => e1.shut_down_spec() && e1.count_spec() == e0.count_spec(),
    }
}

/// How many of `calls` are accepted payloads.
pub open spec fn accepted_payloads(calls: Seq<VisualCall>) -> nat
    decreases calls.len(),
{
    if calls.len() == 0 {
        0
    } else {
        accepted_payloads(calls.drop_last()) + (if calls.last() matches VisualCall::Execute(_, true) { 1nat } else { 0nat })
    }
}

/// Whether one of `calls` shuts the executor down.
pub open spec fn shut_down_among(calls: Seq<VisualCall>) -> bool {
    exists|k: int| 0 <= k < calls.len() && calls[k] is Shutdown
}

/// Along a run of calls, the count is the accepted payloads so far and the
/// executor is shut down exactly once a shutdown came.
proof fn lemma_visual_run(states: Seq<ExampleVisualExecutor>, calls: Seq<VisualCall>, i: int)
    requires
        states.len() == calls.len() + 1,
        states[0].count_spec() == 0,
        !states[0].shut_down_spec(),
        forall|k: int| 0 <= k < calls.len() ==> visual_step(#[trigger] states[k], calls[k], states[k + 1]),
        0 <= i <= calls.len(),
    ensures
        states[i].count_spec() == accepted_payloads(calls.take(i)),
        states[i].shut_down_spec() == shut_down_among(calls.take(i)),
    decreases i,
{
    if i > 0 {
        lemma_visual_run(states, calls, i - 1);
        let pre = calls.take(i - 1);
        let cur = calls.take(i);
        assert(cur.drop_last() =~= pre);
        assert(cur.last() == calls[i - 1]);
        assert(visual_step(states[i - 1], calls[i - 1], states[i]));
        if calls[i - 1] is Shutdown {
            assert(cur[i - 1] is Shutdown);
        } else {
            assert(shut_down_among(cur) == shut_down_among(pre)) by {
                if shut_down_among(cur) {
                    let k = choose|k: int| 0 <= k < cur.len() && cur[k] is Shutdown;
                    assert(pre[k] is Shutdown);
                }
                if shut_down_among(pre) {
                    let k = choose|k: int| 0 <= k < pre.len() && pre[k] is Shutdown;
                    assert(cur[k] is Shutdown);
                }
            }
        }
    } else {
        assert(calls.take(0) =~= Seq::<VisualCall>::empty());
    }
}

/// Over any run of calls on a fresh executor, its count is the number of
/// payloads it accepted; a payload is accepted exactly when it is visual
/// and no shutdown came before it.
pub proof fn law_count_is_accepted_payloads(states: Seq<ExampleVisualExecutor>, calls: Seq<VisualCall>)
    requires
        states.len() == calls.len() + 1,
        states[0].count_spec() == 0,
        !states[0].shut_down_spec(),
        forall|k: int| 0 <= k < calls.len() ==> visual_step(#[trigger] states[k], calls[k], states[k + 1]),
    ensures
        states.last().count_spec() == accepted_payloads(calls),
        forall|k: int| 0 <= k < calls.len() ==> (#[trigger] calls[k] matches VisualCall::Execute(p, ok)
            ==> (ok <==> p is Visual && !shut_down_among(calls.take(k)))),
{
    assert forall|k: int| 0 <= k < calls.len() implies (#[trigger] calls[k] matches VisualCall::Execute(p, ok)
        ==> (ok <==> p is Visual && !shut_down_among(calls.take(k)))) by {
        lemma_visual_run(states, calls, k);
        assert(visual_step(states[k], calls[k], states[k + 1]));
    }
    lemma_visual_run(states, calls, calls.len() as int);
    assert(calls.take(calls.len() as int) =~= calls);
}

/// Example third-party visual executor: renders visual payloads once
/// prepared with a visual topology, until shut down.
pub struct ExampleVisualExecutor {
    plugin_id: String,
    prepared: bool,
    shut_down: bool,
    execute_count: u64,
}

/// `0.5` as the bit pattern of an `f64`.
pub const HALF_MS_BITS: u64 = 0x3FE0_0000_0000_0000u64;

impl ExampleVisualExecutor {
    /// The plugin identifier.
    pub closed spec fn id_spec(&self) -> Seq<char> {
        self.plugin_id@
    }

    /// Whether a visual topology was accepted.
    pub closed spec fn prepared_spec(&self) -> bool {
        self.prepared
    }

    /// Whether the executor was shut down.
    pub closed spec fn shut_down_spec(&self) -> bool {
        self.shut_down
    }

    /// Number of payloads executed.
    pub closed spec fn count_spec(&self) -> u64 {
        self.execute_count
    }

    /// A fresh, unprepared executor.
    pub fn new(plugin_id: &str) -> (e: Self)
        ensures
            e.id_spec() == plugin_id@,
            !e.prepared_spec(),
            !e.shut_down_spec(),
            e.count_spec() == 0,
    {
        ExampleVisualExecutor { plugin_id: String::from_str(plugin_id), prepared: false, shut_down: false, execute_count: 0 }
    }

    /// Number of payloads executed.
    pub fn execute_count(&self) -> (n: u64)
        ensures
            n == self.count_spec(),
    {
        self.execute_count
    }

    /// Kind, capabilities, topology types and lifecycle status.
    pub fn describe_backend(&self) -> (d: BackendDescription)
        ensures
            d.plugin_id@ == self.id_spec(),
            d.backend_kind@ == "visual"@,
            string_views(d.capabilities@) == seq!["scene_switch"@, "shader_render"@],
            string_views(d.topology_types@) == seq!["flat"@],
            d.status@ == lifecycle_text(self.shut_down_spec(), self.prepared_spec()),
    {
        let capabilities = vec![String::from_str("scene_switch"), String::from_str("shader_render")];
        let topology_types = vec![String::from_str("flat")];
        proof {
            assert(string_views(capabilities@) =~= seq!["scene_switch"@, "shader_render"@]);
            assert(string_views(topology_types@) =~= seq!["flat"@]);
        }
        BackendDescription {
            plugin_id: self.plugin_id.clone(),
            backend_kind: String::from_str("visual"),
            capabilities,
            topology_types,
            status: lifecycle_status(self.shut_down, self.prepared),
        }
    }

    /// Accepts a visual topology; refuses any other, and any once shut down.
    pub fn prepare_backend(&mut self, topology: &BackendTopology) -> (r: Result<(), String>)
        ensures
            visual_step(*old(self), VisualCall::Prepare, *final(self)),
            final(self).id_spec() == old(self).id_spec(),
            final(self).shut_down_spec() == old(self).shut_down_spec(),
            final(self).count_spec() == old(self).count_spec(),
            old(self).shut_down_spec() ==> (r matches Err(e) && e@ == "EXVIS-001: backend already shut down"@
                && final(self).prepared_spec() == old(self).prepared_spec()),
            !old(self).shut_down_spec() && topology is Visual ==> r is Ok && final(self).prepared_spec(),
            !old(self).shut_down_spec() && !(topology is Visual) ==> (r matches Err(e) && e@ == "EXVIS-002: expected Visual topology"@
                && final(self).prepared_spec() == old(self).prepared_spec()),
    {
        if self.shut_down {
            return Err(String::from_str("EXVIS-001: backend already shut down"));
        }
        match topology {
            BackendTopology::Visual { .. } => {
                self.prepared = true;
                Ok(())
            },
            _ => Err(String::from_str("EXVIS-002: expected Visual topology")),
        }
    }

    /// Accepts a show state unless shut down; nothing else changes.
    pub fn apply_show_state(&mut self) -> (r: Result<(), String>)
        ensures
            visual_step(*old(self), VisualCall::Unchanged, *final(self)),
            *final(self) == *old(self),
            old(self).shut_down_spec() ==> (r matches Err(e) && e@ == "EXVIS-003: backend already shut down"@),
            !old(self).shut_down_spec() ==> r is Ok,
    {
        if self.shut_down {
            return Err(String::from_str("EXVIS-003: backend already shut down"));
        }
        Ok(())
    }

    /// Renders a visual payload: counts it and acknowledges its scene.
    /// Refuses any other payload, and any once shut down.
    pub fn execute_payload(&mut self, payload: &ExecutablePayload) -> (r: Result<BackendAck, String>)
        requires
            old(self).count_spec() < u64::MAX,
        ensures
            visual_step(*old(self), VisualCall::Execute(*payload, r is Ok), *final(self)),
            final(self).id_spec() == old(self).id_spec(),
            final(self).prepared_spec() == old(self).prepared_spec(),
            final(self).shut_down_spec() == old(self).shut_down_spec(),
            old(self).shut_down_spec() ==> (r matches Err(e) && e@ == "EXVIS-004: backend already shut down"@
                && final(self).count_spec() == old(self).count_spec()),
            !old(self).shut_down_spec() && !(payload is Visual) ==> (r matches Err(e)
                && e@ == "EXVIS-005: expected Visual payload"@ && final(self).count_spec() == old(self).count_spec()),
            !old(self).shut_down_spec() && payload is Visual ==> (r matches Ok(ack)
                && final(self).count_spec() == old(self).count_spec() + 1
                && ack.backend@ == old(self).id_spec()
                && ack.target@ == payload->Visual_scene_id@
                && ack.status@ == "ok"@
                && ack.detail@ == "rendered scene "@ + payload->Visual_scene_id@),
    {
        if self.shut_down {
            return Err(String::from_str("EXVIS-004: backend already shut down"));
        }
        match payload {
            ExecutablePayload::Visual { scene_id, .. } => {
                self.execute_count = self.execute_count + 1;
                Ok(BackendAck {
                    backend: self.plugin_id.clone(),
                    target: scene_id.clone(),
                    status: String::from_str("ok"),
                    detail: join2("rendered scene ", scene_id.as_str()),
                })
            },
            _ => Err(String::from_str("EXVIS-005: expected Visual payload")),
        }
    }

    /// Current status: lifecycle, a fixed half-millisecond latency, no errors,
    /// and how many payloads were executed.
    pub fn collect_backend_status(&self) -> (s: BackendStatus)
        ensures
            s.plugin_id@ == self.id_spec(),
            s.status@ == lifecycle_text(self.shut_down_spec(), self.prepared_spec()),
            s.latency_ms_bits == Some(HALF_MS_BITS),
            s.error_count == Some(0u64),
            s.last_ack_lag_ms_bits is None,
            (s.detail matches Some(d) && d@ == "executed "@ + decimal(self.count_spec() as nat) + " payloads"@),
    {
        let mut detail = String::from_str("executed ");
        push_decimal(&mut detail, self.execute_count);
        detail.append(" payloads");
        BackendStatus {
            plugin_id: self.plugin_id.clone(),
            status: lifecycle_status(self.shut_down, self.prepared),
            latency_ms_bits: Some(HALF_MS_BITS),
            error_count: Some(0),
            last_ack_lag_ms_bits: None,
            detail: Some(detail),
        }
    }

    /// Accepts any degradation mode without changing anything.
    pub fn apply_degrade_mode(&mut self, mode: &DegradeMode) -> (r: Result<(), String>)
        ensures
            visual_step(*old(self), VisualCall::Unchanged, *final(self)),
            *final(self) == *old(self),
            r is Ok,
    {
        Ok(())
    }

    /// Shuts the executor down; later commands are refused.
    pub fn shutdown_backend(&mut self) -> (r: Result<(), String>)
        ensures
            visual_step(*old(self), VisualCall::Shutdown, *final(self)),
            final(self).shut_down_spec(),
            final(self).id_spec() == old(self).id_spec(),
            final(self).prepared_spec() == old(self).prepared_spec(),
            final(self).count_spec() == old(self).count_spec(),
            r is Ok,
    {
        self.shut_down = true;
        Ok(())
    }
}


/// After `register` accepts a manifest, `lookup` of its id finds exactly
/// that manifest, and a lookup of any other id finds what it found before.
/// `r` is what `register` returned and `found` what the later `lookup(id)`
/// returned; the requirements are their contracts.
pub proof fn law_register_then_lookup(
    before: AdapterRegistry,
    after: AdapterRegistry,
    m: AdapterPluginManifest,
    r: Result<(), String>,
    id: Seq<char>,
    found: Result<&AdapterPluginManifest, String>,
)
    requires
        r is Ok <==> !before@.contains_key(m.plugin_id@),
        r is Ok ==> after@ == before@.insert(m.plugin_id@, m),
        r is Ok,
        found is Ok <==> after@.contains_key(id),
        found matches Ok(x) ==> *x == after@[id],
    ensures
        id == m.plugin_id@ ==> (found matches Ok(x) && *x == m),
        id != m.plugin_id@ ==> ((found is Ok <==> before@.contains_key(id))
            && (found matches Ok(x) ==> *x == before@[id])),
{
}

/// Every snapshot of a registered plugin counts exactly once: as healthy,
/// degraded or offline.
pub proof fn law_health_counts_partition(registered: Map<Seq<char>, AdapterPluginManifest>, snaps: Seq<BackendHealthSnapshot>)
    ensures
        count_reports(registered, snaps, |st: Seq<char>| is_healthy_status(st))
            + count_reports(registered, snaps, |st: Seq<char>| is_degraded_status(st))
            + count_reports(registered, snaps, |st: Seq<char>| is_offline_status(st))
            == count_reports(registered, snaps, |st: Seq<char>| true),
    decreases snaps.len(),
{
    reveal_strlit("healthy");
    reveal_strlit("ok");
    reveal_strlit("degraded");
    assert("healthy"@.len() != "degraded"@.len());
    assert("ok"@.len() != "degraded"@.len());
    if snaps.len() > 0 {
        law_health_counts_partition(registered, snaps.drop_last());
    }
}

/// The plugins a summary counts as unreported are registered plugins on
/// which no snapshot reports, each at most once.
pub proof fn law_unreported_are_offline(entries: Seq<(String, AdapterPluginManifest)>, snaps: Seq<BackendHealthSnapshot>)
    ensures
        unreported(entries, snaps).len() <= entries.len(),
        forall|i: int| 0 <= i < unreported(entries, snaps).len() ==> !reported(snaps, #[trigger] unreported(entries, snaps)[i].0@),
{
    let pred = |e: (String, AdapterPluginManifest)| !reported(snaps, e.0@);
    entries.filter_lemma(pred);
}


/// The backend a plugin kind selects.
#[derive(Debug, Clone, Copy, PartialEq, Eq, Structural)]
pub enum AdapterKind {
    /// "null" or "null_backend": a backend that accepts everything.
    Null,
    /// "audio_output": the reference audio backend.
    AudioOutput,
    /// "visual_output": the reference visual backend.
    VisualOutput,
    /// "lighting_output": the reference lighting backend.
    LightingOutput,
}

/// The backend a plugin kind selects, if it is known.
pub open spec fn spec_adapter_kind(kind: Seq<char>) -> Option<AdapterKind> {
    if kind == "null"@ || kind == "null_backend"@ {
        Some(AdapterKind::Null)
    } else if kind == "audio_output"@ {
        Some(AdapterKind::AudioOutput)
    } else if kind == "visual_output"@ {
        Some(AdapterKind::VisualOutput)
    } else if kind == "lighting_output"@ {
        Some(AdapterKind::LightingOutput)
    } else {
        None
    }
}

/// LDR-001 message.
pub open spec fn unknown_kind_text(m: AdapterPluginManifest) -> Seq<char> {
    "unknown plugin_kind '"@ + m.plugin_kind@ + "' for plugin '"@ + m.plugin_id@ + "'"@
}

/// The backend a manifest's plugin kind selects; LDR-001 for an unknown kind.
pub fn instantiate(manifest: &AdapterPluginManifest) -> (r: Result<AdapterKind, Box<Diagnostic>>)
    ensures
        spec_adapter_kind(manifest.plugin_kind@) matches Some(k) ==> r == Ok::<AdapterKind, Box<Diagnostic>>(k),
        spec_adapter_kind(manifest.plugin_kind@) is None ==> (r matches Err(d)
            && d.is_plain("LDR-001"@, "error"@, unknown_kind_text(*manifest))),
{
    let kind = manifest.plugin_kind.as_str();
    if str_eq(kind, "null") || str_eq(kind, "null_backend") {
        Ok(AdapterKind::Null)
    } else if str_eq(kind, "audio_output") {
        Ok(AdapterKind::AudioOutput)
    } else if str_eq(kind, "visual_output") {
        Ok(AdapterKind::VisualOutput)
    } else if str_eq(kind, "lighting_output") {
        Ok(AdapterKind::LightingOutput)
    } else {
        let mut m = join3("unknown plugin_kind '", kind, "' for plugin '");
        m.append(manifest.plugin_id.as_str());
        m.append("'");
        Err(Box::new(Diagnostic::error("LDR-001", m.as_str())))
    }
}

/// The backend each manifest selects, in order; the error of the first
/// manifest whose kind is unknown.
pub fn load_adapters(manifests: &[AdapterPluginManifest]) -> (r: Result<Vec<AdapterKind>, Box<Diagnostic>>)
    ensures
        r matches Ok(ks) ==> ks@.len() == manifests@.len()
            && forall|i: int| 0 <= i < manifests@.len() ==> spec_adapter_kind(#[trigger] manifests@[i].plugin_kind@) == Some(ks@[i]),
        r is Err <==> exists|i: int| 0 <= i < manifests@.len() && spec_adapter_kind(#[trigger] manifests@[i].plugin_kind@) is None,
        r matches Err(d) ==> exists|i: int| 0 <= i < manifests@.len()
            && spec_adapter_kind(#[trigger] manifests@[i].plugin_kind@) is None
            && (forall|j: int| 0 <= j < i ==> spec_adapter_kind(#[trigger] manifests@[j].plugin_kind@) is Some)
            && d.is_plain("LDR-001"@, "error"@, unknown_kind_text(manifests@[i])),
{
    let mut kinds: Vec<AdapterKind> = Vec::new();
    let mut i: usize = 0;
    while i < manifests.len()
        invariant
            i <= manifests@.len(),
            kinds@.len() == i,
            forall|q: int| 0 <= q < i ==> spec_adapter_kind(#[trigger] manifests@[q].plugin_kind@) == Some(kinds@[q]),
        decreases manifests@.len() - i,
    {
        match instantiate(&manifests[i]) {
            Ok(k) => {
                kinds.push(k);
            },
            Err(d) => {
                return Err(d);
            },
        }
        i = i + 1;
    }
    Ok(kinds)
}

/// The adapters whose descriptions do not report "error", in order.
pub open spec fn ready_refs<'a, A>(adapters: Seq<A>, descriptions: Seq<BackendDescription>) -> Seq<&'a A>
    decreases adapters.len(),
{
    if adapters.len() == 0 || descriptions.len() == 0 {
        Seq::empty()
    } else {
        let rest = ready_refs(adapters.drop_last(), descriptions.drop_last());
        if descriptions.last().status@ != "error"@ {
            rest.push(&adapters.last())
        } else {
            rest
        }
    }
}

/// The descriptions that report "error", in order.
pub open spec fn rejected_descriptions(descriptions: Seq<BackendDescription>) -> Seq<BackendDescription>
    decreases descriptions.len(),
{
    if descriptions.len() == 0 {
        descriptions
    } else {
        let rest = rejected_descriptions(descriptions.drop_last());
        if descriptions.last().status@ == "error"@ {
            rest.push(descriptions.last())
        } else {
            rest
        }
    }
}

/// Splits loaded adapters by readiness, given what each described of
/// itself (`descriptions[i]` for `adapters[i]`): those whose status is not
/// "error" are ready, and the descriptions of the others are handed back
/// as rejected.
pub fn readiness_check<'a, A>(adapters: &'a [A], descriptions: Vec<BackendDescription>) -> (r: (Vec<&'a A>, Vec<BackendDescription>))
    requires
        descriptions@.len() == adapters@.len(),
    ensures
        r.0@ == ready_refs(adapters@, descriptions@),
        r.1@ == rejected_descriptions(descriptions@),
{
    let ghost all = descriptions@;
    let n = adapters.len();
    let mut rest = descriptions;
    let mut ready: Vec<&A> = Vec::new();
    let mut rejected: Vec<BackendDescription> = Vec::new();
    let mut i: usize = 0;
    proof {
        assert(all.subrange(0, 0) =~= Seq::<BackendDescription>::empty());
        assert(adapters@.subrange(0, 0) =~= Seq::<A>::empty());
    }
    while i < n
        invariant
            n == adapters@.len(),
            n == all.len(),
            i <= n,
            rest@ == all.subrange(i as int, n as int),
            ready@ == ready_refs(adapters@.subrange(0, i as int), all.subrange(0, i as int)),
            rejected@ == rejected_descriptions(all.subrange(0, i as int)),
        decreases n - i,
    {
        proof {
            assert(rest@.len() > 0);
            assert(adapters@.subrange(0, i + 1).drop_last() =~= adapters@.subrange(0, i as int));
            assert(all.subrange(0, i + 1).drop_last() =~= all.subrange(0, i as int));
            assert(all.subrange(0, i + 1).last() == all[i as int]);
            assert(adapters@.subrange(0, i + 1).last() == adapters@[i as int]);
        }
        let d = rest.remove(0);
        proof {
            assert(d == all[i as int]);
            assert(rest@ =~= all.subrange(i + 1, n as int));
        }
        if str_eq(d.status.as_str(), "error") {
            rejected.push(d);
        } else {
            ready.push(&adapters[i]);
        }
        i = i + 1;
    }
    proof {
        assert(adapters@.subrange(0, n as int) =~= adapters@);
        assert(all.subrange(0, n as int) =~= all);
    }
    (ready, rejected)
}

} // verus!
