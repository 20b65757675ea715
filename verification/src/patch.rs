//! Live patches: checking a proposal against the active revision, applying
//! it, and the decisions of a rollback.
//!
//! A revision is seen here through what patches read and change: its
//! number, allowed patch windows, last bar, lighting fixtures, audio layers,
//! assets, performance actions, timeline and patch history.

use vstd::prelude::*;
use crate::ir::{
    AssetRecord, BackendHealthSnapshot, Diagnostic, EffectiveWindow, LivePatchProposal, PatchChange, PatchDecision, PatchScope,
    ResourceHandleSnapshot, ResourceHandleState, StructureIr, StructureSection, TimelineEntry, TimelineScheduler,
};
use crate::strmap::{key_lt, lemma_key_order, compare_keys};
use crate::text::{decimal, join2, push_decimal, str_eq};

verus! {

/// A performance action as patches see it: its layer, the asset it plays
/// and the bar it starts in.
#[derive(Debug, Clone, PartialEq, Eq)]
pub struct PatchAction {
    pub layer_id: String,
    pub target_asset_id: Option<String>,
    pub bar: u32,
}

/// An audio layer as patches see it: its id and asset candidates.
#[derive(Debug, Clone, PartialEq, Eq)]
pub struct PatchLayer {
    pub layer_id: String,
    pub asset_candidates: Vec<String>,
}

/// What a live patch reads and changes of a compiled revision.
#[derive(Debug, Clone)]
pub struct RevisionState {
    pub show_id: String,
    pub revision: u64,
    pub base_revision: u64,
    pub compile_run_id: String,
    pub allowed_patch_scopes: Vec<String>,
    pub structure: StructureIr,
    pub lighting_fixture_ids: Option<Vec<String>>,
    pub layers: Vec<PatchLayer>,
    pub assets: Vec<AssetRecord>,
    pub actions: Vec<PatchAction>,
    pub timeline: Vec<TimelineEntry>,
    pub patch_history: Vec<PatchDecision>,
}

/// The last bar of a structure: where its last section ends, or bar 1.
pub open spec fn spec_final_bar(s: StructureIr) -> u32 {
    if s.sections@.len() == 0 {
        1
    } else {
        s.sections@.last().span.end_bar
    }
}

/// The last bar of the structure.
pub fn final_bar(s: &StructureIr) -> (b: u32)
    ensures
        b == spec_final_bar(*s),
{
    if s.sections.len() == 0 {
        1
    } else {
        s.sections[s.sections.len() - 1].span.end_bar
    }
}

/// Section `i` spans `bar`.
pub open spec fn section_spans(s: StructureIr, i: int, bar: u32) -> bool {
    s.sections@[i].span.start_bar <= bar <= s.sections@[i].span.end_bar
}

/// The first section whose span holds `bar`, if any.
pub fn section_for_bar(s: &StructureIr, bar: u32) -> (r: Option<&StructureSection>)
    ensures
        r is None <==> forall|i: int| 0 <= i < s.sections@.len() ==> !section_spans(*s, i, bar),
        r matches Some(sec) ==> exists|i: int| 0 <= i < s.sections@.len() && section_spans(*s, i, bar)
            && *sec == s.sections@[i]
            && forall|j: int| 0 <= j < i ==> !#[trigger] section_spans(*s, j, bar),
{
    let mut i: usize = 0;
    while i < s.sections.len()
        invariant
            i <= s.sections@.len(),
            forall|j: int| 0 <= j < i ==> !#[trigger] section_spans(*s, j, bar),
        decreases s.sections@.len() - i,
    {
        let sec = &s.sections[i];
        if bar >= sec.span.start_bar && bar <= sec.span.end_bar {
            proof {
                assert(section_spans(*s, i as int, bar));
            }
            return Some(sec);
        }
        i = i + 1;
    }
    None
}

/// A code and a message.
pub type Finding = (Seq<char>, Seq<char>);

/// Whether `ds` are error diagnostics with exactly these codes and messages.
pub open spec fn reports(ds: Seq<Diagnostic>, fs: Seq<Finding>) -> bool {
    &&& ds.len() == fs.len()
    &&& forall|i: int| 0 <= i < ds.len() ==> #[trigger] ds[i].is_plain(fs[i].0, "error"@, fs[i].1)
}

/// Whether some string of `v` is `s`.
pub open spec fn has_str(v: Seq<String>, s: Seq<char>) -> bool {
    exists|i: int| 0 <= i < v.len() && #[trigger] v[i]@ == s
}

/// Whether some string of `v` is `s`.
pub fn contains_str(v: &Vec<String>, s: &str) -> (b: bool)
    ensures
        b == has_str(v@, s@),
{
    let mut i: usize = 0;
    while i < v.len()
        invariant
            i <= v@.len(),
            forall|j: int| 0 <= j < i ==> #[trigger] v@[j]@ != s@,
        decreases v@.len() - i,
    {
        if str_eq(v[i].as_str(), s) {
            return true;
        }
        i = i + 1;
    }
    false
}

/// Whether the lighting topology has a fixture `id`.
pub open spec fn fixture_present(ids: Option<Vec<String>>, id: Seq<char>) -> bool {
    match ids {
        Some(v) => has_str(v@, id),
        None => false,
    }
}

/// Whether some layer is `id`.
pub open spec fn has_layer(layers: Seq<PatchLayer>, id: Seq<char>) -> bool {
    exists|i: int| 0 <= i < layers.len() && #[trigger] layers[i].layer_id@ == id
}

/// Position of the first layer `id`.
pub open spec fn first_layer(layers: Seq<PatchLayer>, id: Seq<char>) -> Option<int> {
    if exists|i: int| 0 <= i < layers.len() && layers[i].layer_id@ == id
        && forall|j: int| 0 <= j < i ==> #[trigger] layers[j].layer_id@ != id {
        Some(choose|i: int| 0 <= i < layers.len() && layers[i].layer_id@ == id
            && forall|j: int| 0 <= j < i ==> #[trigger] layers[j].layer_id@ != id)
    } else {
        None
    }
}

/// Position of the first asset `id`.
pub open spec fn first_asset(assets: Seq<AssetRecord>, id: Seq<char>) -> Option<int> {
    if exists|i: int| 0 <= i < assets.len() && assets[i].asset_id@ == id
        && forall|j: int| 0 <= j < i ==> #[trigger] assets[j].asset_id@ != id {
        Some(choose|i: int| 0 <= i < assets.len() && assets[i].asset_id@ == id
            && forall|j: int| 0 <= j < i ==> #[trigger] assets[j].asset_id@ != id)
    } else {
        None
    }
}

/// An asset that is live-ready ("live_candidate" or "warmed") and warmed.
pub open spec fn asset_live(a: AssetRecord) -> bool {
    &&& match a.readiness {
        Some(r) => r@ == "live_candidate"@ || r@ == "warmed"@,
        None => false,
    }
    &&& match a.warm_status {
        Some(w) => w@ == "warmed"@,
        None => false,
    }
}

/// An action that a change replaces: on the change's layer, playing the
/// asset the change replaces, inside the patch's bars.
pub open spec fn action_matches(a: PatchAction, c: PatchChange, scope: PatchScope) -> bool {
    &&& a.layer_id@ == c.target@
    &&& (a.target_asset_id matches Some(t) && t@ == c.from@)
    &&& scope.from_bar <= a.bar <= scope.to_bar
}

/// Whether some action is one the change replaces.
pub open spec fn has_matching_action(actions: Seq<PatchAction>, c: PatchChange, scope: PatchScope) -> bool {
    exists|i: int| 0 <= i < actions.len() && action_matches(#[trigger] actions[i], c, scope)
}

/// PAT-001 message.
pub open spec fn base_mismatch_text(base: u64, active: u64) -> Seq<char> {
    "patch base_revision "@ + decimal(base as nat) + " does not match active revision "@ + decimal(active as nat)
}

/// PAT-003 message.
pub open spec fn window_text(window: Seq<char>) -> Seq<char> {
    "patch window "@ + window + " is not allowed by the active constraint set"@
}

/// PAT-009 message.
pub open spec fn unmatched_change_text(from: Seq<char>, to: Seq<char>) -> Seq<char> {
    "patch change "@ + from + " -> "@ + to + " does not match any performance action inside the requested scope"@
}

/// What is wrong with one change of a proposal.
pub open spec fn change_findings(rev: RevisionState, p: LivePatchProposal, c: PatchChange) -> Seq<Finding> {
    if p.patch_class@ == "lighting_cue"@ {
        if fixture_present(rev.lighting_fixture_ids, c.target@) {
            Seq::empty()
        } else {
            seq![("PAT-012"@, "lighting fixture "@ + c.target@ + " is not present in the active lighting topology"@)]
        }
    } else {
        op_findings(c) + layer_findings(rev, c) + asset_findings(rev, c) + action_findings(rev, p, c)
    }
}

/// PAT-005 when the operation is not "replace_asset".
pub open spec fn op_findings(c: PatchChange) -> Seq<Finding> {
    if c.op@ != "replace_asset"@ {
        seq![("PAT-005"@, "unsupported patch operation "@ + c.op@)]
    } else {
        Seq::empty()
    }
}

/// PAT-006 when no audio layer is the change's target.
pub open spec fn layer_findings(rev: RevisionState, c: PatchChange) -> Seq<Finding> {
    if !has_layer(rev.layers@, c.target@) {
        seq![("PAT-006"@, "patch target "@ + c.target@ + " does not match any audio layer"@)]
    } else {
        Seq::empty()
    }
}

/// PAT-007 when the replacement asset is missing, PAT-008 when it is not
/// live-ready and warmed.
pub open spec fn asset_findings(rev: RevisionState, c: PatchChange) -> Seq<Finding> {
    match first_asset(rev.assets@, c.to@) {
        None => seq![("PAT-007"@, "replacement asset "@ + c.to@ + " does not exist in the active asset registry"@)],
        Some(i) => if asset_live(rev.assets@[i]) {
            Seq::empty()
        } else {
            seq![("PAT-008"@, "replacement asset "@ + c.to@ + " is not warmed and live-ready"@)]
        },
    }
}

/// PAT-009 when no action in the patch's bars plays the replaced asset on
/// the target layer.
pub open spec fn action_findings(rev: RevisionState, p: LivePatchProposal, c: PatchChange) -> Seq<Finding> {
    if !has_matching_action(rev.actions@, c, p.scope) {
        seq![("PAT-009"@, unmatched_change_text(c.from@, c.to@))]
    } else {
        Seq::empty()
    }
}

/// What is wrong with the changes, change by change.
pub open spec fn changes_findings(rev: RevisionState, p: LivePatchProposal, cs: Seq<PatchChange>) -> Seq<Finding>
    decreases cs.len(),
{
    if cs.len() == 0 {
        Seq::empty()
    } else {
        changes_findings(rev, p, cs.drop_last()) + change_findings(rev, p, cs.last())
    }
}

/// What is wrong with the proposal as a whole, before its changes.
pub open spec fn proposal_findings(rev: RevisionState, p: LivePatchProposal) -> Seq<Finding> {
    let base = if p.base_revision != rev.revision {
        seq![("PAT-001"@, base_mismatch_text(p.base_revision, rev.revision))]
    } else {
        Seq::empty()
    };
    let class = if p.patch_class@ != "local_content"@ && p.patch_class@ != "lighting_cue"@ {
        seq![("PAT-002"@, "unsupported patch_class; expected local_content or lighting_cue"@)]
    } else {
        Seq::empty()
    };
    let window = if !has_str(rev.allowed_patch_scopes@, p.scope.window@) {
        seq![("PAT-003"@, window_text(p.scope.window@))]
    } else {
        Seq::empty()
    };
    let scope = if p.scope.from_bar > p.scope.to_bar || p.scope.to_bar > spec_final_bar(rev.structure) {
        seq![("PAT-004"@, "patch scope is outside the active revision timeline"@)]
    } else {
        Seq::empty()
    };
    base + class + window + scope
}

/// Everything wrong with a proposal, in order.
pub open spec fn patch_findings(rev: RevisionState, p: LivePatchProposal) -> Seq<Finding> {
    proposal_findings(rev, p) + changes_findings(rev, p, p.changes@)
}

/// Appends an error diagnostic.
fn report(out: &mut Vec<Diagnostic>, code: &str, message: &str)
    ensures
        final(out)@.len() == old(out)@.len() + 1,
        final(out)@.subrange(0, old(out)@.len() as int) == old(out)@,
        final(out)@.last().is_plain(code@, "error"@, message@),
{
    let d = Diagnostic::error(code, message);
    out.push(d);
    proof {
        assert(out@.subrange(0, old(out)@.len() as int) =~= old(out)@);
    }
}

/// Appending one more reported finding keeps the report exact.
proof fn lemma_reports_push(ds: Seq<Diagnostic>, fs: Seq<Finding>, ds2: Seq<Diagnostic>, f: Finding)
    requires
        reports(ds, fs),
        ds2.len() == ds.len() + 1,
        ds2.subrange(0, ds.len() as int) == ds,
        ds2.last().is_plain(f.0, "error"@, f.1),
    ensures
        reports(ds2, fs.push(f)),
{
    assert forall|i: int| 0 <= i < ds2.len() implies #[trigger] ds2[i].is_plain(fs.push(f)[i].0, "error"@, fs.push(f)[i].1) by {
        if i < ds.len() {
            assert(ds2[i] == ds2.subrange(0, ds.len() as int)[i]);
        }
    }
}

/// Position of the first asset `id`, if any.
fn find_asset(assets: &Vec<AssetRecord>, id: &str) -> (r: Option<usize>)
    ensures
        r matches Some(i) ==> i < assets@.len() && first_asset(assets@, id@) == Some(i as int),
        r is None ==> first_asset(assets@, id@) is None,
{
    let mut i: usize = 0;
    while i < assets.len()
        invariant
            i <= assets@.len(),
            forall|j: int| 0 <= j < i ==> #[trigger] assets@[j].asset_id@ != id@,
        decreases assets@.len() - i,
    {
        if str_eq(assets[i].asset_id.as_str(), id) {
            proof {
                let w = choose|w: int| 0 <= w < assets@.len() && assets@[w].asset_id@ == id@
                    && forall|j: int| 0 <= j < w ==> #[trigger] assets@[j].asset_id@ != id@;
                assert(w == i as int) by {
                    if w > i {
                        assert(assets@[i as int].asset_id@ != id@);
                    }
                }
            }
            return Some(i);
        }
        i = i + 1;
    }
    None
}

/// Position of the first layer `id`, if any.
fn find_layer(layers: &Vec<PatchLayer>, id: &str) -> (r: Option<usize>)
    ensures
        r matches Some(i) ==> i < layers@.len() && first_layer(layers@, id@) == Some(i as int),
        r is None ==> first_layer(layers@, id@) is None,
        r is Some <==> has_layer(layers@, id@),
{
    let mut i: usize = 0;
    while i < layers.len()
        invariant
            i <= layers@.len(),
            forall|j: int| 0 <= j < i ==> #[trigger] layers@[j].layer_id@ != id@,
        decreases layers@.len() - i,
    {
        if str_eq(layers[i].layer_id.as_str(), id) {
            proof {
                let w = choose|w: int| 0 <= w < layers@.len() && layers@[w].layer_id@ == id@
                    && forall|j: int| 0 <= j < w ==> #[trigger] layers@[j].layer_id@ != id@;
                assert(w == i as int) by {
                    if w > i {
                        assert(layers@[i as int].layer_id@ != id@);
                    }
                }
            }
            return Some(i);
        }
        i = i + 1;
    }
    None
}

/// Whether `a` is an action that `c` replaces.
fn action_matches_exec(a: &PatchAction, c: &PatchChange, scope: &PatchScope) -> (b: bool)
    ensures
        b == action_matches(*a, *c, *scope),
{
    if !str_eq(a.layer_id.as_str(), c.target.as_str()) {
        return false;
    }
    match &a.target_asset_id {
        Some(t) => str_eq(t.as_str(), c.from.as_str()) && scope.from_bar <= a.bar && a.bar <= scope.to_bar,
        None => false,
    }
}

/// Whether some action is one that `c` replaces.
fn any_matching_action(actions: &Vec<PatchAction>, c: &PatchChange, scope: &PatchScope) -> (b: bool)
    ensures
        b == has_matching_action(actions@, *c, *scope),
{
    let mut i: usize = 0;
    while i < actions.len()
        invariant
            i <= actions@.len(),
            forall|j: int| 0 <= j < i ==> !action_matches(#[trigger] actions@[j], *c, *scope),
        decreases actions@.len() - i,
    {
        if action_matches_exec(&actions[i], c, scope) {
            return true;
        }
        i = i + 1;
    }
    false
}

/// Whether the asset is live-ready and warmed.
fn asset_live_exec(a: &AssetRecord) -> (b: bool)
    ensures
        b == asset_live(*a),
{
    let ready = match &a.readiness {
        Some(r) => str_eq(r.as_str(), "live_candidate") || str_eq(r.as_str(), "warmed"),
        None => false,
    };
    let warm = match &a.warm_status {
        Some(w) => str_eq(w.as_str(), "warmed"),
        None => false,
    };
    ready && warm
}

/// Reports of two lists of findings, one after the other.
proof fn lemma_reports_concat(a: Seq<Diagnostic>, fa: Seq<Finding>, b: Seq<Diagnostic>, fb: Seq<Finding>)
    requires
        reports(a, fa),
        reports(b, fb),
    ensures
        reports(a + b, fa + fb),
{
    assert forall|i: int| 0 <= i < (a + b).len() implies #[trigger] (a + b)[i].is_plain((fa + fb)[i].0, "error"@, (fa + fb)[i].1) by {
        if i >= a.len() {
            assert(b[i - a.len()].is_plain(fb[i - a.len()].0, "error"@, fb[i - a.len()].1));
        }
    }
}

/// What is wrong with one change, reported in order.
fn check_change(revision: &RevisionState, proposal: &LivePatchProposal, c: &PatchChange, lighting: bool) -> (ds: Vec<Diagnostic>)
    requires
        lighting == (proposal.patch_class@ == "lighting_cue"@),
    ensures
        reports(ds@, change_findings(*revision, *proposal, *c)),
{
    let mut ds: Vec<Diagnostic> = Vec::new();
    let ghost mut fs2: Seq<Finding> = Seq::empty();
    if lighting {
        let present = match &revision.lighting_fixture_ids {
            Some(ids) => contains_str(ids, c.target.as_str()),
            None => false,
        };
        if !present {
            let mut m = join2("lighting fixture ", c.target.as_str());
            m.append(" is not present in the active lighting topology");
            let ghost before = ds@;
            report(&mut ds, "PAT-012", m.as_str());
            proof {
                let f = ("PAT-012"@, "lighting fixture "@ + c.target@ + " is not present in the active lighting topology"@);
                lemma_reports_push(before, fs2, ds@, f);
                fs2 = fs2.push(f);
            }
        }
        proof {
            assert(fs2 =~= change_findings(*revision, *proposal, *c));
        }
        return ds;
    }
    if !str_eq(c.op.as_str(), "replace_asset") {
        let m = join2("unsupported patch operation ", c.op.as_str());
        let ghost before = ds@;
        report(&mut ds, "PAT-005", m.as_str());
        proof {
            let f = ("PAT-005"@, "unsupported patch operation "@ + c.op@);
            lemma_reports_push(before, fs2, ds@, f);
            fs2 = fs2.push(f);
        }
    }
    let ghost f_op = fs2;
    proof {
        assert(f_op =~= op_findings(*c));
    }
    if find_layer(&revision.layers, c.target.as_str()).is_none() {
        let mut m = join2("patch target ", c.target.as_str());
        m.append(" does not match any audio layer");
        let ghost before = ds@;
        report(&mut ds, "PAT-006", m.as_str());
        proof {
            let f = ("PAT-006"@, "patch target "@ + c.target@ + " does not match any audio layer"@);
            lemma_reports_push(before, fs2, ds@, f);
            fs2 = fs2.push(f);
        }
    }
    let ghost f_layer = fs2;
    proof {
        assert(f_layer =~= f_op + layer_findings(*revision, *c));
    }
    match find_asset(&revision.assets, c.to.as_str()) {
        None => {
            let mut m = join2("replacement asset ", c.to.as_str());
            m.append(" does not exist in the active asset registry");
            let ghost before = ds@;
            report(&mut ds, "PAT-007", m.as_str());
            proof {
                let f = ("PAT-007"@, "replacement asset "@ + c.to@ + " does not exist in the active asset registry"@);
                lemma_reports_push(before, fs2, ds@, f);
                fs2 = fs2.push(f);
            }
        },
        Some(i) => {
            if !asset_live_exec(&revision.assets[i]) {
                let mut m = join2("replacement asset ", c.to.as_str());
                m.append(" is not warmed and live-ready");
                let ghost before = ds@;
                report(&mut ds, "PAT-008", m.as_str());
                proof {
                    let f = ("PAT-008"@, "replacement asset "@ + c.to@ + " is not warmed and live-ready"@);
                    lemma_reports_push(before, fs2, ds@, f);
                    fs2 = fs2.push(f);
                }
            }
        },
    }
    let ghost f_asset = fs2;
    proof {
        assert(f_asset =~= f_layer + asset_findings(*revision, *c));
    }
    if !any_matching_action(&revision.actions, c, &proposal.scope) {
        let mut m = join2("patch change ", c.from.as_str());
        m.append(" -> ");
        m.append(c.to.as_str());
        m.append(" does not match any performance action inside the requested scope");
        let ghost before = ds@;
        report(&mut ds, "PAT-009", m.as_str());
        proof {
            let f = ("PAT-009"@, unmatched_change_text(c.from@, c.to@));
            lemma_reports_push(before, fs2, ds@, f);
            fs2 = fs2.push(f);
        }
    }
    proof {
        assert(fs2 =~= f_asset + action_findings(*revision, *proposal, *c));
        assert(fs2 =~= change_findings(*revision, *proposal, *c));
    }
    ds
}

/// Checks a live patch proposal against the active revision and reports
/// every problem, in order: a base revision other than the active one
/// (PAT-001), a patch class other than "local_content" or "lighting_cue"
/// (PAT-002), a window the revision does not allow (PAT-003), bars outside
/// the revision (PAT-004); then for each change, for lighting cues a
/// fixture missing from the lighting topology (PAT-012), otherwise an
/// operation other than "replace_asset" (PAT-005), no audio layer with the
/// target id (PAT-006), a replacement asset that is missing (PAT-007) or
/// not live-ready and warmed (PAT-008), and no performance action in the
/// patch's bars that plays the replaced asset on that layer (PAT-009).
pub fn check_patch(revision: &RevisionState, proposal: &LivePatchProposal) -> (ds: Vec<Diagnostic>)
    ensures
        reports(ds@, patch_findings(*revision, *proposal)),
{
    let mut ds: Vec<Diagnostic> = Vec::new();
    let ghost rev = *revision;
    let ghost p = *proposal;
    let ghost mut fs: Seq<Finding> = Seq::empty();
    proof {
        reveal_strlit("local_content");
        reveal_strlit("lighting_cue");
    }
    if proposal.base_revision != revision.revision {
        let mut m = String::from_str("patch base_revision ");
        push_decimal(&mut m, proposal.base_revision);
        m.append(" does not match active revision ");
        push_decimal(&mut m, revision.revision);
        let ghost before = ds@;
        report(&mut ds, "PAT-001", m.as_str());
        proof {
            lemma_reports_push(before, fs, ds@, ("PAT-001"@, base_mismatch_text(p.base_revision, rev.revision)));
            fs = fs.push(("PAT-001"@, base_mismatch_text(p.base_revision, rev.revision)));
        }
    }
    let lighting = str_eq(proposal.patch_class.as_str(), "lighting_cue");
    if !str_eq(proposal.patch_class.as_str(), "local_content") && !lighting {
        let ghost before = ds@;
        report(&mut ds, "PAT-002", "unsupported patch_class; expected local_content or lighting_cue");
        proof {
            let f = ("PAT-002"@, "unsupported patch_class; expected local_content or lighting_cue"@);
            lemma_reports_push(before, fs, ds@, f);
            fs = fs.push(f);
        }
    }
    if !contains_str(&revision.allowed_patch_scopes, proposal.scope.window.as_str()) {
        let mut m = join2("patch window ", proposal.scope.window.as_str());
        m.append(" is not allowed by the active constraint set");
        let ghost before = ds@;
        report(&mut ds, "PAT-003", m.as_str());
        proof {
            let f = ("PAT-003"@, window_text(p.scope.window@));
            lemma_reports_push(before, fs, ds@, f);
            fs = fs.push(f);
        }
    }
    if proposal.scope.from_bar > proposal.scope.to_bar || proposal.scope.to_bar > final_bar(&revision.structure) {
        let ghost before = ds@;
        report(&mut ds, "PAT-004", "patch scope is outside the active revision timeline");
        proof {
            let f = ("PAT-004"@, "patch scope is outside the active revision timeline"@);
            lemma_reports_push(before, fs, ds@, f);
            fs = fs.push(f);
        }
    }
    proof {
        assert(fs =~= proposal_findings(rev, p));
    }
    let mut k: usize = 0;
    while k < proposal.changes.len()
        invariant
            rev == *revision,
            p == *proposal,
            lighting == (p.patch_class@ == "lighting_cue"@),
            k <= p.changes@.len(),
            reports(ds@, proposal_findings(rev, p) + changes_findings(rev, p, p.changes@.subrange(0, k as int))),
        decreases p.changes@.len() - k,
    {
        let ghost before = ds@;
        let mut found = check_change(revision, proposal, &proposal.changes[k], lighting);
        ds.append(&mut found);
        proof {
            let start = proposal_findings(rev, p) + changes_findings(rev, p, p.changes@.subrange(0, k as int));
            let c = p.changes@[k as int];
            lemma_reports_concat(before, start, ds@.subrange(before.len() as int, ds@.len() as int), change_findings(rev, p, c));
            assert(before + ds@.subrange(before.len() as int, ds@.len() as int) =~= ds@);
            assert(p.changes@.subrange(0, k + 1).drop_last() =~= p.changes@.subrange(0, k as int));
            assert(proposal_findings(rev, p) + changes_findings(rev, p, p.changes@.subrange(0, k + 1))
                =~= start + change_findings(rev, p, c));
        }
        k = k + 1;
    }
    proof {
        assert(p.changes@.subrange(0, p.changes@.len() as int) =~= p.changes@);
    }
    ds
}


/// PAT-010 message.
pub open spec fn unknown_patch_text(patch_id: Seq<char>, revision: u64) -> Seq<char> {
    "patch "@ + patch_id + " was not found in revision "@ + decimal(revision as nat)
}

/// Position of the first decision recorded for `patch_id`.
pub open spec fn first_decision(history: Seq<PatchDecision>, patch_id: Seq<char>) -> Option<int> {
    if exists|i: int| 0 <= i < history.len() && history[i].patch_id@ == patch_id
        && forall|j: int| 0 <= j < i ==> #[trigger] history[j].patch_id@ != patch_id {
        Some(choose|i: int| 0 <= i < history.len() && history[i].patch_id@ == patch_id
            && forall|j: int| 0 <= j < i ==> #[trigger] history[j].patch_id@ != patch_id)
    } else {
        None
    }
}

/// Whether `d` reverts the patch decided by `existing` in the revision
/// numbered `active`: back to its fallback revision, in its window and
/// bars, marked `decision`, for the single reason `reason`.
pub open spec fn is_rollback(d: PatchDecision, existing: PatchDecision, active: u64, decision: Seq<char>, reason: Seq<char>) -> bool {
    &&& d.patch_id@ == existing.patch_id@
    &&& d.base_revision == active
    &&& d.candidate_revision == existing.fallback_revision
    &&& d.decision@ == decision
    &&& d.window@ == existing.window@
    &&& d.scope.from_bar == existing.scope.from_bar
    &&& d.scope.to_bar == existing.scope.to_bar
    &&& d.scope.window@ == existing.scope.window@
    &&& d.fallback_revision == existing.fallback_revision
    &&& d.reasons@.len() == 1
    &&& d.reasons@[0]@ == reason
}

/// Position of the first decision recorded for `patch_id`, if any.
fn find_decision(history: &Vec<PatchDecision>, patch_id: &str) -> (r: Option<usize>)
    ensures
        r matches Some(i) ==> i < history@.len() && first_decision(history@, patch_id@) == Some(i as int),
        r is None ==> first_decision(history@, patch_id@) is None,
{
    let mut i: usize = 0;
    while i < history.len()
        invariant
            i <= history@.len(),
            forall|j: int| 0 <= j < i ==> #[trigger] history@[j].patch_id@ != patch_id@,
        decreases history@.len() - i,
    {
        if str_eq(history[i].patch_id.as_str(), patch_id) {
            proof {
                let w = choose|w: int| 0 <= w < history@.len() && history@[w].patch_id@ == patch_id@
                    && forall|j: int| 0 <= j < w ==> #[trigger] history@[j].patch_id@ != patch_id@;
                assert(w == i as int) by {
                    if w > i {
                        assert(history@[i as int].patch_id@ != patch_id@);
                    }
                }
            }
            return Some(i);
        }
        i = i + 1;
    }
    None
}

/// A copy of a patch scope, field by field.
pub fn copy_scope(s: &PatchScope) -> (c: PatchScope)
    ensures
        c == *s,
{
    PatchScope { from_bar: s.from_bar, to_bar: s.to_bar, window: s.window.clone() }
}

/// The decision that reverts the first recorded decision for `patch_id`,
/// marked `decision` and giving `reason`; PAT-010 when the revision has no
/// decision for that patch.
fn rollback_decision(revision: &RevisionState, patch_id: &str, decision: &str, reason: String)
    -> (r: Result<PatchDecision, Box<Diagnostic>>)
    ensures
        r is Ok <==> first_decision(revision.patch_history@, patch_id@) is Some,
        r matches Ok(d) ==> is_rollback(d, revision.patch_history@[first_decision(revision.patch_history@, patch_id@)->0],
            revision.revision, decision@, reason@),
        r matches Err(e) ==> e.is_plain("PAT-010"@, "error"@, unknown_patch_text(patch_id@, revision.revision)),
{
    match find_decision(&revision.patch_history, patch_id) {
        None => {
            let mut m = join2("patch ", patch_id);
            m.append(" was not found in revision ");
            push_decimal(&mut m, revision.revision);
            Err(Box::new(Diagnostic::error("PAT-010", m.as_str())))
        },
        Some(i) => {
            let existing = &revision.patch_history[i];
            let reasons = vec![reason];
            Ok(PatchDecision {
                patch_id: existing.patch_id.clone(),
                base_revision: revision.revision,
                candidate_revision: existing.fallback_revision,
                decision: String::from_str(decision),
                window: existing.window.clone(),
                scope: copy_scope(&existing.scope),
                fallback_revision: existing.fallback_revision,
                reasons,
            })
        },
    }
}

/// Rolls back the patch `patch_id` on request: its first recorded decision
/// is reverted to the fallback revision ("rolled_back", "manual rollback
/// requested"); PAT-010 when the revision has no decision for it.
pub fn rollback_patch(revision: &RevisionState, patch_id: &str) -> (r: Result<PatchDecision, Box<Diagnostic>>)
    ensures
        r is Ok <==> first_decision(revision.patch_history@, patch_id@) is Some,
        r matches Ok(d) ==> is_rollback(d, revision.patch_history@[first_decision(revision.patch_history@, patch_id@)->0],
            revision.revision, "rolled_back"@, "manual rollback requested"@),
        r matches Err(e) ==> e.is_plain("PAT-010"@, "error"@, unknown_patch_text(patch_id@, revision.revision)),
{
    rollback_decision(revision, patch_id, "rolled_back", String::from_str("manual rollback requested"))
}

/// Rolls back the patch `patch_id` with a reason of the caller's choosing.
pub fn rollback_patch_with_reason(revision: &RevisionState, patch_id: &str, reason: &str)
    -> (r: Result<PatchDecision, Box<Diagnostic>>)
    ensures
        r is Ok <==> first_decision(revision.patch_history@, patch_id@) is Some,
        r matches Ok(d) ==> is_rollback(d, revision.patch_history@[first_decision(revision.patch_history@, patch_id@)->0],
            revision.revision, "rolled_back"@, reason@),
        r matches Err(e) ==> e.is_plain("PAT-010"@, "error"@, unknown_patch_text(patch_id@, revision.revision)),
{
    rollback_decision(revision, patch_id, "rolled_back", String::from_str(reason))
}

/// Rolls back the patch `patch_id` because of an anomaly seen during a
/// run ("deferred_rollback", "deferred rollback: <anomaly>"); PAT-010 when
/// the revision has no decision for it.
pub fn deferred_rollback(revision: &RevisionState, patch_id: &str, anomaly: &str)
    -> (r: Result<PatchDecision, Box<Diagnostic>>)
    ensures
        r is Ok <==> first_decision(revision.patch_history@, patch_id@) is Some,
        r matches Ok(d) ==> is_rollback(d, revision.patch_history@[first_decision(revision.patch_history@, patch_id@)->0],
            revision.revision, "deferred_rollback"@, "deferred rollback: "@ + anomaly@),
        r matches Err(e) ==> e.is_plain("PAT-010"@, "error"@, unknown_patch_text(patch_id@, revision.revision)),
{
    rollback_decision(revision, patch_id, "deferred_rollback", join2("deferred rollback: ", anomaly))
}

/// Every asset of the revision as an audio resource handle, released.
pub fn build_released_handles(assets: &Vec<AssetRecord>) -> (hs: Vec<ResourceHandleSnapshot>)
    ensures
        hs@.len() == assets@.len(),
        forall|i: int| 0 <= i < hs@.len() ==> {
            &&& (#[trigger] hs@[i]).resource_id@ == assets@[i].asset_id@
            &&& hs@[i].state == ResourceHandleState::Released
            &&& (hs@[i].backend_kind matches Some(k) && k@ == "audio"@)
        },
{
    let mut hs: Vec<ResourceHandleSnapshot> = Vec::new();
    let mut i: usize = 0;
    while i < assets.len()
        invariant
            i <= assets@.len(),
            hs@.len() == i,
            forall|q: int| 0 <= q < i ==> {
                &&& (#[trigger] hs@[q]).resource_id@ == assets@[q].asset_id@
                &&& hs@[q].state == ResourceHandleState::Released
                &&& (hs@[q].backend_kind matches Some(k) && k@ == "audio"@)
            },
        decreases assets@.len() - i,
    {
        hs.push(ResourceHandleSnapshot {
            resource_id: assets[i].asset_id.clone(),
            state: ResourceHandleState::Released,
            backend_kind: Some(String::from_str("audio")),
        });
        i = i + 1;
    }
    hs
}

/// What a rollback leaves behind for the trace: the patch and revisions
/// involved, the resources released, the backends' health, the show state
/// restored, the reason and the time.
#[derive(Debug, Clone)]
pub struct RollbackCheckpoint<S> {
    pub patch_id: String,
    pub base_revision: u64,
    pub rollback_target_revision: u64,
    pub resource_handles: Vec<ResourceHandleSnapshot>,
    pub backend_snapshots: Vec<BackendHealthSnapshot>,
    pub show_state_snapshot: S,
    pub reason: String,
    pub timestamp: String,
}

/// A copy of a health snapshot.
fn copy_snapshot(s: &BackendHealthSnapshot) -> (c: BackendHealthSnapshot)
    ensures
        c == *s,
{
    BackendHealthSnapshot {
        backend_ref: s.backend_ref.clone(),
        plugin_ref: s.plugin_ref.clone(),
        status: s.status.clone(),
        timestamp: s.timestamp.clone(),
        latency_ms_bits: s.latency_ms_bits,
        error_count: s.error_count,
        last_ack_lag_ms_bits: s.last_ack_lag_ms_bits,
        degrade_reason: match &s.degrade_reason {
            Some(r) => Some(r.clone()),
            None => None,
        },
    }
}

/// Rolls back the patch `patch_id` of `patched_revision` with `reason`, as
/// `rollback_patch_with_reason` does, and packs a checkpoint: the patched
/// revision as base, the decision's fallback as target, every asset of the
/// patched revision released, the backend snapshots and show state given,
/// the reason and the timestamp. PAT-010 when the revision has no decision
/// for the patch.
pub fn rollback_with_checkpoint<S>(
    patched_revision: &RevisionState,
    _base_revision: &RevisionState,
    patch_id: &str,
    reason: &str,
    backend_snapshots: &[BackendHealthSnapshot],
    restored_show_state: S,
    timestamp: &str,
) -> (r: Result<(PatchDecision, RollbackCheckpoint<S>), Box<Diagnostic>>)
    ensures
        r is Ok <==> first_decision(patched_revision.patch_history@, patch_id@) is Some,
        r matches Ok((d, c)) ==> {
            &&& is_rollback(d, patched_revision.patch_history@[first_decision(patched_revision.patch_history@, patch_id@)->0],
                patched_revision.revision, "rolled_back"@, reason@)
            &&& c.patch_id@ == patch_id@
            &&& c.base_revision == patched_revision.revision
            &&& c.rollback_target_revision == d.fallback_revision
            &&& c.resource_handles@.len() == patched_revision.assets@.len()
            &&& forall|i: int| 0 <= i < c.resource_handles@.len() ==> {
                &&& (#[trigger] c.resource_handles@[i]).resource_id@ == patched_revision.assets@[i].asset_id@
                &&& c.resource_handles@[i].state == ResourceHandleState::Released
                &&& (c.resource_handles@[i].backend_kind matches Some(k) && k@ == "audio"@)
            }
            &&& c.backend_snapshots@ == backend_snapshots@
            &&& c.show_state_snapshot == restored_show_state
            &&& c.reason@ == reason@
            &&& c.timestamp@ == timestamp@
        },
        r matches Err(e) ==> e.is_plain("PAT-010"@, "error"@, unknown_patch_text(patch_id@, patched_revision.revision)),
{
    let decision = match rollback_patch_with_reason(patched_revision, patch_id, reason) {
        Ok(d) => d,
        Err(e) => {
            return Err(e);
        },
    };
    let resource_handles = build_released_handles(&patched_revision.assets);
    let mut snaps: Vec<BackendHealthSnapshot> = Vec::new();
    let mut i: usize = 0;
    while i < backend_snapshots.len()
        invariant
            i <= backend_snapshots@.len(),
            snaps@ == backend_snapshots@.subrange(0, i as int),
        decreases backend_snapshots@.len() - i,
    {
        snaps.push(copy_snapshot(&backend_snapshots[i]));
        proof {
            assert(snaps@ =~= backend_snapshots@.subrange(0, i + 1));
        }
        i = i + 1;
    }
    proof {
        assert(snaps@ =~= backend_snapshots@);
    }
    let checkpoint = RollbackCheckpoint {
        patch_id: String::from_str(patch_id),
        base_revision: patched_revision.revision,
        rollback_target_revision: decision.fallback_revision,
        resource_handles,
        backend_snapshots: snaps,
        show_state_snapshot: restored_show_state,
        reason: String::from_str(reason),
        timestamp: String::from_str(timestamp),
    };
    Ok((decision, checkpoint))
}

/// Timeline entry `a` goes strictly before `b`: by first bar, then
/// priority, then (when `by_channel`) channel, then id.
pub open spec fn entry_before(a: TimelineEntry, b: TimelineEntry, by_channel: bool) -> bool {
    ||| a.effective_window.from_bar < b.effective_window.from_bar
    ||| a.effective_window.from_bar == b.effective_window.from_bar && a.scheduler.priority < b.scheduler.priority
    ||| a.effective_window.from_bar == b.effective_window.from_bar && a.scheduler.priority == b.scheduler.priority
        && by_channel && key_lt(a.channel@, b.channel@)
    ||| a.effective_window.from_bar == b.effective_window.from_bar && a.scheduler.priority == b.scheduler.priority
        && (!by_channel || a.channel@ == b.channel@) && key_lt(a.id@, b.id@)
}

/// No entry goes strictly before an earlier one.
pub open spec fn timeline_sorted(s: Seq<TimelineEntry>, by_channel: bool) -> bool {
    forall|i: int, j: int| 0 <= i < j < s.len() ==> !entry_before(#[trigger] s[j], #[trigger] s[i], by_channel)
}

/// `entry_before` is a strict order.
pub proof fn lemma_entry_order(a: TimelineEntry, b: TimelineEntry, c: TimelineEntry, by_channel: bool)
    ensures
        !entry_before(a, a, by_channel),
        entry_before(a, b, by_channel) ==> !entry_before(b, a, by_channel),
        entry_before(a, b, by_channel) && entry_before(b, c, by_channel) ==> entry_before(a, c, by_channel),
{
    lemma_key_order(a.channel@, b.channel@, c.channel@);
    lemma_key_order(a.id@, b.id@, c.id@);
    lemma_key_order(b.channel@, a.channel@, c.channel@);
    lemma_key_order(b.id@, a.id@, c.id@);
}

/// An entry that does not go before `c` goes after whatever goes after `c`.
pub proof fn lemma_entry_weak_order(a: TimelineEntry, b: TimelineEntry, c: TimelineEntry, by_channel: bool)
    ensures
        entry_before(a, b, by_channel) && !entry_before(c, b, by_channel) ==> entry_before(a, c, by_channel),
{
    lemma_key_order(a.channel@, b.channel@, c.channel@);
    lemma_key_order(a.id@, b.id@, c.id@);
    lemma_key_order(c.channel@, b.channel@, a.channel@);
    lemma_key_order(c.id@, b.id@, a.id@);
    lemma_key_order(a.channel@, c.channel@, b.channel@);
    lemma_key_order(a.id@, c.id@, b.id@);
    lemma_key_order(b.channel@, c.channel@, a.channel@);
    lemma_key_order(b.id@, c.id@, a.id@);
}

/// `x` placed after every entry of the sorted `s` that it does not go
/// before, and before the rest.
pub open spec fn insert_entry(s: Seq<TimelineEntry>, x: TimelineEntry, by_channel: bool) -> Seq<TimelineEntry>
    decreases s.len(),
{
    if s.len() == 0 {
        seq![x]
    } else if !entry_before(x, s.last(), by_channel) {
        s.push(x)
    } else {
        insert_entry(s.drop_last(), x, by_channel).push(s.last())
    }
}

/// The stable sort of timeline entries: entries that tie keep their order.
pub open spec fn stable_sort_entries(s: Seq<TimelineEntry>, by_channel: bool) -> Seq<TimelineEntry>
    decreases s.len(),
{
    if s.len() == 0 {
        s
    } else {
        insert_entry(stable_sort_entries(s.drop_last(), by_channel), s.last(), by_channel)
    }
}

/// Inserting before the first entry that `x` goes before is the stable
/// insertion.
proof fn lemma_insert_entry_at(s: Seq<TimelineEntry>, x: TimelineEntry, p: int, by_channel: bool)
    requires
        0 <= p <= s.len(),
        forall|q: int| 0 <= q < p ==> !entry_before(x, #[trigger] s[q], by_channel),
        forall|q: int| p <= q < s.len() ==> entry_before(x, #[trigger] s[q], by_channel),
    ensures
        insert_entry(s, x, by_channel) == s.insert(p, x),
    decreases s.len(),
{
    if s.len() == 0 {
        assert(s.insert(p, x) =~= seq![x]);
    } else if p == s.len() {
        assert(s.insert(p, x) =~= s.push(x));
    } else {
        let t = s.drop_last();
        assert(entry_before(x, s[s.len() - 1], by_channel));
        lemma_insert_entry_at(t, x, p, by_channel);
        assert(t.insert(p, x).push(s.last()) =~= s.insert(p, x));
    }
}

/// Whether `a` goes strictly before `b`.
fn entry_before_exec(a: &TimelineEntry, b: &TimelineEntry, by_channel: bool) -> (r: bool)
    ensures
        r == entry_before(*a, *b, by_channel),
{
    if a.effective_window.from_bar != b.effective_window.from_bar {
        return a.effective_window.from_bar < b.effective_window.from_bar;
    }
    if a.scheduler.priority != b.scheduler.priority {
        return a.scheduler.priority < b.scheduler.priority;
    }
    proof {
        lemma_key_order(a.channel@, b.channel@, a.channel@);
        lemma_key_order(a.id@, b.id@, a.id@);
    }
    if by_channel {
        let c = compare_keys(a.channel.as_str(), b.channel.as_str());
        if c != 0 {
            return c < 0;
        }
    }
    compare_keys(a.id.as_str(), b.id.as_str()) < 0
}

/// Sorts timeline entries by first bar, then priority, then (when
/// `by_channel`) channel, then id; entries that tie keep their order.
pub fn sort_timeline_by(entries: Vec<TimelineEntry>, by_channel: bool) -> (out: Vec<TimelineEntry>)
    ensures
        out@ == stable_sort_entries(entries@, by_channel),
        timeline_sorted(out@, by_channel),
        out@.to_multiset() == entries@.to_multiset(),
{
    let ghost orig = entries@;
    let mut rest = entries;
    let mut out: Vec<TimelineEntry> = Vec::new();
    let n = rest.len();
    let mut k: usize = 0;
    proof {
        assert(out@ =~= orig.subrange(0, 0));
    }
    while k < n
        invariant
            n == orig.len(),
            k <= n,
            rest@ == orig.subrange(k as int, n as int),
            out@.to_multiset() == orig.subrange(0, k as int).to_multiset(),
            timeline_sorted(out@, by_channel),
            out@ == stable_sort_entries(orig.subrange(0, k as int), by_channel),
        decreases n - k,
    {
        proof {
            assert(rest@.len() > 0);
        }
        let e = rest.remove(0);
        let mut p: usize = 0;
        while p < out.len()
            invariant
                p <= out@.len(),
                forall|q: int| 0 <= q < p ==> !entry_before(e, #[trigger] out@[q], by_channel),
            ensures
                p <= out@.len(),
                forall|q: int| 0 <= q < p ==> !entry_before(e, #[trigger] out@[q], by_channel),
                p < out@.len() ==> entry_before(e, out@[p as int], by_channel),
            decreases out@.len() - p,
        {
            if entry_before_exec(&e, &out[p], by_channel) {
                break;
            }
            p = p + 1;
        }
        let ghost before = out@;
        let ghost ee = e;
        proof {
            assert(p < before.len() ==> entry_before(ee, before[p as int], by_channel));
            assert forall|q: int| p <= q < before.len() implies entry_before(ee, #[trigger] before[q], by_channel) by {
                if q > p {
                    assert(!entry_before(before[q], before[p as int], by_channel));
                    lemma_entry_weak_order(ee, before[p as int], before[q], by_channel);
                }
            }
            lemma_insert_entry_at(before, ee, p as int, by_channel);
            assert(orig.subrange(0, k + 1).drop_last() =~= orig.subrange(0, k as int));
            assert(orig.subrange(0, k + 1).last() == ee);
        }
        out.insert(p, e);
        proof {
            assert(out@ == before.insert(p as int, ee));
            assert forall|i: int, j: int| 0 <= i < j < out@.len() implies !entry_before(#[trigger] out@[j], #[trigger] out@[i], by_channel) by {
                if j < p {
                    assert(out@[i] == before[i] && out@[j] == before[j]);
                } else if j == p {
                    assert(out@[i] == before[i]);
                    lemma_entry_order(ee, before[i], ee, by_channel);
                } else if i < p {
                    assert(out@[i] == before[i] && out@[j] == before[j - 1]);
                } else if i == p {
                    assert(out@[j] == before[j - 1]);
                    lemma_entry_order(before[j - 1], ee, before[p as int], by_channel);
                    if j - 1 > p {
                        assert(!entry_before(before[j - 1], before[p as int], by_channel));
                    }
                } else {
                    assert(out@[i] == before[i - 1] && out@[j] == before[j - 1]);
                }
            }
            assert(orig.subrange(0, k + 1) =~= orig.subrange(0, k as int).push(ee));
            assert(orig[k as int] == ee);
            vstd::seq_lib::to_multiset_insert(before, p as int, ee);
            vstd::seq_lib::to_multiset_build(orig.subrange(0, k as int), ee);
        }
        k = k + 1;
    }
    proof {
        assert(orig.subrange(0, n as int) =~= orig);
    }
    out
}

/// Sorts a compiled timeline: by first bar, priority, channel and id.
pub fn sort_timeline(entries: Vec<TimelineEntry>) -> (out: Vec<TimelineEntry>)
    ensures
        out@ == stable_sort_entries(entries@, true),
        timeline_sorted(out@, true),
        out@.to_multiset() == entries@.to_multiset(),
{
    sort_timeline_by(entries, true)
}


/// An action by its views: layer, played asset, bar.
pub open spec fn action_view(a: PatchAction) -> (Seq<char>, Option<Seq<char>>, u32) {
    (a.layer_id@, match a.target_asset_id { Some(t) => Some(t@), None => None }, a.bar)
}

/// The views of a list of actions.
pub open spec fn action_views(s: Seq<PatchAction>) -> Seq<(Seq<char>, Option<Seq<char>>, u32)> {
    s.map_values(|a: PatchAction| action_view(a))
}

/// An action view that a change replaces.
pub open spec fn view_matches(a: (Seq<char>, Option<Seq<char>>, u32), c: PatchChange, scope: PatchScope) -> bool {
    &&& a.0 == c.target@
    &&& a.1 == Some(c.from@)
    &&& scope.from_bar <= a.2 <= scope.to_bar
}

/// The actions after one change: each one it replaces now plays the new asset.
pub open spec fn retarget(s: Seq<(Seq<char>, Option<Seq<char>>, u32)>, c: PatchChange, scope: PatchScope)
    -> Seq<(Seq<char>, Option<Seq<char>>, u32)>
{
    s.map_values(|a: (Seq<char>, Option<Seq<char>>, u32)| if view_matches(a, c, scope) { (a.0, Some(c.to@), a.2) } else { a })
}

/// The actions after every change, in order.
pub open spec fn retarget_all(s: Seq<(Seq<char>, Option<Seq<char>>, u32)>, cs: Seq<PatchChange>, scope: PatchScope)
    -> Seq<(Seq<char>, Option<Seq<char>>, u32)>
    decreases cs.len(),
{
    if cs.len() == 0 {
        s
    } else {
        retarget(retarget_all(s, cs.drop_last(), scope), cs.last(), scope)
    }
}

/// A layer by its views: id and asset candidates.
pub open spec fn layer_view(l: PatchLayer) -> (Seq<char>, Seq<Seq<char>>) {
    (l.layer_id@, l.asset_candidates@.map_values(|c: String| c@))
}

/// The views of a list of layers.
pub open spec fn layer_views(s: Seq<PatchLayer>) -> Seq<(Seq<char>, Seq<Seq<char>>)> {
    s.map_values(|l: PatchLayer| layer_view(l))
}

/// Position of the first layer view `id`.
pub open spec fn first_layer_view(s: Seq<(Seq<char>, Seq<Seq<char>>)>, id: Seq<char>) -> Option<int> {
    if exists|i: int| 0 <= i < s.len() && s[i].0 == id && forall|j: int| 0 <= j < i ==> #[trigger] s[j].0 != id {
        Some(choose|i: int| 0 <= i < s.len() && s[i].0 == id && forall|j: int| 0 <= j < i ==> #[trigger] s[j].0 != id)
    } else {
        None
    }
}

/// The layers after one change: the first layer it targets, if it has
/// candidates, gets the new asset as its first candidate.
pub open spec fn replace_candidate(s: Seq<(Seq<char>, Seq<Seq<char>>)>, c: PatchChange) -> Seq<(Seq<char>, Seq<Seq<char>>)> {
    match first_layer_view(s, c.target@) {
        Some(i) => if s[i].1.len() > 0 {
            s.update(i, (s[i].0, s[i].1.update(0, c.to@)))
        } else {
            s
        },
        None => s,
    }
}

/// The layers after every change, in order.
pub open spec fn replace_all(s: Seq<(Seq<char>, Seq<Seq<char>>)>, cs: Seq<PatchChange>) -> Seq<(Seq<char>, Seq<Seq<char>>)>
    decreases cs.len(),
{
    if cs.len() == 0 {
        s
    } else {
        replace_candidate(replace_all(s, cs.drop_last()), cs.last())
    }
}

/// Whether `d` records that proposal `p` was applied to revision `active`.
pub open spec fn is_applied(d: PatchDecision, p: LivePatchProposal, active: u64) -> bool {
    &&& d.patch_id@ == p.patch_id@
    &&& d.base_revision == active
    &&& d.candidate_revision == active + 1
    &&& d.decision@ == "applied"@
    &&& d.window@ == p.scope.window@
    &&& d.scope.from_bar == p.scope.from_bar
    &&& d.scope.to_bar == p.scope.to_bar
    &&& d.scope.window@ == p.scope.window@
    &&& d.fallback_revision == p.fallback_revision
    &&& d.reasons@.len() == 1
    &&& d.reasons@[0]@ == "local content patch accepted"@
}

/// Whether `e` is the timeline entry of patch `p` in revision `revision`
/// of show `show`.
pub open spec fn is_patch_entry(e: TimelineEntry, p: LivePatchProposal, show: Seq<char>, revision: int) -> bool {
    &&& e.type_@ == "timeline_entry"@
    &&& e.id@ == "timeline-patch-"@ + p.patch_id@
    &&& e.show_id@ == show
    &&& e.revision == revision
    &&& e.channel@ == "patch"@
    &&& e.target_ref@ == p.patch_id@
    &&& e.effective_window.from_bar == p.scope.from_bar
    &&& e.effective_window.to_bar == p.scope.to_bar
    &&& e.scheduler.lookahead_ms == 100
    &&& e.scheduler.priority == 100
    &&& e.scheduler.conflict_group@ == "patch-"@ + p.patch_id@
    &&& e.guards@ == Map::<String, String>::empty()
}

/// Points every action that `c` replaces at the new asset.
fn retarget_actions(actions: &mut Vec<PatchAction>, c: &PatchChange, scope: &PatchScope)
    ensures
        action_views(final(actions)@) == retarget(action_views(old(actions)@), *c, *scope),
{
    let ghost start = action_views(actions@);
    let mut i: usize = 0;
    while i < actions.len()
        invariant
            start == action_views(old(actions)@),
            actions@.len() == start.len(),
            i <= actions@.len(),
            forall|q: int| 0 <= q < i ==> action_view(#[trigger] actions@[q]) == retarget(start, *c, *scope)[q],
            forall|q: int| i <= q < actions@.len() ==> action_view(#[trigger] actions@[q]) == start[q],
        decreases actions@.len() - i,
    {
        let ghost before = actions@;
        proof {
            assert(action_view(before[i as int]) == start[i as int]);
        }
        if action_matches_exec(&actions[i], c, scope) {
            let na = PatchAction {
                layer_id: actions[i].layer_id.clone(),
                target_asset_id: Some(c.to.clone()),
                bar: actions[i].bar,
            };
            actions.set(i, na);
        }
        proof {
            assert(action_view(actions@[i as int]) == retarget(start, *c, *scope)[i as int]);
            assert forall|q: int| 0 <= q < actions@.len() && q != i implies actions@[q] == before[q] by {}
        }
        i = i + 1;
    }
    proof {
        assert(action_views(actions@) =~= retarget(start, *c, *scope));
    }
}

/// Gives the first layer that `c` targets, if it has candidates, the new
/// asset as its first candidate.
fn replace_first_candidate(layers: &mut Vec<PatchLayer>, c: &PatchChange)
    ensures
        layer_views(final(layers)@) == replace_candidate(layer_views(old(layers)@), *c),
{
    let ghost start = layer_views(layers@);
    proof {
        assert forall|id: Seq<char>| #[trigger] first_layer_view(start, id) == first_layer(layers@, id) by {
            if exists|i: int| 0 <= i < layers@.len() && layers@[i].layer_id@ == id
                && forall|j: int| 0 <= j < i ==> #[trigger] layers@[j].layer_id@ != id {
                let i = choose|i: int| 0 <= i < layers@.len() && layers@[i].layer_id@ == id
                    && forall|j: int| 0 <= j < i ==> #[trigger] layers@[j].layer_id@ != id;
                assert(start[i].0 == id);
                assert forall|j: int| 0 <= j < i implies #[trigger] start[j].0 != id by {
                    assert(start[j].0 == layers@[j].layer_id@);
                }
                let w = choose|w: int| 0 <= w < start.len() && start[w].0 == id && forall|j: int| 0 <= j < w ==> #[trigger] start[j].0 != id;
                assert(w == i) by {
                    if w < i {
                        assert(start[w].0 == layers@[w].layer_id@);
                    } else if w > i {
                        assert(start[i].0 != id);
                    }
                }
            } else {
                if exists|w: int| 0 <= w < start.len() && start[w].0 == id && forall|j: int| 0 <= j < w ==> #[trigger] start[j].0 != id {
                    let w = choose|w: int| 0 <= w < start.len() && start[w].0 == id && forall|j: int| 0 <= j < w ==> #[trigger] start[j].0 != id;
                    assert(layers@[w].layer_id@ == id);
                    assert forall|j: int| 0 <= j < w implies #[trigger] layers@[j].layer_id@ != id by {
                        assert(start[j].0 == layers@[j].layer_id@);
                    }
                }
            }
        }
    }
    match find_layer(layers, c.target.as_str()) {
        Some(k) => {
            if layers[k].asset_candidates.len() > 0 {
                let mut layer = layers.remove(k);
                let ghost before = layer.asset_candidates@;
                layer.asset_candidates.set(0, c.to.clone());
                proof {
                    assert(layer.asset_candidates@.map_values(|x: String| x@)
                        =~= before.map_values(|x: String| x@).update(0, c.to@));
                }
                layers.insert(k, layer);
                proof {
                    assert(layer_views(layers@) =~= start.update(k as int, (start[k as int].0, start[k as int].1.update(0, c.to@))));
                }
            }
        },
        None => {},
    }
}

/// Applies a live patch that passes `check_patch`: the revision number
/// advances by one (the old one becomes the base), the run id names the
/// patch, each change in turn points the actions it replaces at the new
/// asset and gives the target layer the new asset as first candidate, the
/// decision is recorded, and a patch entry joins the timeline, which is
/// then ordered by first bar, priority and id. A proposal with problems is
/// refused with every problem reported.
pub fn apply_patch(revision: RevisionState, proposal: &LivePatchProposal) -> (r: Result<RevisionState, Vec<Diagnostic>>)
    requires
        patch_findings(revision, *proposal).len() == 0 ==> revision.revision < u64::MAX,
    ensures
        r is Ok <==> patch_findings(revision, *proposal).len() == 0,
        r matches Err(ds) ==> reports(ds@, patch_findings(revision, *proposal)),
        r matches Ok(n) ==> {
            &&& n.revision == revision.revision + 1
            &&& n.base_revision == revision.revision
            &&& n.compile_run_id@ == "patch-"@ + proposal.patch_id@ + "-rev-"@ + decimal((revision.revision + 1) as nat)
            &&& n.show_id == revision.show_id
            &&& n.allowed_patch_scopes == revision.allowed_patch_scopes
            &&& n.structure == revision.structure
            &&& n.lighting_fixture_ids == revision.lighting_fixture_ids
            &&& n.assets == revision.assets
            &&& action_views(n.actions@) == retarget_all(action_views(revision.actions@), proposal.changes@, proposal.scope)
            &&& layer_views(n.layers@) == replace_all(layer_views(revision.layers@), proposal.changes@)
            &&& n.patch_history@.len() == revision.patch_history@.len() + 1
            &&& n.patch_history@.subrange(0, revision.patch_history@.len() as int) == revision.patch_history@
            &&& is_applied(n.patch_history@.last(), *proposal, revision.revision)
            &&& timeline_sorted(n.timeline@, false)
            &&& exists|e: TimelineEntry| is_patch_entry(e, *proposal, revision.show_id@, revision.revision + 1)
                && #[trigger] n.timeline@.to_multiset() == revision.timeline@.push(e).to_multiset()
                && n.timeline@ == stable_sort_entries(revision.timeline@.push(e), false)
        },
{
    let ds = check_patch(&revision, proposal);
    if ds.len() > 0 {
        return Err(ds);
    }
    let ghost orig = revision;
    let mut patched = revision;
    let active = patched.revision;
    let next = active + 1;
    patched.base_revision = active;
    patched.revision = next;
    let mut run_id = join2("patch-", proposal.patch_id.as_str());
    run_id.append("-rev-");
    push_decimal(&mut run_id, next);
    patched.compile_run_id = run_id;
    let mut k: usize = 0;
    while k < proposal.changes.len()
        invariant
            k <= proposal.changes@.len(),
            action_views(patched.actions@) == retarget_all(action_views(orig.actions@), proposal.changes@.subrange(0, k as int), proposal.scope),
            layer_views(patched.layers@) == replace_all(layer_views(orig.layers@), proposal.changes@.subrange(0, k as int)),
            patched.show_id == orig.show_id,
            patched.allowed_patch_scopes == orig.allowed_patch_scopes,
            patched.structure == orig.structure,
            patched.lighting_fixture_ids == orig.lighting_fixture_ids,
            patched.assets == orig.assets,
            patched.timeline == orig.timeline,
            patched.patch_history == orig.patch_history,
            patched.revision == next,
            patched.base_revision == active,
            patched.compile_run_id@ == "patch-"@ + proposal.patch_id@ + "-rev-"@ + decimal(next as nat),
        decreases proposal.changes@.len() - k,
    {
        let c = &proposal.changes[k];
        retarget_actions(&mut patched.actions, c, &proposal.scope);
        replace_first_candidate(&mut patched.layers, c);
        proof {
            assert(proposal.changes@.subrange(0, k + 1).drop_last() =~= proposal.changes@.subrange(0, k as int));
        }
        k = k + 1;
    }
    proof {
        assert(proposal.changes@.subrange(0, proposal.changes@.len() as int) =~= proposal.changes@);
    }
    let decision = PatchDecision {
        patch_id: proposal.patch_id.clone(),
        base_revision: active,
        candidate_revision: next,
        decision: String::from_str("applied"),
        window: proposal.scope.window.clone(),
        scope: copy_scope(&proposal.scope),
        fallback_revision: proposal.fallback_revision,
        reasons: vec![String::from_str("local content patch accepted")],
    };
    let ghost hist = patched.patch_history@;
    patched.patch_history.push(decision);
    proof {
        assert(patched.patch_history@.subrange(0, hist.len() as int) =~= hist);
    }
    let conflict = join2("patch-", proposal.patch_id.as_str());
    let entry = TimelineEntry {
        type_: String::from_str("timeline_entry"),
        id: join2("timeline-patch-", proposal.patch_id.as_str()),
        show_id: patched.show_id.clone(),
        revision: next,
        channel: String::from_str("patch"),
        target_ref: proposal.patch_id.clone(),
        effective_window: EffectiveWindow { from_bar: proposal.scope.from_bar, to_bar: proposal.scope.to_bar },
        scheduler: TimelineScheduler { lookahead_ms: 100, priority: 100, conflict_group: conflict },
        guards: std::collections::BTreeMap::new(),
    };
    let ghost e = entry;
    let mut timeline: Vec<TimelineEntry> = Vec::new();
    std::mem::swap(&mut timeline, &mut patched.timeline);
    timeline.push(entry);
    patched.timeline = sort_timeline_by(timeline, false);
    proof {
        assert(is_patch_entry(e, *proposal, orig.show_id@, next as int));
    }
    Ok(patched)
}


/// The changes raise nothing exactly when no single change does.
proof fn lemma_changes_clean(rev: RevisionState, p: LivePatchProposal, cs: Seq<PatchChange>)
    ensures
        changes_findings(rev, p, cs).len() == 0
            <==> forall|k: int| 0 <= k < cs.len() ==> #[trigger] change_findings(rev, p, cs[k]).len() == 0,
    decreases cs.len(),
{
    if cs.len() > 0 {
        let prev = cs.drop_last();
        lemma_changes_clean(rev, p, prev);
        if forall|k: int| 0 <= k < cs.len() ==> #[trigger] change_findings(rev, p, cs[k]).len() == 0 {
            assert forall|k: int| 0 <= k < prev.len() implies #[trigger] change_findings(rev, p, prev[k]).len() == 0 by {
                assert(prev[k] == cs[k]);
            }
            assert(change_findings(rev, p, cs[cs.len() - 1]).len() == 0);
        }
        if changes_findings(rev, p, cs).len() == 0 {
            assert forall|k: int| 0 <= k < cs.len() implies #[trigger] change_findings(rev, p, cs[k]).len() == 0 by {
                if k < prev.len() {
                    assert(prev[k] == cs[k]);
                }
            }
        }
    }
}

/// A proposal is clean, and so applies, exactly when the proposal as a
/// whole and each of its changes raise nothing.
pub proof fn law_patch_clean(rev: RevisionState, p: LivePatchProposal)
    ensures
        patch_findings(rev, p).len() == 0 <==> (proposal_findings(rev, p).len() == 0
            && forall|k: int| 0 <= k < p.changes@.len() ==> #[trigger] change_findings(rev, p, p.changes@[k]).len() == 0),
{
    lemma_changes_clean(rev, p, p.changes@);
}

/// A proposal as a whole raises nothing exactly when it builds on the
/// active revision, is a local content or lighting cue patch, asks for a
/// window the constraint set allows, and spans bars that run forward and
/// end no later than the last bar of the structure (bar 1 when it has no
/// sections).
pub proof fn law_proposal_clean(rev: RevisionState, p: LivePatchProposal)
    ensures
        proposal_findings(rev, p).len() == 0 <==> {
            &&& p.base_revision == rev.revision
            &&& (p.patch_class@ == "local_content"@ || p.patch_class@ == "lighting_cue"@)
            &&& exists|i: int| 0 <= i < rev.allowed_patch_scopes@.len() && #[trigger] rev.allowed_patch_scopes@[i]@ == p.scope.window@
            &&& p.scope.from_bar <= p.scope.to_bar
            &&& p.scope.to_bar <= (if rev.structure.sections@.len() == 0 { 1 } else { rev.structure.sections@.last().span.end_bar })
        },
{
}

/// A change of a local content patch raises nothing exactly when it
/// replaces an asset ("replace_asset") on an audio layer that exists, the
/// first registered asset with the new id is live-ready ("live_candidate"
/// or "warmed") and warmed, and some performance action on that layer plays
/// the replaced asset inside the patch's bars.
pub proof fn law_local_change_clean(rev: RevisionState, p: LivePatchProposal, c: PatchChange)
    requires
        p.patch_class@ == "local_content"@,
    ensures
        change_findings(rev, p, c).len() == 0 <==> {
            &&& c.op@ == "replace_asset"@
            &&& exists|i: int| 0 <= i < rev.layers@.len() && #[trigger] rev.layers@[i].layer_id@ == c.target@
            &&& exists|i: int| 0 <= i < rev.assets@.len() && #[trigger] rev.assets@[i].asset_id@ == c.to@
                && (forall|j: int| 0 <= j < i ==> #[trigger] rev.assets@[j].asset_id@ != c.to@)
                && (rev.assets@[i].readiness matches Some(r) && (r@ == "live_candidate"@ || r@ == "warmed"@))
                && (rev.assets@[i].warm_status matches Some(w) && w@ == "warmed"@)
            &&& exists|k: int| 0 <= k < rev.actions@.len() && #[trigger] rev.actions@[k].layer_id@ == c.target@
                && (rev.actions@[k].target_asset_id matches Some(t) && t@ == c.from@)
                && p.scope.from_bar <= rev.actions@[k].bar <= p.scope.to_bar
        },
{
    reveal_strlit("local_content");
    reveal_strlit("lighting_cue");
    assert("local_content"@.len() != "lighting_cue"@.len());
    let a = rev.assets@;
    let id = c.to@;
    if exists|i: int| 0 <= i < a.len() && #[trigger] a[i].asset_id@ == id {
        let w = choose|i: int| 0 <= i < a.len() && #[trigger] a[i].asset_id@ == id;
        lemma_first_asset_found(a, id, w);
        let i = first_asset(a, id)->0;
        law_replacement_asset_readiness(rev, c, i);
        if exists|i2: int| 0 <= i2 < a.len() && #[trigger] a[i2].asset_id@ == id
            && (forall|j: int| 0 <= j < i2 ==> #[trigger] a[j].asset_id@ != id)
            && asset_live(a[i2]) {
            let i2 = choose|i2: int| 0 <= i2 < a.len() && #[trigger] a[i2].asset_id@ == id
                && (forall|j: int| 0 <= j < i2 ==> #[trigger] a[j].asset_id@ != id)
                && asset_live(a[i2]);
            assert(i2 == i) by {
                if i2 < i {
                    assert(a[i2].asset_id@ != id);
                } else if i2 > i {
                    assert(a[i].asset_id@ != id);
                }
            }
        }
    } else {
        assert(first_asset(a, id) is None);
    }
    if has_matching_action(rev.actions@, c, p.scope) {
        let k = choose|k: int| 0 <= k < rev.actions@.len() && action_matches(#[trigger] rev.actions@[k], c, p.scope);
        assert(rev.actions@[k].layer_id@ == c.target@);
    }
    if exists|k: int| 0 <= k < rev.actions@.len() && #[trigger] rev.actions@[k].layer_id@ == c.target@
        && (rev.actions@[k].target_asset_id matches Some(t) && t@ == c.from@)
        && p.scope.from_bar <= rev.actions@[k].bar <= p.scope.to_bar {
        let k = choose|k: int| 0 <= k < rev.actions@.len() && #[trigger] rev.actions@[k].layer_id@ == c.target@
            && (rev.actions@[k].target_asset_id matches Some(t) && t@ == c.from@)
            && p.scope.from_bar <= rev.actions@[k].bar <= p.scope.to_bar;
        assert(action_matches(rev.actions@[k], c, p.scope));
    }
}

/// Where some asset has id `id`, `first_asset` finds the first one.
pub proof fn lemma_first_asset_found(a: Seq<AssetRecord>, id: Seq<char>, i: int)
    requires
        0 <= i < a.len(),
        a[i].asset_id@ == id,
    ensures
        first_asset(a, id) matches Some(k) && 0 <= k <= i && a[k].asset_id@ == id
            && forall|j: int| 0 <= j < k ==> a[j].asset_id@ != id,
    decreases i,
{
    if exists|j: int| 0 <= j < i && a[j].asset_id@ == id {
        let j = choose|j: int| 0 <= j < i && a[j].asset_id@ == id;
        lemma_first_asset_found(a, id, j);
    } else {
        let k = choose|k: int| 0 <= k < a.len() && a[k].asset_id@ == id
            && forall|j: int| 0 <= j < k ==> #[trigger] a[j].asset_id@ != id;
        assert(k == i) by {
            if k < i {
            } else if k > i {
                assert(a[i].asset_id@ != id);
            }
        }
    }
}

/// A change of a lighting cue patch raises nothing exactly when the
/// lighting topology has a fixture with the change's target id.
pub proof fn law_lighting_change_clean(rev: RevisionState, p: LivePatchProposal, c: PatchChange)
    requires
        p.patch_class@ == "lighting_cue"@,
    ensures
        change_findings(rev, p, c).len() == 0 <==> (rev.lighting_fixture_ids matches Some(ids)
            && exists|i: int| 0 <= i < ids@.len() && #[trigger] ids@[i]@ == c.target@),
{
}

/// A replacement asset that is registered, live-ready ("live_candidate" or
/// "warmed") and warmed draws neither PAT-007 nor PAT-008; a registered one
/// that lacks either mark draws PAT-008 with its message. `i` is the first
/// registered asset with the replacement's id.
pub proof fn law_replacement_asset_readiness(rev: RevisionState, c: PatchChange, i: int)
    requires
        0 <= i < rev.assets@.len(),
        rev.assets@[i].asset_id@ == c.to@,
        forall|j: int| 0 <= j < i ==> #[trigger] rev.assets@[j].asset_id@ != c.to@,
    ensures
        (rev.assets@[i].readiness matches Some(r) && (r@ == "live_candidate"@ || r@ == "warmed"@))
            && (rev.assets@[i].warm_status matches Some(w) && w@ == "warmed"@)
            ==> asset_findings(rev, c) == Seq::<Finding>::empty(),
        !((rev.assets@[i].readiness matches Some(r) && (r@ == "live_candidate"@ || r@ == "warmed"@))
            && (rev.assets@[i].warm_status matches Some(w) && w@ == "warmed"@))
            ==> asset_findings(rev, c) == seq![("PAT-008"@, "replacement asset "@ + c.to@ + " is not warmed and live-ready"@)],
{
    let a = rev.assets@;
    let id = c.to@;
    assert(first_asset(a, id) == Some(i)) by {
        let w = choose|w: int| 0 <= w < a.len() && a[w].asset_id@ == id
            && forall|j: int| 0 <= j < w ==> #[trigger] a[j].asset_id@ != id;
        if w < i {
            assert(a[w].asset_id@ != id);
        } else if w > i {
            assert(a[i].asset_id@ != id);
        }
    }
}

/// A patch applies exactly when checking it reports nothing, and a
/// refused patch is answered with what the check reports, in the same
/// order. `ds` is what `check_patch` returned and `r` what `apply_patch`
/// returned on the same revision and proposal; the requirements are their
/// contracts.
pub proof fn law_apply_iff_check_clean(
    revision: RevisionState,
    p: LivePatchProposal,
    ds: Seq<Diagnostic>,
    r: Result<RevisionState, Vec<Diagnostic>>,
)
    requires
        reports(ds, patch_findings(revision, p)),
        r is Ok <==> patch_findings(revision, p).len() == 0,
        r matches Err(es) ==> reports(es@, patch_findings(revision, p)),
    ensures
        r is Ok <==> ds.len() == 0,
        r matches Err(es) ==> es@.len() == ds.len() && forall|i: int| 0 <= i < ds.len()
            ==> (#[trigger] es@[i]).is_plain(ds[i].code@, ds[i].severity@, ds[i].message@),
{
    match r {
        Ok(_) => {},
        Err(es) => {
            assert forall|i: int| 0 <= i < ds.len()
                implies (#[trigger] es@[i]).is_plain(ds[i].code@, ds[i].severity@, ds[i].message@) by {
                assert(ds[i].is_plain(patch_findings(revision, p)[i].0, "error"@, patch_findings(revision, p)[i].1));
            }
        },
    }
}

/// Once a patch is applied, rolling it back succeeds; when it was the
/// first decision recorded for its id, the rollback goes to the patch's
/// fallback revision.
pub proof fn law_rollback_after_apply(history: Seq<PatchDecision>, d: PatchDecision, p: LivePatchProposal, active: u64)
    requires
        is_applied(d, p, active),
    ensures
        first_decision(history.push(d), p.patch_id@) is Some,
        first_decision(history, p.patch_id@) is None ==> first_decision(history.push(d), p.patch_id@) == Some(history.len() as int)
            && history.push(d)[history.len() as int].fallback_revision == p.fallback_revision,
{
    let h = history.push(d);
    let id = p.patch_id@;
    assert(h[history.len() as int] == d);
    if first_decision(history, id) is Some {
        let i = first_decision(history, id)->0;
        assert(h[i] == history[i]);
        assert forall|j: int| 0 <= j < i implies #[trigger] h[j].patch_id@ != id by {
            assert(h[j] == history[j]);
        }
    } else {
        let n = history.len() as int;
        if !(forall|j: int| 0 <= j < n ==> #[trigger] h[j].patch_id@ != id) {
            let j = choose|j: int| 0 <= j < n && #[trigger] h[j].patch_id@ == id;
            assert(h[j] == history[j]);
            lemma_first_decision_exists(history, id, j);
        }
        assert(forall|j: int| 0 <= j < n ==> #[trigger] h[j].patch_id@ != id);
        let w = choose|w: int| 0 <= w < h.len() && h[w].patch_id@ == id
            && forall|j: int| 0 <= j < w ==> #[trigger] h[j].patch_id@ != id;
        assert(w == n) by {
            if w < n {
                assert(h[w].patch_id@ != id);
            }
        }
    }
}

/// Where some decision has the id, there is a first one.
pub proof fn lemma_first_decision_exists(history: Seq<PatchDecision>, id: Seq<char>, j: int)
    requires
        0 <= j < history.len(),
        history[j].patch_id@ == id,
    ensures
        first_decision(history, id) is Some,
    decreases j,
{
    if exists|k: int| 0 <= k < j && #[trigger] history[k].patch_id@ == id {
        let k = choose|k: int| 0 <= k < j && #[trigger] history[k].patch_id@ == id;
        lemma_first_decision_exists(history, id, k);
    } else {
        assert(forall|k: int| 0 <= k < j ==> #[trigger] history[k].patch_id@ != id);
    }
}

} // verus!
