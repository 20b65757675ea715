//! Run evaluation: the tallies behind the sync, transition, resource
//! stability and patch safety scores of a recorded run, the issues they
//! raise, and the verdict the issues lead to.
//!
//! A score is a ratio of two tallies; the ratios and the facts that carry
//! them are floating point and are formed outside the library.

use vstd::prelude::*;
use crate::text::{decimal, zero_pad, has_prefix, starts_with, str_eq, push_decimal, push_padded_decimal};

verus! {

/// What the evaluation reads of a recorded event: its id, its kind, the
/// bar it happened at, the status of its acknowledgement if it has one,
/// and, for a patch event, the revision it falls back to.
#[derive(Debug, Clone)]
pub struct EventFacts {
    pub event_id: String,
    pub kind: String,
    pub bar: u32,
    pub ack_status: Option<String>,
    pub patch_fallback_revision: Option<u64>,
}

/// Bars an issue concerns.
#[derive(Debug, Clone, Copy, PartialEq, Eq, Structural)]
pub struct EvaluationSpan {
    pub from_bar: u32,
    pub to_bar: u32,
}

/// A problem found in a run.
#[derive(Debug, Clone)]
pub struct EvaluationIssue {
    pub issue_id: String,
    pub code: String,
    pub severity: String,
    pub message: String,
    pub span: Option<EvaluationSpan>,
    pub evidence_refs: Vec<String>,
}

/// The verdict on a run and what to do about it.
#[derive(Debug, Clone)]
pub struct EvaluationSummary {
    pub verdict: String,
    pub recommended_action: String,
}

/// A timing event: its kind starts with `timing.`.
pub open spec fn is_timing(e: EventFacts) -> bool {
    has_prefix(e.kind@, "timing."@)
}

/// An audio event: its kind starts with `audio.`.
pub open spec fn is_audio(e: EventFacts) -> bool {
    has_prefix(e.kind@, "audio."@)
}

/// A visual event: its kind starts with `visual.`.
pub open spec fn is_visual(e: EventFacts) -> bool {
    has_prefix(e.kind@, "visual."@)
}

/// A patch event: its kind starts with `patch.`.
pub open spec fn is_patch(e: EventFacts) -> bool {
    has_prefix(e.kind@, "patch."@)
}

/// A section entry.
pub open spec fn is_section_enter(e: EventFacts) -> bool {
    e.kind@ == "timing.section.enter"@
}

/// An acknowledged event.
pub open spec fn has_ack(e: EventFacts) -> bool {
    e.ack_status is Some
}

/// An event acknowledged with status `ok`.
pub open spec fn ok_ack(e: EventFacts) -> bool {
    e.ack_status matches Some(s) && s@ == "ok"@
}

/// A patch event that names a revision to fall back to.
pub open spec fn scoped_patch(e: EventFacts) -> bool {
    e.patch_fallback_revision matches Some(r) && r > 0
}

/// Number of events of `s` that satisfy `f`.
pub open spec fn count_where(s: Seq<EventFacts>, f: spec_fn(EventFacts) -> bool) -> nat
    decreases s.len(),
{
    if s.len() == 0 {
        0
    } else {
        count_where(s.drop_last(), f) + if f(s.last()) { 1nat } else { 0nat }
    }
}

/// Some event of `s` satisfies `f`.
pub open spec fn any_where(s: Seq<EventFacts>, f: spec_fn(EventFacts) -> bool) -> bool {
    exists|i: int| 0 <= i < s.len() && f(#[trigger] s[i])
}

/// An audio or visual event of `s` happens at `bar`.
pub open spec fn bar_has_content(s: Seq<EventFacts>, bar: u32) -> bool {
    exists|i: int| 0 <= i < s.len() && (is_audio(#[trigger] s[i]) || is_visual(s[i])) && s[i].bar == bar
}

/// A section of `s` starts at `bar`.
pub open spec fn is_section_bar(s: Seq<EventFacts>, bar: u32) -> bool {
    exists|i: int| 0 <= i < s.len() && is_section_enter(#[trigger] s[i]) && s[i].bar == bar
}

/// The visual events of `s` that happen at no section start of `all`, in order.
pub open spec fn misaligned(s: Seq<EventFacts>, all: Seq<EventFacts>) -> Seq<EventFacts>
    decreases s.len(),
{
    if s.len() == 0 {
        s
    } else if is_visual(s.last()) && !is_section_bar(all, s.last().bar) {
        misaligned(s.drop_last(), all).push(s.last())
    } else {
        misaligned(s.drop_last(), all)
    }
}

/// The ids of the patch events of `s`, in order.
pub open spec fn patch_ids(s: Seq<EventFacts>) -> Seq<Seq<char>>
    decreases s.len(),
{
    if s.len() == 0 {
        Seq::empty()
    } else if is_patch(s.last()) {
        patch_ids(s.drop_last()).push(s.last().event_id@)
    } else {
        patch_ids(s.drop_last())
    }
}

/// The id of issue number `n`.
pub open spec fn issue_id_text(n: nat) -> Seq<char> {
    "issue-"@ + zero_pad(decimal(n), 3)
}

/// The issue raised for a visual event `e` off every section boundary,
/// numbered `n`.
pub open spec fn is_off_boundary_issue(issue: EvaluationIssue, e: EventFacts, n: nat) -> bool {
    &&& issue.issue_id@ == issue_id_text(n)
    &&& issue.code@ == "visual_transition_off_boundary"@
    &&& issue.severity@ == "warning"@
    &&& issue.message@ == "visual event "@ + e.event_id@ + " at bar "@ + decimal(e.bar as nat)
        + " is not aligned with a section boundary"@
    &&& issue.span == Some(EvaluationSpan { from_bar: e.bar, to_bar: (e.bar + 1) as u32 })
    &&& issue.evidence_refs@.len() == 1
    &&& issue.evidence_refs@[0]@ == e.event_id@
}

/// The verdict the issues' severities lead to.
pub open spec fn verdict_text(severities: Seq<Seq<char>>) -> Seq<char> {
    if severities.contains("error"@) {
        "needs_revision"@
    } else if severities.contains("warning"@) {
        "usable_with_patch"@
    } else {
        "clean"@
    }
}

/// The action a verdict recommends.
pub open spec fn action_text(verdict: Seq<char>) -> Seq<char> {
    if verdict == "needs_revision"@ {
        "address error-level issues before next run"@
    } else if verdict == "usable_with_patch"@ {
        "review warnings and consider targeted patches"@
    } else {
        "no action needed"@
    }
}

/// The severities of a list of issues.
pub open spec fn severities(issues: Seq<EvaluationIssue>) -> Seq<Seq<char>> {
    issues.map_values(|i: EvaluationIssue| i.severity@)
}

fn timing_exec(e: &EventFacts) -> (b: bool)
    ensures
        b == is_timing(*e),
{
    starts_with(e.kind.as_str(), "timing.")
}

fn audio_exec(e: &EventFacts) -> (b: bool)
    ensures
        b == is_audio(*e),
{
    starts_with(e.kind.as_str(), "audio.")
}

fn visual_exec(e: &EventFacts) -> (b: bool)
    ensures
        b == is_visual(*e),
{
    starts_with(e.kind.as_str(), "visual.")
}

fn patch_exec(e: &EventFacts) -> (b: bool)
    ensures
        b == is_patch(*e),
{
    starts_with(e.kind.as_str(), "patch.")
}

fn section_enter_exec(e: &EventFacts) -> (b: bool)
    ensures
        b == is_section_enter(*e),
{
    str_eq(e.kind.as_str(), "timing.section.enter")
}

fn ok_ack_exec(e: &EventFacts) -> (b: bool)
    ensures
        b == ok_ack(*e),
{
    match &e.ack_status {
        Some(s) => str_eq(s.as_str(), "ok"),
        None => false,
    }
}

/// Whether an audio or visual event happens at `bar`.
fn bar_has_content_exec(events: &Vec<EventFacts>, bar: u32) -> (b: bool)
    ensures
        b == bar_has_content(events@, bar),
{
    let mut i: usize = 0;
    while i < events.len()
        invariant
            i <= events@.len(),
            forall|j: int| 0 <= j < i ==> !((is_audio(#[trigger] events@[j]) || is_visual(events@[j])) && events@[j].bar == bar),
        decreases events@.len() - i,
    {
        let e = &events[i];
        if (audio_exec(e) || visual_exec(e)) && e.bar == bar {
            return true;
        }
        i = i + 1;
    }
    false
}

/// Whether a section starts at `bar`.
fn is_section_bar_exec(events: &Vec<EventFacts>, bar: u32) -> (b: bool)
    ensures
        b == is_section_bar(events@, bar),
{
    let mut i: usize = 0;
    while i < events.len()
        invariant
            i <= events@.len(),
            forall|j: int| 0 <= j < i ==> !(is_section_enter(#[trigger] events@[j]) && events@[j].bar == bar),
        decreases events@.len() - i,
    {
        let e = &events[i];
        if section_enter_exec(e) && e.bar == bar {
            return true;
        }
        i = i + 1;
    }
    false
}

/// A count over a prefix is at most the prefix's length.
proof fn lemma_count_le(s: Seq<EventFacts>, f: spec_fn(EventFacts) -> bool)
    ensures
        count_where(s, f) <= s.len(),
    decreases s.len(),
{
    if s.len() > 0 {
        lemma_count_le(s.drop_last(), f);
    }
}

/// Counting one more event.
proof fn lemma_count_step(s: Seq<EventFacts>, i: int, f: spec_fn(EventFacts) -> bool)
    requires
        0 <= i < s.len(),
    ensures
        count_where(s.take(i + 1), f) == count_where(s.take(i), f) + if f(s[i]) { 1nat } else { 0nat },
        count_where(s.take(i), f) <= i,
{
    assert(s.take(i + 1).drop_last() =~= s.take(i));
    lemma_count_le(s.take(i), f);
}

/// Whether any event satisfies `f`, decided over prefixes.
proof fn lemma_any_prefix(s: Seq<EventFacts>, f: spec_fn(EventFacts) -> bool)
    ensures
        count_where(s, f) > 0 <==> any_where(s, f),
    decreases s.len(),
{
    if s.len() > 0 {
        let t = s.drop_last();
        lemma_any_prefix(t, f);
        if any_where(t, f) {
            let i = choose|i: int| 0 <= i < t.len() && f(#[trigger] t[i]);
            assert(s[i] == t[i]);
        }
        if any_where(s, f) && !f(s.last()) {
            let i = choose|i: int| 0 <= i < s.len() && f(#[trigger] s[i]);
            assert(i < t.len());
            assert(t[i] == s[i]);
        }
    }
}

/// The section entries of a run, and how many of them have an audio or
/// visual event at their bar; `None` when the run has no timing event.
pub fn sync_tally(events: &Vec<EventFacts>) -> (r: Option<(usize, usize)>)
    ensures
        r is None <==> !any_where(events@, |e: EventFacts| is_timing(e)),
        r matches Some((synced, sections)) ==> {
            &&& sections == count_where(events@, |e: EventFacts| is_section_enter(e))
            &&& synced == count_where(events@, |e: EventFacts| is_section_enter(e) && bar_has_content(events@, e.bar))
        },
{
    let ghost all = events@;
    let ghost ft = |e: EventFacts| is_timing(e);
    let ghost fs = |e: EventFacts| is_section_enter(e);
    let ghost fy = |e: EventFacts| is_section_enter(e) && bar_has_content(all, e.bar);
    let n = events.len();
    let mut timing: usize = 0;
    let mut sections: usize = 0;
    let mut synced: usize = 0;
    let mut i: usize = 0;
    while i < n
        invariant
            n == all.len(),
            all == events@,
            ft == (|e: EventFacts| is_timing(e)),
            fs == (|e: EventFacts| is_section_enter(e)),
            fy == (|e: EventFacts| is_section_enter(e) && bar_has_content(all, e.bar)),
            i <= n,
            timing == count_where(all.take(i as int), ft),
            sections == count_where(all.take(i as int), fs),
            synced == count_where(all.take(i as int), fy),
        decreases n - i,
    {
        proof {
            lemma_count_step(all, i as int, ft);
            lemma_count_step(all, i as int, fs);
            lemma_count_step(all, i as int, fy);
        }
        let e = &events[i];
        if timing_exec(e) {
            timing = timing + 1;
        }
        if section_enter_exec(e) {
            sections = sections + 1;
            if bar_has_content_exec(events, e.bar) {
                synced = synced + 1;
            }
        }
        i = i + 1;
    }
    proof {
        assert(all.take(n as int) =~= all);
        lemma_any_prefix(all, ft);
    }
    if timing == 0 {
        None
    } else {
        Some((synced, sections))
    }
}

/// Events with an acknowledgement, and those acknowledged `ok`.
pub fn ack_tally(events: &Vec<EventFacts>) -> (r: (usize, usize))
    ensures
        r.0 == count_where(events@, |e: EventFacts| has_ack(e)),
        r.1 == count_where(events@, |e: EventFacts| ok_ack(e)),
{
    let ghost all = events@;
    let ghost fa = |e: EventFacts| has_ack(e);
    let ghost fo = |e: EventFacts| ok_ack(e);
    let n = events.len();
    let mut acked: usize = 0;
    let mut ok: usize = 0;
    let mut i: usize = 0;
    while i < n
        invariant
            n == all.len(),
            all == events@,
            fa == (|e: EventFacts| has_ack(e)),
            fo == (|e: EventFacts| ok_ack(e)),
            i <= n,
            acked == count_where(all.take(i as int), fa),
            ok == count_where(all.take(i as int), fo),
        decreases n - i,
    {
        proof {
            lemma_count_step(all, i as int, fa);
            lemma_count_step(all, i as int, fo);
        }
        let e = &events[i];
        if e.ack_status.is_some() {
            acked = acked + 1;
        }
        if ok_ack_exec(e) {
            ok = ok + 1;
        }
        i = i + 1;
    }
    proof {
        assert(all.take(n as int) =~= all);
    }
    (acked, ok)
}

/// Patch events: all of them, those acknowledged, those acknowledged `ok`,
/// and those that name a revision to fall back to.
pub fn patch_tally(events: &Vec<EventFacts>) -> (r: (usize, usize, usize, usize))
    ensures
        r.0 == count_where(events@, |e: EventFacts| is_patch(e)),
        r.1 == count_where(events@, |e: EventFacts| is_patch(e) && has_ack(e)),
        r.2 == count_where(events@, |e: EventFacts| is_patch(e) && ok_ack(e)),
        r.3 == count_where(events@, |e: EventFacts| is_patch(e) && scoped_patch(e)),
{
    let ghost all = events@;
    let ghost fp = |e: EventFacts| is_patch(e);
    let ghost fa = |e: EventFacts| is_patch(e) && has_ack(e);
    let ghost fo = |e: EventFacts| is_patch(e) && ok_ack(e);
    let ghost fs = |e: EventFacts| is_patch(e) && scoped_patch(e);
    let n = events.len();
    let mut patches: usize = 0;
    let mut acked: usize = 0;
    let mut ok: usize = 0;
    let mut scoped: usize = 0;
    let mut i: usize = 0;
    while i < n
        invariant
            n == all.len(),
            all == events@,
            fp == (|e: EventFacts| is_patch(e)),
            fa == (|e: EventFacts| is_patch(e) && has_ack(e)),
            fo == (|e: EventFacts| is_patch(e) && ok_ack(e)),
            fs == (|e: EventFacts| is_patch(e) && scoped_patch(e)),
            i <= n,
            patches == count_where(all.take(i as int), fp),
            acked == count_where(all.take(i as int), fa),
            ok == count_where(all.take(i as int), fo),
            scoped == count_where(all.take(i as int), fs),
        decreases n - i,
    {
        proof {
            lemma_count_step(all, i as int, fp);
            lemma_count_step(all, i as int, fa);
            lemma_count_step(all, i as int, fo);
            lemma_count_step(all, i as int, fs);
        }
        let e = &events[i];
        if patch_exec(e) {
            patches = patches + 1;
            if e.ack_status.is_some() {
                acked = acked + 1;
            }
            if ok_ack_exec(e) {
                ok = ok + 1;
            }
            match e.patch_fallback_revision {
                Some(r) => {
                    if r > 0 {
                        scoped = scoped + 1;
                    }
                },
                None => {},
            }
        }
        i = i + 1;
    }
    proof {
        assert(all.take(n as int) =~= all);
    }
    (patches, acked, ok, scoped)
}

/// The id of issue number `n`.
fn issue_id(n: u32) -> (s: String)
    ensures
        s@ == issue_id_text(n as nat),
{
    let mut s = String::from_str("issue-");
    proof {
        reveal_strlit("issue-");
    }
    push_padded_decimal(&mut s, n as u64, 3);
    s
}

/// The misaligned events of a prefix grow by at most the next event.
proof fn lemma_misaligned_step(s: Seq<EventFacts>, i: int)
    requires
        0 <= i < s.len(),
    ensures
        misaligned(s.take(i + 1), s) == if is_visual(s[i]) && !is_section_bar(s, s[i].bar) {
            misaligned(s.take(i), s).push(s[i])
        } else {
            misaligned(s.take(i), s)
        },
        misaligned(s.take(i), s).len() <= i,
{
    assert(s.take(i + 1).drop_last() =~= s.take(i));
    lemma_misaligned_len(s.take(i), s);
}

proof fn lemma_misaligned_len(s: Seq<EventFacts>, all: Seq<EventFacts>)
    ensures
        misaligned(s, all).len() <= s.len(),
    decreases s.len(),
{
    if s.len() > 0 {
        lemma_misaligned_len(s.drop_last(), all);
    }
}

/// Checks that visual events fall on section starts. Gives the number of
/// aligned visual events, the number of visual events, and a warning for
/// each visual event off every section start, in event order, numbered
/// from `next_issue` on; `next_issue` moves past them. `None`, and no
/// issue, when the run has no section entry or no visual event.
pub fn transition_review(events: &Vec<EventFacts>, next_issue: &mut u32) -> (r: Option<(usize, usize, Vec<EvaluationIssue>)>)
    requires
        any_where(events@, |e: EventFacts| is_section_enter(e)) ==> {
            &&& *old(next_issue) + misaligned(events@, events@).len() <= u32::MAX
            &&& forall|j: int| 0 <= j < misaligned(events@, events@).len()
                ==> (#[trigger] misaligned(events@, events@)[j]).bar < u32::MAX
        },
    ensures
        r is None <==> (!any_where(events@, |e: EventFacts| is_section_enter(e))
            || !any_where(events@, |e: EventFacts| is_visual(e))),
        r is None ==> *final(next_issue) == *old(next_issue),
        r matches Some((aligned, visual, issues)) ==> {
            let off = misaligned(events@, events@);
            &&& visual == count_where(events@, |e: EventFacts| is_visual(e))
            &&& aligned == count_where(events@, |e: EventFacts| is_visual(e) && is_section_bar(events@, e.bar))
            &&& issues@.len() == off.len()
            &&& forall|j: int| 0 <= j < off.len() ==> is_off_boundary_issue(#[trigger] issues@[j], off[j], (*old(next_issue) + j) as nat)
            &&& *final(next_issue) == *old(next_issue) + off.len()
        },
{
    let ghost all = events@;
    let ghost fs = |e: EventFacts| is_section_enter(e);
    let ghost fv = |e: EventFacts| is_visual(e);
    let ghost fa = |e: EventFacts| is_visual(e) && is_section_bar(all, e.bar);
    let n = events.len();
    let mut sections: usize = 0;
    let mut visual: usize = 0;
    let mut i: usize = 0;
    while i < n
        invariant
            n == all.len(),
            all == events@,
            fs == (|e: EventFacts| is_section_enter(e)),
            fv == (|e: EventFacts| is_visual(e)),
            i <= n,
            sections == count_where(all.take(i as int), fs),
            visual == count_where(all.take(i as int), fv),
        decreases n - i,
    {
        proof {
            lemma_count_step(all, i as int, fs);
            lemma_count_step(all, i as int, fv);
        }
        let e = &events[i];
        if section_enter_exec(e) {
            sections = sections + 1;
        }
        if visual_exec(e) {
            visual = visual + 1;
        }
        i = i + 1;
    }
    proof {
        assert(all.take(n as int) =~= all);
        lemma_any_prefix(all, fs);
        lemma_any_prefix(all, fv);
    }
    if sections == 0 || visual == 0 {
        return None;
    }
    let ghost start = *next_issue;
    let mut aligned: usize = 0;
    let mut issues: Vec<EvaluationIssue> = Vec::new();
    let mut i: usize = 0;
    proof {
        lemma_misaligned_len(all, all);
        assert(all.take(0) =~= Seq::<EventFacts>::empty());
    }
    while i < n
        invariant
            n == all.len(),
            all == events@,
            fa == (|e: EventFacts| is_visual(e) && is_section_bar(all, e.bar)),
            i <= n,
            aligned == count_where(all.take(i as int), fa),
            issues@.len() == misaligned(all.take(i as int), all).len(),
            forall|j: int| 0 <= j < issues@.len() ==> is_off_boundary_issue(#[trigger] issues@[j],
                misaligned(all.take(i as int), all)[j], (start + j) as nat),
            *next_issue == start + issues@.len(),
            start + misaligned(all, all).len() <= u32::MAX,
            forall|j: int| 0 <= j < misaligned(all, all).len() ==> (#[trigger] misaligned(all, all)[j]).bar < u32::MAX,
            misaligned(all, all).len() <= n,
        decreases n - i,
    {
        proof {
            lemma_count_step(all, i as int, fa);
            lemma_misaligned_step(all, i as int);
            lemma_misaligned_prefix(all, i as int + 1);
        }
        let e = &events[i];
        if visual_exec(e) {
            if is_section_bar_exec(events, e.bar) {
                aligned = aligned + 1;
            } else {
                let ghost before = issues@;
                let ghost off_i = misaligned(all.take(i as int), all);
                proof {
                    assert(misaligned(all.take(i + 1), all) == off_i.push(all[i as int]));
                    assert(misaligned(all.take(i + 1), all).len() <= misaligned(all, all).len());
                    assert(misaligned(all.take(i + 1), all)[off_i.len() as int] == all[i as int]);
                    assert(misaligned(all, all)[off_i.len() as int] == all[i as int]);
                }
                let mut message = String::from_str("visual event ");
                message.append(e.event_id.as_str());
                message.append(" at bar ");
                push_decimal(&mut message, e.bar as u64);
                message.append(" is not aligned with a section boundary");
                proof {
                    reveal_strlit("visual event ");
                    reveal_strlit(" at bar ");
                    reveal_strlit(" is not aligned with a section boundary");
                }
                let id = issue_id(*next_issue);
                let issue = EvaluationIssue {
                    issue_id: id,
                    code: String::from_str("visual_transition_off_boundary"),
                    severity: String::from_str("warning"),
                    message,
                    span: Some(EvaluationSpan { from_bar: e.bar, to_bar: e.bar + 1 }),
                    evidence_refs: vec![e.event_id.clone()],
                };
                issues.push(issue);
                *next_issue = *next_issue + 1;
                proof {
                    assert forall|j: int| 0 <= j < issues@.len() implies is_off_boundary_issue(#[trigger] issues@[j],
                        misaligned(all.take(i + 1), all)[j], (start + j) as nat) by {
                        if j < before.len() {
                            assert(issues@[j] == before[j]);
                        }
                    }
                }
            }
        }
        i = i + 1;
    }
    proof {
        assert(all.take(n as int) =~= all);
    }
    Some((aligned, visual, issues))
}

/// The misaligned events of a prefix are a prefix of all misaligned events.
proof fn lemma_misaligned_prefix(s: Seq<EventFacts>, i: int)
    requires
        0 <= i <= s.len(),
    ensures
        misaligned(s.take(i), s).len() <= misaligned(s, s).len(),
        forall|j: int| 0 <= j < misaligned(s.take(i), s).len()
            ==> #[trigger] misaligned(s.take(i), s)[j] == misaligned(s, s)[j],
    decreases s.len() - i,
{
    if i < s.len() {
        lemma_misaligned_step(s, i);
        lemma_misaligned_prefix(s, i + 1);
        let a = misaligned(s.take(i), s);
        let b = misaligned(s.take(i + 1), s);
        assert forall|j: int| 0 <= j < a.len() implies #[trigger] a[j] == misaligned(s, s)[j] by {
            assert(a[j] == b[j]);
        }
    } else {
        assert(s.take(i) =~= s);
    }
}

/// The warning raised when patch safety falls below its threshold, as
/// issue `next_issue`, which moves on by one; its evidence is every patch
/// event, in order.
pub fn patch_safety_issue(events: &Vec<EventFacts>, next_issue: &mut u32) -> (issue: EvaluationIssue)
    requires
        *old(next_issue) < u32::MAX,
    ensures
        issue.issue_id@ == issue_id_text(*old(next_issue) as nat),
        issue.code@ == "patch_safety_low"@,
        issue.severity@ == "warning"@,
        issue.message@ == "patch safety score below threshold"@,
        issue.span is None,
        issue.evidence_refs@.map_values(|s: String| s@) == patch_ids(events@),
        *final(next_issue) == *old(next_issue) + 1,
{
    let ghost all = events@;
    let mut refs: Vec<String> = Vec::new();
    let n = events.len();
    let mut i: usize = 0;
    proof {
        assert(all.take(0) =~= Seq::<EventFacts>::empty());
        assert(refs@.map_values(|s: String| s@) =~= patch_ids(all.take(0)));
    }
    while i < n
        invariant
            n == all.len(),
            all == events@,
            i <= n,
            refs@.map_values(|s: String| s@) == patch_ids(all.take(i as int)),
        decreases n - i,
    {
        let e = &events[i];
        let ghost before = refs@;
        proof {
            assert(all.take(i + 1).drop_last() =~= all.take(i as int));
        }
        if patch_exec(e) {
            refs.push(e.event_id.clone());
            proof {
                assert(refs@.map_values(|s: String| s@) =~= before.map_values(|s: String| s@).push(e.event_id@));
            }
        }
        i = i + 1;
    }
    proof {
        assert(all.take(n as int) =~= all);
    }
    let id = issue_id(*next_issue);
    *next_issue = *next_issue + 1;
    EvaluationIssue {
        issue_id: id,
        code: String::from_str("patch_safety_low"),
        severity: String::from_str("warning"),
        message: String::from_str("patch safety score below threshold"),
        span: None,
        evidence_refs: refs,
    }
}

/// The verdict on a run from its issues: any error asks for revision, any
/// warning makes it usable with a patch, none leaves it clean; each
/// verdict comes with its recommended action.
pub fn summarize(issues: &Vec<EvaluationIssue>) -> (s: EvaluationSummary)
    ensures
        s.verdict@ == verdict_text(severities(issues@)),
        s.recommended_action@ == action_text(verdict_text(severities(issues@))),
{
    let ghost sev = severities(issues@);
    let mut has_error = false;
    let mut has_warning = false;
    let mut i: usize = 0;
    while i < issues.len()
        invariant
            sev == severities(issues@),
            i <= issues@.len(),
            has_error == sev.take(i as int).contains("error"@),
            has_warning == sev.take(i as int).contains("warning"@),
        decreases issues@.len() - i,
    {
        proof {
            let t = sev.take(i as int);
            let t1 = sev.take(i + 1);
            assert(t1 =~= t.push(sev[i as int]));
            assert(sev[i as int] == issues@[i as int].severity@);
            assert forall|x: Seq<char>| t1.contains(x) <==> (t.contains(x) || x == sev[i as int]) by {
                if t1.contains(x) {
                    let k = choose|k: int| 0 <= k < t1.len() && t1[k] == x;
                    if k < i {
                        assert(t[k] == x);
                    }
                }
                if t.contains(x) {
                    let k = choose|k: int| 0 <= k < t.len() && t[k] == x;
                    assert(t1[k] == x);
                }
                if x == sev[i as int] {
                    assert(t1[i as int] == x);
                }
            }
        }
        if str_eq(issues[i].severity.as_str(), "error") {
            has_error = true;
        }
        if str_eq(issues[i].severity.as_str(), "warning") {
            has_warning = true;
        }
        i = i + 1;
    }
    proof {
        assert(sev.take(issues@.len() as int) =~= sev);
        reveal_strlit("needs_revision");
        reveal_strlit("usable_with_patch");
        reveal_strlit("clean");
    }
    if has_error {
        EvaluationSummary {
            verdict: String::from_str("needs_revision"),
            recommended_action: String::from_str("address error-level issues before next run"),
        }
    } else if has_warning {
        EvaluationSummary {
            verdict: String::from_str("usable_with_patch"),
            recommended_action: String::from_str("review warnings and consider targeted patches"),
        }
    } else {
        EvaluationSummary { verdict: String::from_str("clean"), recommended_action: String::from_str("no action needed") }
    }
}

/// Counting a narrower condition gives no more.
pub proof fn lemma_count_mono(s: Seq<EventFacts>, f: spec_fn(EventFacts) -> bool, g: spec_fn(EventFacts) -> bool)
    requires
        forall|e: EventFacts| #[trigger] g(e) ==> f(e),
    ensures
        count_where(s, g) <= count_where(s, f),
    decreases s.len(),
{
    if s.len() > 0 {
        lemma_count_mono(s.drop_last(), f, g);
    }
}

/// The three verdicts are different words.
proof fn lemma_verdicts_distinct()
    ensures
        "usable_with_patch"@ != "needs_revision"@,
        "clean"@ != "needs_revision"@,
        "clean"@ != "usable_with_patch"@,
{
    reveal_strlit("needs_revision");
    reveal_strlit("usable_with_patch");
    reveal_strlit("clean");
    assert("needs_revision"@.len() == 14);
    assert("usable_with_patch"@.len() == 17);
    assert("clean"@.len() == 5);
}

/// Some issue of `issues` has severity `sev`.
pub open spec fn has_severity(issues: Seq<EvaluationIssue>, sev: Seq<char>) -> bool {
    exists|k: int| 0 <= k < issues.len() && #[trigger] issues[k].severity@ == sev
}

/// The verdict is set by the worst issue, wherever it stands in the list:
/// any error gives "needs_revision" and the advice to address errors;
/// otherwise any warning gives "usable_with_patch" and the advice to review
/// warnings; otherwise the run is "clean" and nothing needs doing.
pub proof fn law_verdict_by_worst_issue(issues: Seq<EvaluationIssue>)
    ensures
        has_severity(issues, "error"@) ==> {
            &&& verdict_text(severities(issues)) == "needs_revision"@
            &&& action_text(verdict_text(severities(issues))) == "address error-level issues before next run"@
        },
        !has_severity(issues, "error"@) && has_severity(issues, "warning"@) ==> {
            &&& verdict_text(severities(issues)) == "usable_with_patch"@
            &&& action_text(verdict_text(severities(issues))) == "review warnings and consider targeted patches"@
        },
        !has_severity(issues, "error"@) && !has_severity(issues, "warning"@) ==> {
            &&& verdict_text(severities(issues)) == "clean"@
            &&& action_text(verdict_text(severities(issues))) == "no action needed"@
        },
{
    lemma_verdicts_distinct();
    let sev = severities(issues);
    assert forall|x: Seq<char>| sev.contains(x) <==> has_severity(issues, x) by {
        if sev.contains(x) {
            let k = choose|k: int| 0 <= k < sev.len() && sev[k] == x;
            assert(issues[k].severity@ == x);
        }
        if has_severity(issues, x) {
            let k = choose|k: int| 0 <= k < issues.len() && #[trigger] issues[k].severity@ == x;
            assert(sev[k] == x);
        }
    }
}

/// How severe a verdict is: "needs_revision" above "usable_with_patch"
/// above anything else.
pub open spec fn verdict_rank(v: Seq<char>) -> int {
    if v == "needs_revision"@ {
        2
    } else if v == "usable_with_patch"@ {
        1
    } else {
        0
    }
}

/// Adding issues never makes the verdict milder: the verdict of two lists
/// of issues together is at least as severe as that of either list.
pub proof fn law_verdict_monotone(a: Seq<EvaluationIssue>, b: Seq<EvaluationIssue>)
    ensures
        verdict_rank(verdict_text(severities(a + b))) >= verdict_rank(verdict_text(severities(a))),
        verdict_rank(verdict_text(severities(a + b))) >= verdict_rank(verdict_text(severities(b))),
{
    law_verdict_by_worst_issue(a);
    law_verdict_by_worst_issue(b);
    law_verdict_by_worst_issue(a + b);
    let ab = a + b;
    assert forall|x: Seq<char>| has_severity(a, x) || has_severity(b, x) implies has_severity(ab, x) by {
        if has_severity(a, x) {
            let k = choose|k: int| 0 <= k < a.len() && #[trigger] a[k].severity@ == x;
            assert(ab[k] == a[k]);
        } else {
            let k = choose|k: int| 0 <= k < b.len() && #[trigger] b[k].severity@ == x;
            assert(ab[a.len() + k] == b[k]);
        }
    }
    assert(has_severity(a, "error"@) || has_severity(b, "error"@) ==> has_severity(ab, "error"@));
    assert(has_severity(a, "warning"@) || has_severity(b, "warning"@) ==> has_severity(ab, "warning"@));
    lemma_verdicts_distinct();
}

/// Every ratio behind a score is at most one: section entries with
/// content, visual events on section starts, `ok` acknowledgements among
/// acknowledged events, and acknowledged and scoped patches among patches
/// never outnumber what they are taken from.
pub proof fn law_score_ratios_bounded(events: Seq<EventFacts>)
    ensures
        count_where(events, |e: EventFacts| is_section_enter(e) && bar_has_content(events, e.bar))
            <= count_where(events, |e: EventFacts| is_section_enter(e)),
        count_where(events, |e: EventFacts| is_visual(e) && is_section_bar(events, e.bar))
            <= count_where(events, |e: EventFacts| is_visual(e)),
        count_where(events, |e: EventFacts| ok_ack(e)) <= count_where(events, |e: EventFacts| has_ack(e)),
        count_where(events, |e: EventFacts| is_patch(e) && ok_ack(e))
            <= count_where(events, |e: EventFacts| is_patch(e) && has_ack(e)),
        count_where(events, |e: EventFacts| is_patch(e) && has_ack(e)) <= count_where(events, |e: EventFacts| is_patch(e)),
        count_where(events, |e: EventFacts| is_patch(e) && scoped_patch(e))
            <= count_where(events, |e: EventFacts| is_patch(e)),
{
    lemma_count_mono(events, |e: EventFacts| is_section_enter(e),
        |e: EventFacts| is_section_enter(e) && bar_has_content(events, e.bar));
    lemma_count_mono(events, |e: EventFacts| is_visual(e), |e: EventFacts| is_visual(e) && is_section_bar(events, e.bar));
    lemma_count_mono(events, |e: EventFacts| has_ack(e), |e: EventFacts| ok_ack(e));
    lemma_count_mono(events, |e: EventFacts| is_patch(e) && has_ack(e), |e: EventFacts| is_patch(e) && ok_ack(e));
    lemma_count_mono(events, |e: EventFacts| is_patch(e), |e: EventFacts| is_patch(e) && has_ack(e));
    lemma_count_mono(events, |e: EventFacts| is_patch(e), |e: EventFacts| is_patch(e) && scoped_patch(e));
}

/// Every visual event is either on a section start or raises exactly one
/// off-boundary issue.
pub proof fn law_visual_events_aligned_or_reported(events: Seq<EventFacts>)
    ensures
        count_where(events, |e: EventFacts| is_visual(e) && is_section_bar(events, e.bar)) + misaligned(events, events).len()
            == count_where(events, |e: EventFacts| is_visual(e)),
{
    lemma_visual_partition(events, events);
}

proof fn lemma_visual_partition(s: Seq<EventFacts>, all: Seq<EventFacts>)
    ensures
        count_where(s, |e: EventFacts| is_visual(e) && is_section_bar(all, e.bar)) + misaligned(s, all).len()
            == count_where(s, |e: EventFacts| is_visual(e)),
    decreases s.len(),
{
    if s.len() > 0 {
        lemma_visual_partition(s.drop_last(), all);
    }
}

} // verus!
