//! Compiling a plan: identifiers safe for file and run names, the show
//! structure from the planned sections, and the timeline of audio, visual
//! and lighting entries.
//!
//! The compiler reads of a plan only what is below: planned sections, the
//! locked sections, and of each performance action, visual action and cue
//! set the identifiers and positions the timeline needs.

use std::collections::BTreeMap;
use vstd::prelude::*;
use crate::ir::{Diagnostic, EffectiveWindow, StructureIr, StructureSection, StructureSpan, TimelineEntry, TimelineScheduler, VisualScene};
use crate::patch::{sort_timeline, stable_sort_entries};
use crate::strmap::string_order_lawful;
use crate::text::{chars_of, decimal, join2, push_decimal, str_eq, string_from_utf8};
use vstd::utf8::encode_utf8;

verus! {

/// A character kept as it is in a sanitized name.
pub open spec fn keep_char(c: char) -> bool {
    ||| 'a' <= c <= 'z'
    ||| 'A' <= c <= 'Z'
    ||| '0' <= c <= '9'
    ||| c == '-'
    ||| c == '_'
}

/// A character of a sanitized name: kept, or a hyphen.
pub open spec fn sanitize_char(c: char) -> char {
    if keep_char(c) {
        c
    } else {
        '-'
    }
}

/// `s` with every character other than ASCII letters, digits, `-` and `_`
/// replaced by `-`.
pub open spec fn spec_sanitize(s: Seq<char>) -> Seq<char> {
    s.map_values(|c: char| sanitize_char(c))
}

/// `value` with every character other than ASCII letters, digits, `-` and
/// `_` replaced by `-`.
pub fn sanitize(value: &str) -> (s: String)
    ensures
        s@ == spec_sanitize(value@),
{
    let cs = chars_of(value);
    let mut bytes: Vec<u8> = Vec::new();
    let mut i: usize = 0;
    while i < cs.len()
        invariant
            i <= cs@.len(),
            bytes@.len() == i,
            forall|k: int| 0 <= k < i ==> #[trigger] bytes@[k] == sanitize_char(cs@[k]) as u8,
        decreases cs@.len() - i,
    {
        let c = cs[i];
        let keep = ('a' <= c && c <= 'z') || ('A' <= c && c <= 'Z') || ('0' <= c && c <= '9') || c == '-' || c == '_';
        let b: u8 = if keep { (c as u32) as u8 } else { 45u8 };
        proof {
            if !keep {
                assert(sanitize_char(c) == '-');
                assert(('-' as u32) as u8 == 45u8);
            }
        }
        bytes.push(b);
        i = i + 1;
    }
    let ghost out = spec_sanitize(value@);
    proof {
        assert(vstd::utf8::is_ascii_chars(out));
        vstd::utf8::is_ascii_chars_encode_utf8(out);
        assert(encode_utf8(out) =~= bytes@);
        vstd::utf8::encode_utf8_valid_utf8(out);
        vstd::utf8::encode_utf8_decode_utf8(out);
    }
    match string_from_utf8(bytes.as_slice()) {
        Ok(s) => s,
        Err(_) => {
            proof {
                assert(false);
            }
            String::new()
        },
    }
}

/// A section of the set plan. Energy and density targets travel as the
/// bit patterns of their `f64` values.
#[derive(Debug, Clone, PartialEq)]
pub struct PlanSection {
    pub section_id: String,
    pub length_bars: u32,
    pub energy_target_bits: Option<u64>,
    pub density_target_bits: Option<u64>,
    pub visual_intent: Option<String>,
}

/// Bars a planned section spans: its length, and at least one.
pub open spec fn span_bars(s: PlanSection) -> int {
    if s.length_bars == 0 {
        1
    } else {
        s.length_bars as int
    }
}

/// The bars the first `n` planned sections span together.
pub open spec fn bars_before(secs: Seq<PlanSection>, n: int) -> int
    decreases n,
{
    if n <= 0 {
        0
    } else {
        bars_before(secs, n - 1) + span_bars(secs[n - 1])
    }
}

/// `bars_before` grows with `n`.
pub proof fn lemma_bars_before_mono(secs: Seq<PlanSection>, a: int, b: int)
    requires
        0 <= a <= b,
    ensures
        bars_before(secs, a) <= bars_before(secs, b),
    decreases b - a,
{
    if a < b {
        lemma_bars_before_mono(secs, a, b - 1);
    }
}

/// Whether `locks` holds exactly the entry "locked", saying "true" or
/// "false" by `locked`.
pub open spec fn locks_entry(locks: Map<String, String>, locked: bool) -> bool {
    exists|k: String, v: String| k@ == "locked"@ && v@ == (if locked { "true"@ } else { "false"@ })
        && locks == Map::<String, String>::empty().insert(k, v)
}

/// Whether some string of `v` is `s`.
pub open spec fn names(v: Seq<String>, s: Seq<char>) -> bool {
    exists|i: int| 0 <= i < v.len() && #[trigger] v[i]@ == s
}

/// What `build_structure` gives for `show_id`, the planned sections and the
/// locked ones.
pub open spec fn structure_built(s: StructureIr, show_id: Seq<char>, sections: Seq<PlanSection>, locked: Seq<String>) -> bool {
    &&& s.type_@ == "structure_ir"@
    &&& s.id@ == "structure-"@ + spec_sanitize(show_id)
    &&& s.show_id@ == show_id
    &&& s.transitions@.len() == 0
    &&& s.sections@.len() == sections.len()
    &&& forall|i: int| 0 <= i < s.sections@.len() ==> {
        &&& (#[trigger] s.sections@[i]).section_id@ == sections[i].section_id@
        &&& s.sections@[i].order == i
        &&& s.sections@[i].span.start_bar == 1 + bars_before(sections, i)
        &&& s.sections@[i].span.end_bar == bars_before(sections, i + 1)
        &&& s.sections@[i].targets@ == Map::<String, String>::empty()
        &&& string_order_lawful() ==> locks_entry(s.sections@[i].locks@, names(locked, sections[i].section_id@))
    }
}

/// Lays the planned sections end to end from bar 1, in order: each spans
/// its length in bars (at least one) and is numbered by its position. The
/// structure is named after the sanitized show id; every section is marked
/// "locked" "true" or "false" by whether the constraint set locks it.
pub fn build_structure(show_id: &str, sections: &Vec<PlanSection>, locked_sections: &Vec<String>) -> (s: StructureIr)
    requires
        bars_before(sections@, sections@.len() as int) < u32::MAX,
    ensures
        structure_built(s, show_id@, sections@, locked_sections@),
        s.type_@ == "structure_ir"@,
        s.id@ == "structure-"@ + spec_sanitize(show_id@),
        s.show_id@ == show_id@,
        s.transitions@.len() == 0,
        s.sections@.len() == sections@.len(),
        forall|i: int| 0 <= i < s.sections@.len() ==> {
            &&& (#[trigger] s.sections@[i]).section_id@ == sections@[i].section_id@
            &&& s.sections@[i].order == i
            &&& s.sections@[i].span.start_bar == 1 + bars_before(sections@, i)
            &&& s.sections@[i].span.end_bar == bars_before(sections@, i + 1)
            &&& s.sections@[i].targets@ == Map::<String, String>::empty()
            &&& string_order_lawful() ==> locks_entry(s.sections@[i].locks@, names(locked_sections@, sections@[i].section_id@))
        },
{
    let mut out: Vec<StructureSection> = Vec::new();
    let mut next_bar: u32 = 1;
    let mut i: usize = 0;
    while i < sections.len()
        invariant
            i <= sections@.len(),
            bars_before(sections@, sections@.len() as int) < u32::MAX,
            next_bar == 1 + bars_before(sections@, i as int),
            out@.len() == i,
            forall|k: int| 0 <= k < i ==> {
                &&& (#[trigger] out@[k]).section_id@ == sections@[k].section_id@
                &&& out@[k].order == k
                &&& out@[k].span.start_bar == 1 + bars_before(sections@, k)
                &&& out@[k].span.end_bar == bars_before(sections@, k + 1)
                &&& out@[k].targets@ == Map::<String, String>::empty()
                &&& string_order_lawful() ==> locks_entry(out@[k].locks@, names(locked_sections@, sections@[k].section_id@))
            },
        decreases sections@.len() - i,
    {
        let section = &sections[i];
        proof {
            lemma_bars_before_mono(sections@, i + 1, sections@.len() as int);
        }
        let start_bar = next_bar;
        let end_bar = if section.length_bars == 0 { start_bar } else { start_bar + (section.length_bars - 1) };
        next_bar = end_bar + 1;
        let locked = contains_string(locked_sections, section.section_id.as_str());
        let mut locks: BTreeMap<String, String> = BTreeMap::new();
        let flag = if locked { String::from_str("true") } else { String::from_str("false") };
        let key = String::from_str("locked");
        let ghost kv = (key, flag);
        let _ = locks.insert(key, flag);
        proof {
            if string_order_lawful() {
                assert(locks@ == Map::<String, String>::empty().insert(kv.0, kv.1));
            }
        }
        out.push(StructureSection {
            section_id: section.section_id.clone(),
            order: i,
            span: StructureSpan { start_bar, end_bar },
            targets: BTreeMap::new(),
            locks,
        });
        i = i + 1;
    }
    StructureIr {
        type_: String::from_str("structure_ir"),
        id: join2("structure-", sanitize(show_id).as_str()),
        show_id: String::from_str(show_id),
        sections: out,
        transitions: Vec::new(),
    }
}

/// Whether some string of `v` is `s`.
fn contains_string(v: &Vec<String>, s: &str) -> (b: bool)
    ensures
        b == names(v@, s@),
{
    let mut i: usize = 0;
    while i < v.len()
        invariant
            i <= v@.len(),
            forall|j: int| 0 <= j < i ==> #[trigger] v@[j]@ != s@,
        decreases v@.len() - i,
    {
        if str_eq(v[i].as_str(), s) {
            return true;
        }
        i = i + 1;
    }
    false
}


/// A performance action as the timeline reads it: its id, the section its
/// musical time lies in, and its priority.
#[derive(Debug, Clone, PartialEq, Eq)]
pub struct TimelineAudioAction {
    pub action_id: String,
    pub section: String,
    pub priority: i32,
}

/// A visual action as the timeline reads it: its id and its scene.
#[derive(Debug, Clone, PartialEq, Eq)]
pub struct TimelineVisualAction {
    pub visual_action_id: String,
    pub scene_id: String,
}

/// A cue set as the timeline reads it: its id and the section each of its
/// cues refers to, in order.
#[derive(Debug, Clone, PartialEq, Eq)]
pub struct TimelineCueSet {
    pub cue_set_id: String,
    pub source_refs: Vec<String>,
}

/// Position of the last section named `id`: a section table keyed by name
/// keeps the last of equal names.
pub open spec fn last_section(secs: Seq<StructureSection>, id: Seq<char>) -> Option<int> {
    if exists|i: int| 0 <= i < secs.len() && secs[i].section_id@ == id
        && forall|j: int| i < j < secs.len() ==> #[trigger] secs[j].section_id@ != id {
        Some(choose|i: int| 0 <= i < secs.len() && secs[i].section_id@ == id
            && forall|j: int| i < j < secs.len() ==> #[trigger] secs[j].section_id@ != id)
    } else {
        None
    }
}

/// `s` with every occurrence of "scene_" removed, leftmost first.
pub open spec fn strip_scene(s: Seq<char>) -> Seq<char>
    decreases s.len(),
{
    if s.len() == 0 {
        s
    } else if s.len() >= 6 && s.subrange(0, 6) == "scene_"@ {
        strip_scene(s.subrange(6, s.len() as int))
    } else {
        seq![s[0]] + strip_scene(s.subrange(1, s.len() as int))
    }
}

/// The audio actions that get entries, each with its section: those whose
/// section exists.
pub open spec fn audio_slots(secs: Seq<StructureSection>, actions: Seq<TimelineAudioAction>) -> Seq<(int, int)>
    decreases actions.len(),
{
    if actions.len() == 0 {
        Seq::empty()
    } else {
        let prev = audio_slots(secs, actions.drop_last());
        match last_section(secs, actions.last().section@) {
            Some(j) => prev.push((actions.len() - 1, j)),
            None => prev,
        }
    }
}

/// The visual actions that get entries, each with its section: those whose
/// scene, without "scene_", names a section.
pub open spec fn visual_slots(secs: Seq<StructureSection>, actions: Seq<TimelineVisualAction>) -> Seq<(int, int)>
    decreases actions.len(),
{
    if actions.len() == 0 {
        Seq::empty()
    } else {
        let prev = visual_slots(secs, actions.drop_last());
        match last_section(secs, strip_scene(actions.last().scene_id@)) {
            Some(j) => prev.push((actions.len() - 1, j)),
            None => prev,
        }
    }
}

/// The cues of cue set `c` that get entries, each with its position in the
/// set and its section.
pub open spec fn cue_slots_of(secs: Seq<StructureSection>, refs: Seq<String>, c: int) -> Seq<(int, int, int)>
    decreases refs.len(),
{
    if refs.len() == 0 {
        Seq::empty()
    } else {
        let prev = cue_slots_of(secs, refs.drop_last(), c);
        match last_section(secs, refs.last()@) {
            Some(j) => prev.push((c, refs.len() - 1, j)),
            None => prev,
        }
    }
}

/// The cues of all cue sets that get entries, set by set.
pub open spec fn cue_slots(secs: Seq<StructureSection>, sets: Seq<TimelineCueSet>) -> Seq<(int, int, int)>
    decreases sets.len(),
{
    if sets.len() == 0 {
        Seq::empty()
    } else {
        cue_slots(secs, sets.drop_last()) + cue_slots_of(secs, sets.last().source_refs@, sets.len() - 1)
    }
}

/// The fields every compiled timeline entry shares.
pub open spec fn entry_common(e: TimelineEntry, show: Seq<char>, revision: u64, s: StructureSection) -> bool {
    &&& e.type_@ == "timeline_entry"@
    &&& e.show_id@ == show
    &&& e.revision == revision
    &&& e.effective_window.from_bar == s.span.start_bar
    &&& e.effective_window.to_bar == s.span.end_bar
    &&& e.scheduler.lookahead_ms == 250
    &&& e.guards@ == Map::<String, String>::empty()
}

/// The entry of an audio action in section `s`.
pub open spec fn audio_entry(e: TimelineEntry, show: Seq<char>, revision: u64, a: TimelineAudioAction, s: StructureSection) -> bool {
    &&& entry_common(e, show, revision, s)
    &&& e.id@ == "timeline-"@ + a.action_id@
    &&& e.channel@ == "audio"@
    &&& e.target_ref@ == a.action_id@
    &&& e.scheduler.priority == a.priority
    &&& e.scheduler.conflict_group@ == "audio-"@ + s.section_id@
}

/// The entry of a visual action in section `s`.
pub open spec fn visual_entry(e: TimelineEntry, show: Seq<char>, revision: u64, a: TimelineVisualAction, s: StructureSection) -> bool {
    &&& entry_common(e, show, revision, s)
    &&& e.id@ == "timeline-"@ + a.visual_action_id@
    &&& e.channel@ == "visual"@
    &&& e.target_ref@ == a.visual_action_id@
    &&& e.scheduler.priority == 30
    &&& e.scheduler.conflict_group@ == "visual-"@ + s.section_id@
}

/// The entry of cue `index` of cue set `c` in section `s`.
pub open spec fn cue_entry(e: TimelineEntry, show: Seq<char>, revision: u64, c: TimelineCueSet, index: int, s: StructureSection) -> bool {
    &&& entry_common(e, show, revision, s)
    &&& e.id@ == "timeline-lighting-"@ + c.cue_set_id@ + "-"@ + decimal(index as nat)
    &&& e.channel@ == "lighting"@
    &&& e.target_ref@ == c.cue_set_id@ + ":"@ + decimal(index as nat)
    &&& e.scheduler.priority == 40
    &&& e.scheduler.conflict_group@ == "lighting-"@ + s.section_id@
}

/// Position of the last section named `id`, if any.
fn find_section(secs: &Vec<StructureSection>, id: &[char]) -> (r: Option<usize>)
    ensures
        r matches Some(i) ==> i < secs@.len() && last_section(secs@, id@) == Some(i as int),
        r is None ==> last_section(secs@, id@) is None,
{
    let mut found: Option<usize> = None;
    let mut i: usize = 0;
    while i < secs.len()
        invariant
            i <= secs@.len(),
            found matches Some(k) ==> k < i && secs@[k as int].section_id@ == id@
                && forall|j: int| k < j < i ==> #[trigger] secs@[j].section_id@ != id@,
            found is None ==> forall|j: int| 0 <= j < i ==> #[trigger] secs@[j].section_id@ != id@,
        decreases secs@.len() - i,
    {
        let name = chars_of(secs[i].section_id.as_str());
        if chars_eq(name.as_slice(), id) {
            found = Some(i);
        }
        i = i + 1;
    }
    proof {
        match found {
            Some(k) => {
                let w = choose|w: int| 0 <= w < secs@.len() && secs@[w].section_id@ == id@
                    && forall|j: int| w < j < secs@.len() ==> #[trigger] secs@[j].section_id@ != id@;
                assert(w == k as int) by {
                    if w < k {
                        assert(secs@[k as int].section_id@ != id@);
                    } else if w > k {
                        assert(secs@[w].section_id@ != id@);
                    }
                }
            },
            None => {},
        }
    }
    found
}

/// Whether two character slices are equal.
fn chars_eq(a: &[char], b: &[char]) -> (r: bool)
    ensures
        r == (a@ == b@),
{
    if a.len() != b.len() {
        return false;
    }
    let mut i: usize = 0;
    while i < a.len()
        invariant
            a@.len() == b@.len(),
            i <= a@.len(),
            forall|k: int| 0 <= k < i ==> a@[k] == b@[k],
        decreases a@.len() - i,
    {
        if a[i] != b[i] {
            return false;
        }
        i = i + 1;
    }
    proof {
        assert(a@ =~= b@);
    }
    true
}

/// `s` with every occurrence of "scene_" removed, leftmost first.
fn strip_scene_chars(s: &str) -> (out: Vec<char>)
    ensures
        out@ == strip_scene(s@),
{
    let cs = chars_of(s);
    let n = cs.len();
    let mut out: Vec<char> = Vec::new();
    let mut p: usize = 0;
    proof {
        reveal_strlit("scene_");
        assert(cs@.subrange(0, n as int) =~= cs@);
    }
    while p < n
        invariant
            n == cs@.len(),
            p <= n,
            out@ + strip_scene(cs@.subrange(p as int, n as int)) == strip_scene(cs@),
        decreases n - p,
    {
        let ghost rest = cs@.subrange(p as int, n as int);
        if n - p >= 6 && cs[p] == 's' && cs[p + 1] == 'c' && cs[p + 2] == 'e' && cs[p + 3] == 'n' && cs[p + 4] == 'e'
            && cs[p + 5] == '_' {
            proof {
                reveal_strlit("scene_");
                assert(rest.subrange(0, 6) =~= "scene_"@);
                assert(rest.subrange(6, rest.len() as int) =~= cs@.subrange(p + 6, n as int));
            }
            p = p + 6;
        } else {
            proof {
                reveal_strlit("scene_");
                if rest.len() >= 6 {
                    assert(rest.subrange(0, 6) != "scene_"@) by {
                        if rest.subrange(0, 6) == "scene_"@ {
                            assert(rest.subrange(0, 6)[0] == 's');
                            assert(rest.subrange(0, 6)[1] == 'c');
                            assert(rest.subrange(0, 6)[2] == 'e');
                            assert(rest.subrange(0, 6)[3] == 'n');
                            assert(rest.subrange(0, 6)[4] == 'e');
                            assert(rest.subrange(0, 6)[5] == '_');
                        }
                    }
                }
                assert(rest.subrange(1, rest.len() as int) =~= cs@.subrange(p + 1, n as int));
                assert(out@.push(cs@[p as int]) + strip_scene(cs@.subrange(p + 1, n as int))
                    =~= out@ + (seq![rest[0]] + strip_scene(rest.subrange(1, rest.len() as int))));
            }
            out.push(cs[p]);
            p = p + 1;
        }
    }
    proof {
        assert(out@ + strip_scene(cs@.subrange(n as int, n as int)) =~= out@);
    }
    out
}

/// The timeline entry of a section, without its id, channel, target,
/// priority and conflict group.
fn section_entry(
    show_id: &str,
    revision: u64,
    s: &StructureSection,
    id: String,
    channel: &str,
    target_ref: String,
    priority: i32,
    conflict_group: String,
) -> (e: TimelineEntry)
    ensures
        entry_common(e, show_id@, revision, *s),
        e.id == id,
        e.channel@ == channel@,
        e.target_ref == target_ref,
        e.scheduler.priority == priority,
        e.scheduler.conflict_group == conflict_group,
{
    TimelineEntry {
        type_: String::from_str("timeline_entry"),
        id,
        show_id: String::from_str(show_id),
        revision,
        channel: String::from_str(channel),
        target_ref,
        effective_window: EffectiveWindow { from_bar: s.span.start_bar, to_bar: s.span.end_bar },
        scheduler: TimelineScheduler { lookahead_ms: 250, priority, conflict_group },
        guards: BTreeMap::new(),
    }
}

/// What `build_timeline` gives for a show, revision, structure, and the
/// audio actions, visual actions and cue sets it reads.
pub open spec fn timeline_built(
    t: Seq<TimelineEntry>,
    show_id: Seq<char>,
    revision: u64,
    structure: StructureIr,
    audio: Seq<TimelineAudioAction>,
    visual: Seq<TimelineVisualAction>,
    cue_sets: Seq<TimelineCueSet>,
) -> bool {
    let secs = structure.sections@;
    let a = audio_slots(secs, audio);
    let v = visual_slots(secs, visual);
    let c = cue_slots(secs, cue_sets);
    &&& t.len() == a.len() + v.len() + c.len()
    &&& forall|k: int| 0 <= k < a.len() ==> audio_entry(#[trigger] t[k], show_id, revision, audio[a[k].0], secs[a[k].1])
    &&& forall|k: int| 0 <= k < v.len() ==> visual_entry(#[trigger] t[a.len() + k], show_id, revision, visual[v[k].0], secs[v[k].1])
    &&& forall|k: int| 0 <= k < c.len() ==> cue_entry(#[trigger] t[a.len() + v.len() + k], show_id, revision,
        cue_sets[c[k].0], c[k].1, secs[c[k].2])
}

/// The compiled timeline: an entry for each audio action whose section
/// exists, then for each visual action whose scene (without "scene_")
/// names a section, then for each cue whose source names a section, set by
/// set and cue by cue. Each entry spans its section's bars; where names of
/// sections repeat, the last section of the name counts.
pub fn build_timeline(
    show_id: &str,
    revision: u64,
    structure: &StructureIr,
    audio: &Vec<TimelineAudioAction>,
    visual: &Vec<TimelineVisualAction>,
    cue_sets: &Vec<TimelineCueSet>,
) -> (t: Vec<TimelineEntry>)
    ensures
        timeline_built(t@, show_id@, revision, *structure, audio@, visual@, cue_sets@),
        ({
            let secs = structure.sections@;
            let a = audio_slots(secs, audio@);
            let v = visual_slots(secs, visual@);
            let c = cue_slots(secs, cue_sets@);
            &&& t@.len() == a.len() + v.len() + c.len()
            &&& forall|k: int| 0 <= k < a.len() ==> audio_entry(#[trigger] t@[k], show_id@, revision, audio@[a[k].0], secs[a[k].1])
            &&& forall|k: int| 0 <= k < v.len() ==> visual_entry(#[trigger] t@[a.len() + k], show_id@, revision, visual@[v[k].0], secs[v[k].1])
            &&& forall|k: int| 0 <= k < c.len() ==> cue_entry(#[trigger] t@[a.len() + v.len() + k], show_id@, revision,
                cue_sets@[c[k].0], c[k].1, secs[c[k].2])
        }),
{
    let secs = &structure.sections;
    let mut t: Vec<TimelineEntry> = Vec::new();
    let mut i: usize = 0;
    while i < audio.len()
        invariant
            secs@ == structure.sections@,
            i <= audio@.len(),
            t@.len() == audio_slots(secs@, audio@.subrange(0, i as int)).len(),
            forall|k: int| 0 <= k < t@.len() ==> audio_entry(#[trigger] t@[k], show_id@, revision,
                audio@[audio_slots(secs@, audio@.subrange(0, i as int))[k].0], secs@[audio_slots(secs@, audio@.subrange(0, i as int))[k].1]),
            forall|k: int| 0 <= k < audio_slots(secs@, audio@.subrange(0, i as int)).len()
                ==> 0 <= (#[trigger] audio_slots(secs@, audio@.subrange(0, i as int))[k]).0 < i,
        decreases audio@.len() - i,
    {
        let act = &audio[i];
        let ghost pre = audio@.subrange(0, i as int);
        let ghost post = audio@.subrange(0, i + 1);
        proof {
            assert(post.drop_last() =~= pre);
        }
        let key = chars_of(act.section.as_str());
        match find_section(secs, key.as_slice()) {
            Some(j) => {
                let sec = &secs[j];
                let e = section_entry(
                    show_id,
                    revision,
                    sec,
                    join2("timeline-", act.action_id.as_str()),
                    "audio",
                    act.action_id.clone(),
                    act.priority,
                    join2("audio-", sec.section_id.as_str()),
                );
                t.push(e);
            },
            None => {},
        }
        i = i + 1;
    }
    proof {
        assert(audio@.subrange(0, audio@.len() as int) =~= audio@);
    }
    let ghost alen = t@.len();
    let mut i: usize = 0;
    while i < visual.len()
        invariant
            secs@ == structure.sections@,
            alen == audio_slots(secs@, audio@).len(),
            i <= visual@.len(),
            t@.len() == alen + visual_slots(secs@, visual@.subrange(0, i as int)).len(),
            forall|k: int| 0 <= k < alen ==> audio_entry(#[trigger] t@[k], show_id@, revision,
                audio@[audio_slots(secs@, audio@)[k].0], secs@[audio_slots(secs@, audio@)[k].1]),
            forall|k: int| 0 <= k < visual_slots(secs@, visual@.subrange(0, i as int)).len() ==> visual_entry(#[trigger] t@[alen + k], show_id@, revision,
                visual@[visual_slots(secs@, visual@.subrange(0, i as int))[k].0], secs@[visual_slots(secs@, visual@.subrange(0, i as int))[k].1]),
            forall|k: int| 0 <= k < visual_slots(secs@, visual@.subrange(0, i as int)).len()
                ==> 0 <= (#[trigger] visual_slots(secs@, visual@.subrange(0, i as int))[k]).0 < i,
        decreases visual@.len() - i,
    {
        let act = &visual[i];
        let ghost pre = visual@.subrange(0, i as int);
        let ghost post = visual@.subrange(0, i + 1);
        proof {
            assert(post.drop_last() =~= pre);
        }
        let key = strip_scene_chars(act.scene_id.as_str());
        match find_section(secs, key.as_slice()) {
            Some(j) => {
                let sec = &secs[j];
                let e = section_entry(
                    show_id,
                    revision,
                    sec,
                    join2("timeline-", act.visual_action_id.as_str()),
                    "visual",
                    act.visual_action_id.clone(),
                    30,
                    join2("visual-", sec.section_id.as_str()),
                );
                t.push(e);
            },
            None => {},
        }
        i = i + 1;
    }
    proof {
        assert(visual@.subrange(0, visual@.len() as int) =~= visual@);
    }
    let ghost vlen = t@.len();
    let mut c: usize = 0;
    while c < cue_sets.len()
        invariant
            secs@ == structure.sections@,
            alen == audio_slots(secs@, audio@).len(),
            vlen == alen + visual_slots(secs@, visual@).len(),
            c <= cue_sets@.len(),
            t@.len() == vlen + cue_slots(secs@, cue_sets@.subrange(0, c as int)).len(),
            forall|k: int| 0 <= k < alen ==> audio_entry(#[trigger] t@[k], show_id@, revision,
                audio@[audio_slots(secs@, audio@)[k].0], secs@[audio_slots(secs@, audio@)[k].1]),
            forall|k: int| 0 <= k < visual_slots(secs@, visual@).len() ==> visual_entry(#[trigger] t@[alen + k], show_id@, revision,
                visual@[visual_slots(secs@, visual@)[k].0], secs@[visual_slots(secs@, visual@)[k].1]),
            forall|k: int| 0 <= k < cue_slots(secs@, cue_sets@.subrange(0, c as int)).len() ==> cue_entry(#[trigger] t@[vlen + k], show_id@, revision,
                cue_sets@[cue_slots(secs@, cue_sets@.subrange(0, c as int))[k].0], cue_slots(secs@, cue_sets@.subrange(0, c as int))[k].1,
                secs@[cue_slots(secs@, cue_sets@.subrange(0, c as int))[k].2]),
        decreases cue_sets@.len() - c,
    {
        let set = &cue_sets[c];
        let ghost before = t@.len();
        let ghost pre = cue_sets@.subrange(0, c as int);
        proof {
            assert(cue_sets@.subrange(0, c + 1).drop_last() =~= pre);
            assert(cue_sets@.subrange(0, c + 1).last() == *set);
        }
        let mut r: usize = 0;
        while r < set.source_refs.len()
            invariant
                secs@ == structure.sections@,
                c < cue_sets@.len(),
                *set == cue_sets@[c as int],
                r <= set.source_refs@.len(),
                alen == audio_slots(secs@, audio@).len(),
                vlen == alen + visual_slots(secs@, visual@).len(),
                before == vlen + cue_slots(secs@, cue_sets@.subrange(0, c as int)).len(),
                t@.len() == before + cue_slots_of(secs@, set.source_refs@.subrange(0, r as int), c as int).len(),
                forall|k: int| 0 <= k < alen ==> audio_entry(#[trigger] t@[k], show_id@, revision,
                    audio@[audio_slots(secs@, audio@)[k].0], secs@[audio_slots(secs@, audio@)[k].1]),
                forall|k: int| 0 <= k < visual_slots(secs@, visual@).len() ==> visual_entry(#[trigger] t@[alen + k], show_id@, revision,
                    visual@[visual_slots(secs@, visual@)[k].0], secs@[visual_slots(secs@, visual@)[k].1]),
                forall|k: int| 0 <= k < cue_slots(secs@, cue_sets@.subrange(0, c as int)).len() ==> cue_entry(#[trigger] t@[vlen + k], show_id@, revision,
                    cue_sets@[cue_slots(secs@, cue_sets@.subrange(0, c as int))[k].0], cue_slots(secs@, cue_sets@.subrange(0, c as int))[k].1,
                    secs@[cue_slots(secs@, cue_sets@.subrange(0, c as int))[k].2]),
                forall|k: int| 0 <= k < cue_slots_of(secs@, set.source_refs@.subrange(0, r as int), c as int).len() ==> cue_entry(
                    #[trigger] t@[before + k], show_id@, revision, *set,
                    cue_slots_of(secs@, set.source_refs@.subrange(0, r as int), c as int)[k].1,
                    secs@[cue_slots_of(secs@, set.source_refs@.subrange(0, r as int), c as int)[k].2]),
            decreases set.source_refs@.len() - r,
        {
            proof {
                assert(set.source_refs@.subrange(0, r + 1).drop_last() =~= set.source_refs@.subrange(0, r as int));
            }
            let key = chars_of(set.source_refs[r].as_str());
            match find_section(secs, key.as_slice()) {
                Some(j) => {
                    let sec = &secs[j];
                    let mut id = join2("timeline-lighting-", set.cue_set_id.as_str());
                    id.append("-");
                    push_decimal(&mut id, r as u64);
                    let mut target = join2(set.cue_set_id.as_str(), ":");
                    push_decimal(&mut target, r as u64);
                    let e = section_entry(show_id, revision, sec, id, "lighting", target, 40, join2("lighting-", sec.section_id.as_str()));
                    t.push(e);
                },
                None => {},
            }
            r = r + 1;
        }
        proof {
            assert(set.source_refs@.subrange(0, set.source_refs@.len() as int) =~= set.source_refs@);
            let pre_slots = cue_slots(secs@, pre);
            let new_slots = cue_slots_of(secs@, set.source_refs@, c as int);
            lemma_cue_slots_of_set(secs@, set.source_refs@, c as int);
            assert(cue_slots(secs@, cue_sets@.subrange(0, c + 1)) == pre_slots + new_slots);
            let all = cue_slots(secs@, cue_sets@.subrange(0, c + 1));
            assert forall|k: int| 0 <= k < all.len() implies cue_entry(#[trigger] t@[vlen + k], show_id@, revision,
                cue_sets@[all[k].0], all[k].1, secs@[all[k].2]) by {
                if k >= pre_slots.len() {
                    let q = k - pre_slots.len();
                    assert(all[k] == new_slots[q]);
                    assert(t@[vlen + k] == t@[before + q]);
                }
            }
        }
        c = c + 1;
    }
    proof {
        assert(cue_sets@.subrange(0, cue_sets@.len() as int) =~= cue_sets@);
    }
    t
}


/// Every slot of a cue set's cues belongs to that set.
pub proof fn lemma_cue_slots_of_set(secs: Seq<StructureSection>, refs: Seq<String>, c: int)
    ensures
        forall|k: int| 0 <= k < cue_slots_of(secs, refs, c).len() ==> (#[trigger] cue_slots_of(secs, refs, c)[k]).0 == c,
    decreases refs.len(),
{
    if refs.len() > 0 {
        lemma_cue_slots_of_set(secs, refs.drop_last(), c);
        let prev = cue_slots_of(secs, refs.drop_last(), c);
        assert forall|k: int| 0 <= k < cue_slots_of(secs, refs, c).len() implies (#[trigger] cue_slots_of(secs, refs, c)[k]).0 == c by {
            if k < prev.len() {
                assert(cue_slots_of(secs, refs, c)[k] == prev[k]);
            }
        }
    }
}


/// An audio layer of the plan as the compiler reads it.
#[derive(Debug, Clone, PartialEq, Eq)]
pub struct PlanLayer {
    pub layer_id: String,
    pub role: String,
    pub asset_candidates: Vec<String>,
    pub section_refs: Vec<String>,
    pub quantize: String,
    pub output_backend_hint: Option<String>,
    pub route_group_ref: Option<String>,
}

/// A performance action the compiler plans: where and what a layer plays
/// in a section. Its musical time is the start of bar `bar` of phrase
/// `phrase` in `section`; the beat positions and tempo of that time are
/// filled in outside the library.
#[derive(Debug, Clone, PartialEq, Eq)]
pub struct PlannedAction {
    pub action_id: String,
    pub layer_id: String,
    pub op: String,
    pub target_asset_id: Option<String>,
    pub bar: u32,
    pub phrase: u32,
    pub section: String,
    pub duration_beats: u32,
    pub quantize: String,
    pub priority: i32,
    pub rollback_token: String,
    pub route_group: String,
    pub output_backend_hint: Option<String>,
    pub route_set_ref: Option<String>,
}

/// The sections a layer enters: those it names, or every section when it
/// names none.
pub open spec fn layer_targets(secs: Seq<StructureSection>, l: PlanLayer) -> Seq<Seq<char>> {
    if l.section_refs@.len() == 0 {
        secs.map_values(|s: StructureSection| s.section_id@)
    } else {
        l.section_refs@.map_values(|r: String| r@)
    }
}

/// Of `ids`, those that name a section, each with that section, for layer `l`.
pub open spec fn id_slots(secs: Seq<StructureSection>, ids: Seq<Seq<char>>, l: int) -> Seq<(int, int)>
    decreases ids.len(),
{
    if ids.len() == 0 {
        Seq::empty()
    } else {
        let prev = id_slots(secs, ids.drop_last(), l);
        match last_section(secs, ids.last()) {
            Some(j) => prev.push((l, j)),
            None => prev,
        }
    }
}

/// Every planned action as a layer and a section, layer by layer.
pub open spec fn performance_slots(secs: Seq<StructureSection>, layers: Seq<PlanLayer>) -> Seq<(int, int)>
    decreases layers.len(),
{
    if layers.len() == 0 {
        Seq::empty()
    } else {
        performance_slots(secs, layers.drop_last()) + id_slots(secs, layer_targets(secs, layers.last()), layers.len() - 1)
    }
}

/// Sections the compiler can time: each ends no earlier than it starts,
/// its length in beats fits a `u32`, and its number fits one too.
pub open spec fn timeable(secs: Seq<StructureSection>) -> bool {
    forall|j: int| 0 <= j < secs.len() ==> {
        &&& (#[trigger] secs[j]).span.start_bar <= secs[j].span.end_bar
        &&& (secs[j].span.end_bar - secs[j].span.start_bar + 1) * 4 <= u32::MAX
        &&& secs[j].order < u32::MAX
    }
}

/// Whether `a` is the action layer `l` plays in section `s`.
pub open spec fn planned_action(a: PlannedAction, l: PlanLayer, s: StructureSection) -> bool {
    &&& a.action_id@ == "audio-"@ + s.section_id@ + "-"@ + l.layer_id@
    &&& a.layer_id@ == l.layer_id@
    &&& a.op@ == "launch_asset"@
    &&& (if l.asset_candidates@.len() > 0 {
        a.target_asset_id matches Some(t) && t@ == l.asset_candidates@[0]@
    } else {
        a.target_asset_id is None
    })
    &&& a.bar == s.span.start_bar
    &&& a.phrase == s.order + 1
    &&& a.section@ == s.section_id@
    &&& a.duration_beats == (s.span.end_bar - s.span.start_bar + 1) * 4
    &&& a.quantize@ == l.quantize@
    &&& a.priority == (if l.role@ == "rhythm"@ { 10int } else { 20int })
    &&& a.rollback_token@ == "rollback-"@ + s.section_id@ + "-"@ + l.layer_id@
    &&& a.route_group@ == (match l.route_group_ref { Some(g) => g@, None => "stereo-main"@ })
    &&& a.output_backend_hint == l.output_backend_hint
    &&& a.route_set_ref == l.route_group_ref
}

/// The action layer `l` plays in section `s`.
fn plan_action(l: &PlanLayer, s: &StructureSection) -> (a: PlannedAction)
    requires
        s.span.start_bar <= s.span.end_bar,
        (s.span.end_bar - s.span.start_bar + 1) * 4 <= u32::MAX,
        s.order < u32::MAX,
    ensures
        planned_action(a, *l, *s),
{
    let mut action_id = join2("audio-", s.section_id.as_str());
    action_id.append("-");
    action_id.append(l.layer_id.as_str());
    let mut rollback_token = join2("rollback-", s.section_id.as_str());
    rollback_token.append("-");
    rollback_token.append(l.layer_id.as_str());
    let target_asset_id = if l.asset_candidates.len() > 0 { Some(l.asset_candidates[0].clone()) } else { None };
    let route_group = match &l.route_group_ref {
        Some(g) => g.clone(),
        None => String::from_str("stereo-main"),
    };
    let priority: i32 = if str_eq(l.role.as_str(), "rhythm") { 10 } else { 20 };
    let output_backend_hint = match &l.output_backend_hint {
        Some(h) => Some(h.clone()),
        None => None,
    };
    let route_set_ref = match &l.route_group_ref {
        Some(g) => Some(g.clone()),
        None => None,
    };
    PlannedAction {
        action_id,
        layer_id: l.layer_id.clone(),
        op: String::from_str("launch_asset"),
        target_asset_id,
        bar: s.span.start_bar,
        phrase: (s.order + 1) as u32,
        section: s.section_id.clone(),
        duration_beats: (s.span.end_bar - s.span.start_bar + 1) * 4,
        quantize: l.quantize.clone(),
        priority,
        rollback_token,
        route_group,
        output_backend_hint,
        route_set_ref,
    }
}

/// The names of the sections a layer enters.
fn targets_of(secs: &Vec<StructureSection>, l: &PlanLayer) -> (ids: Vec<Vec<char>>)
    ensures
        ids@.map_values(|v: Vec<char>| v@) == layer_targets(secs@, *l),
{
    let mut ids: Vec<Vec<char>> = Vec::new();
    if l.section_refs.len() == 0 {
        let mut i: usize = 0;
        while i < secs.len()
            invariant
                l.section_refs@.len() == 0,
                i <= secs@.len(),
                ids@.map_values(|v: Vec<char>| v@) == secs@.subrange(0, i as int).map_values(|s: StructureSection| s.section_id@),
            decreases secs@.len() - i,
        {
            let ghost prev = ids@;
            ids.push(chars_of(secs[i].section_id.as_str()));
            proof {
                assert(ids@.map_values(|v: Vec<char>| v@) =~= prev.map_values(|v: Vec<char>| v@).push(secs@[i as int].section_id@));
                assert(secs@.subrange(0, i + 1).map_values(|s: StructureSection| s.section_id@)
                    =~= secs@.subrange(0, i as int).map_values(|s: StructureSection| s.section_id@).push(secs@[i as int].section_id@));
            }
            i = i + 1;
        }
        proof {
            assert(secs@.subrange(0, secs@.len() as int) =~= secs@);
        }
    } else {
        let mut i: usize = 0;
        while i < l.section_refs.len()
            invariant
                l.section_refs@.len() > 0,
                i <= l.section_refs@.len(),
                ids@.map_values(|v: Vec<char>| v@) == l.section_refs@.subrange(0, i as int).map_values(|r: String| r@),
            decreases l.section_refs@.len() - i,
        {
            let ghost prev = ids@;
            ids.push(chars_of(l.section_refs[i].as_str()));
            proof {
                assert(ids@.map_values(|v: Vec<char>| v@) =~= prev.map_values(|v: Vec<char>| v@).push(l.section_refs@[i as int]@));
                assert(l.section_refs@.subrange(0, i + 1).map_values(|r: String| r@)
                    =~= l.section_refs@.subrange(0, i as int).map_values(|r: String| r@).push(l.section_refs@[i as int]@));
            }
            i = i + 1;
        }
        proof {
            assert(l.section_refs@.subrange(0, l.section_refs@.len() as int) =~= l.section_refs@);
        }
    }
    ids
}

/// What `build_performance` gives for the sections and layers.
pub open spec fn performance_built(actions: Seq<PlannedAction>, secs: Seq<StructureSection>, layers: Seq<PlanLayer>) -> bool {
    let slots = performance_slots(secs, layers);
    &&& actions.len() == slots.len()
    &&& forall|k: int| 0 <= k < slots.len() ==> planned_action(#[trigger] actions[k], layers[slots[k].0], secs[slots[k].1])
}

/// The performance plan: each layer, in order, enters each of its target
/// sections that exists (where names repeat, the last section of the name),
/// launching its first asset candidate from the section's first bar for
/// the section's length; rhythm layers get priority 10, others 20; the
/// route group defaults to "stereo-main".
pub fn build_performance(structure: &StructureIr, layers: &Vec<PlanLayer>) -> (actions: Vec<PlannedAction>)
    requires
        timeable(structure.sections@),
    ensures
        performance_built(actions@, structure.sections@, layers@),
        ({
            let secs = structure.sections@;
            let slots = performance_slots(secs, layers@);
            &&& actions@.len() == slots.len()
            &&& forall|k: int| 0 <= k < slots.len() ==> planned_action(#[trigger] actions@[k], layers@[slots[k].0], secs[slots[k].1])
        }),
{
    let secs = &structure.sections;
    let mut actions: Vec<PlannedAction> = Vec::new();
    let mut li: usize = 0;
    while li < layers.len()
        invariant
            secs@ == structure.sections@,
            timeable(secs@),
            li <= layers@.len(),
            actions@.len() == performance_slots(secs@, layers@.subrange(0, li as int)).len(),
            forall|k: int| 0 <= k < actions@.len() ==> planned_action(#[trigger] actions@[k],
                layers@[performance_slots(secs@, layers@.subrange(0, li as int))[k].0],
                secs@[performance_slots(secs@, layers@.subrange(0, li as int))[k].1]),
        decreases layers@.len() - li,
    {
        let layer = &layers[li];
        let ids = targets_of(secs, layer);
        let ghost before = actions@.len();
        let ghost pre = layers@.subrange(0, li as int);
        let ghost tv = ids@.map_values(|v: Vec<char>| v@);
        let mut k: usize = 0;
        while k < ids.len()
            invariant
                secs@ == structure.sections@,
                timeable(secs@),
                li < layers@.len(),
                *layer == layers@[li as int],
                tv == ids@.map_values(|v: Vec<char>| v@),
                k <= ids@.len(),
                before == performance_slots(secs@, pre).len(),
                pre == layers@.subrange(0, li as int),
                actions@.len() == before + id_slots(secs@, tv.subrange(0, k as int), li as int).len(),
                forall|q: int| 0 <= q < before ==> planned_action(#[trigger] actions@[q],
                    layers@[performance_slots(secs@, pre)[q].0], secs@[performance_slots(secs@, pre)[q].1]),
                forall|q: int| 0 <= q < id_slots(secs@, tv.subrange(0, k as int), li as int).len() ==> planned_action(
                    #[trigger] actions@[before + q], *layer, secs@[id_slots(secs@, tv.subrange(0, k as int), li as int)[q].1]),
            decreases ids@.len() - k,
        {
            proof {
                assert(tv.subrange(0, k + 1).drop_last() =~= tv.subrange(0, k as int));
                assert(tv.subrange(0, k + 1).last() == ids@[k as int]@);
            }
            match find_section(secs, ids[k].as_slice()) {
                Some(j) => {
                    let a = plan_action(layer, &secs[j]);
                    actions.push(a);
                },
                None => {},
            }
            k = k + 1;
        }
        proof {
            assert(tv.subrange(0, tv.len() as int) =~= tv);
            let pre_slots = performance_slots(secs@, pre);
            let new_slots = id_slots(secs@, tv, li as int);
            lemma_id_slots_layer(secs@, tv, li as int);
            assert(layers@.subrange(0, li + 1).drop_last() =~= pre);
            assert(layers@.subrange(0, li + 1).last() == *layer);
            assert(performance_slots(secs@, layers@.subrange(0, li + 1)) == pre_slots + new_slots);
            let all = pre_slots + new_slots;
            assert forall|q: int| 0 <= q < all.len() implies planned_action(#[trigger] actions@[q],
                layers@[all[q].0], secs@[all[q].1]) by {
                if q >= pre_slots.len() {
                    assert(all[q] == new_slots[q - pre_slots.len()]);
                    assert(actions@[q] == actions@[before + (q - before)]);
                }
            }
        }
        li = li + 1;
    }
    proof {
        assert(layers@.subrange(0, layers@.len() as int) =~= layers@);
    }
    actions
}

/// Every slot of a layer's targets belongs to that layer.
pub proof fn lemma_id_slots_layer(secs: Seq<StructureSection>, ids: Seq<Seq<char>>, l: int)
    ensures
        forall|k: int| 0 <= k < id_slots(secs, ids, l).len() ==> (#[trigger] id_slots(secs, ids, l)[k]).0 == l,
    decreases ids.len(),
{
    if ids.len() > 0 {
        lemma_id_slots_layer(secs, ids.drop_last(), l);
        let prev = id_slots(secs, ids.drop_last(), l);
        assert forall|k: int| 0 <= k < id_slots(secs, ids, l).len() implies (#[trigger] id_slots(secs, ids, l)[k]).0 == l by {
            if k < prev.len() {
                assert(id_slots(secs, ids, l)[k] == prev[k]);
            }
        }
    }
}


/// A visual action the compiler plans for a section: the scene it shows,
/// for the section's length. Its GPU cost hint is added outside the
/// library.
#[derive(Debug, Clone, PartialEq)]
pub struct PlannedVisual {
    pub visual_action_id: String,
    pub scene_id: String,
    pub program_ref: String,
    pub uniform_set: BTreeMap<String, String>,
    pub camera_state: BTreeMap<String, String>,
    pub output_backend: Option<String>,
    pub view_group_ref: Option<String>,
    pub display_topology_ref: Option<String>,
    pub duration_beats: u32,
    pub blend_mode: Option<String>,
    pub fallback_scene_id: Option<String>,
}

/// Position of the first planned section named `id`.
pub open spec fn first_plan_section(plan: Seq<PlanSection>, id: Seq<char>) -> Option<int> {
    if exists|i: int| 0 <= i < plan.len() && plan[i].section_id@ == id && forall|j: int| 0 <= j < i ==> #[trigger] plan[j].section_id@ != id {
        Some(choose|i: int| 0 <= i < plan.len() && plan[i].section_id@ == id && forall|j: int| 0 <= j < i ==> #[trigger] plan[j].section_id@ != id)
    } else {
        None
    }
}

/// Position of the last scene named `id`: a scene table keyed by name
/// keeps the last of equal names.
pub open spec fn last_scene(scenes: Seq<crate::ir::VisualScene>, id: Seq<char>) -> Option<int> {
    if exists|i: int| 0 <= i < scenes.len() && scenes[i].scene_id@ == id && forall|j: int| i < j < scenes.len() ==> #[trigger] scenes[j].scene_id@ != id {
        Some(choose|i: int| 0 <= i < scenes.len() && scenes[i].scene_id@ == id && forall|j: int| i < j < scenes.len() ==> #[trigger] scenes[j].scene_id@ != id)
    } else {
        None
    }
}

/// The scene a planned section shows: the scene it asks for, if there is
/// one of that name, else the first scene, if there is any.
pub open spec fn scene_for(p: PlanSection, scenes: Seq<crate::ir::VisualScene>) -> Option<int> {
    let asked = match p.visual_intent {
        Some(v) => last_scene(scenes, v@),
        None => None,
    };
    match asked {
        Some(i) => Some(i),
        None => if scenes.len() > 0 { Some(0) } else { None },
    }
}

/// The sections that get a visual action, each with its scene: those that
/// are planned and have a scene to show.
pub open spec fn visual_plan_slots(secs: Seq<StructureSection>, plan: Seq<PlanSection>, scenes: Seq<crate::ir::VisualScene>) -> Seq<(int, int)>
    decreases secs.len(),
{
    if secs.len() == 0 {
        Seq::empty()
    } else {
        let prev = visual_plan_slots(secs.drop_last(), plan, scenes);
        match first_plan_section(plan, secs.last().section_id@) {
            Some(p) => match scene_for(plan[p], scenes) {
                Some(c) => prev.push((secs.len() - 1, c)),
                None => prev,
            },
            None => prev,
        }
    }
}

/// Whether `v` shows scene `c` in section `s`, with `scenes[0]` as fallback.
pub open spec fn planned_visual(v: PlannedVisual, s: StructureSection, c: crate::ir::VisualScene, scenes: Seq<crate::ir::VisualScene>) -> bool {
    &&& v.visual_action_id@ == "visual-"@ + s.section_id@
    &&& v.scene_id@ == c.scene_id@
    &&& v.program_ref@ == c.program_ref@
    &&& v.uniform_set@ == c.uniform_defaults@
    &&& v.camera_state@ == Map::<String, String>::empty()
    &&& v.output_backend == c.output_backend
    &&& v.view_group_ref == c.view_group_ref
    &&& v.display_topology_ref == c.display_topology_ref
    &&& v.duration_beats == (s.span.end_bar - s.span.start_bar + 1) * 4
    &&& (v.blend_mode matches Some(b) && b@ == "replace"@)
    &&& (if scenes.len() > 0 { v.fallback_scene_id matches Some(f) && f@ == scenes[0].scene_id@ } else { v.fallback_scene_id is None })
}

/// A copy of an optional string.
fn copy_opt(o: &Option<String>) -> (c: Option<String>)
    ensures
        c == *o,
{
    match o {
        Some(x) => Some(x.clone()),
        None => None,
    }
}

/// Position of the first planned section named `id`, if any.
fn find_plan_section(plan: &Vec<PlanSection>, id: &str) -> (r: Option<usize>)
    ensures
        r matches Some(i) ==> i < plan@.len() && first_plan_section(plan@, id@) == Some(i as int),
        r is None ==> first_plan_section(plan@, id@) is None,
{
    let mut i: usize = 0;
    while i < plan.len()
        invariant
            i <= plan@.len(),
            forall|j: int| 0 <= j < i ==> #[trigger] plan@[j].section_id@ != id@,
        decreases plan@.len() - i,
    {
        if str_eq(plan[i].section_id.as_str(), id) {
            proof {
                let w = choose|w: int| 0 <= w < plan@.len() && plan@[w].section_id@ == id@
                    && forall|j: int| 0 <= j < w ==> #[trigger] plan@[j].section_id@ != id@;
                assert(w == i as int) by {
                    if w > i {
                        assert(plan@[i as int].section_id@ != id@);
                    }
                }
            }
            return Some(i);
        }
        i = i + 1;
    }
    None
}

/// The scene a planned section shows, if any.
fn choose_scene(p: &PlanSection, scenes: &Vec<crate::ir::VisualScene>) -> (r: Option<usize>)
    ensures
        r matches Some(c) ==> c < scenes@.len() && scene_for(*p, scenes@) == Some(c as int),
        r is None ==> scene_for(*p, scenes@) is None,
{
    let mut asked: Option<usize> = None;
    match &p.visual_intent {
        Some(v) => {
            let mut i: usize = 0;
            while i < scenes.len()
                invariant
                    i <= scenes@.len(),
                    asked matches Some(k) ==> k < i && scenes@[k as int].scene_id@ == v@
                        && forall|j: int| k < j < i ==> #[trigger] scenes@[j].scene_id@ != v@,
                    asked is None ==> forall|j: int| 0 <= j < i ==> #[trigger] scenes@[j].scene_id@ != v@,
                decreases scenes@.len() - i,
            {
                if str_eq(scenes[i].scene_id.as_str(), v.as_str()) {
                    asked = Some(i);
                }
                i = i + 1;
            }
            proof {
                match asked {
                    Some(k) => {
                        let w = choose|w: int| 0 <= w < scenes@.len() && scenes@[w].scene_id@ == v@
                            && forall|j: int| w < j < scenes@.len() ==> #[trigger] scenes@[j].scene_id@ != v@;
                        assert(w == k as int) by {
                            if w < k {
                                assert(scenes@[k as int].scene_id@ != v@);
                            } else if w > k {
                                assert(scenes@[w].scene_id@ != v@);
                            }
                        }
                    },
                    None => {},
                }
            }
        },
        None => {},
    }
    match asked {
        Some(k) => Some(k),
        None => if scenes.len() > 0 { Some(0) } else { None },
    }
}

/// What `build_visual` gives for the sections, the planned sections and
/// the scenes.
pub open spec fn visual_built(
    vs: Seq<PlannedVisual>,
    secs: Seq<StructureSection>,
    plan: Seq<PlanSection>,
    scenes: Seq<crate::ir::VisualScene>,
) -> bool {
    let slots = visual_plan_slots(secs, plan, scenes);
    &&& vs.len() == slots.len()
    &&& forall|k: int| 0 <= k < slots.len() ==> planned_visual(#[trigger] vs[k], secs[slots[k].0], scenes[slots[k].1], scenes)
}

/// The visual plan: for each section of the structure, in order, that is
/// planned, the scene its plan asks for (where names repeat, the last scene
/// of the name), else the first scene, shown for the section's length with
/// "replace" blending and the first scene as fallback.
pub fn build_visual(
    structure: &StructureIr,
    plan_sections: &Vec<PlanSection>,
    scenes: &Vec<crate::ir::VisualScene>,
) -> (vs: Vec<PlannedVisual>)
    requires
        timeable(structure.sections@),
    ensures
        visual_built(vs@, structure.sections@, plan_sections@, scenes@),
        ({
            let secs = structure.sections@;
            let slots = visual_plan_slots(secs, plan_sections@, scenes@);
            &&& vs@.len() == slots.len()
            &&& forall|k: int| 0 <= k < slots.len() ==> planned_visual(#[trigger] vs@[k], secs[slots[k].0], scenes@[slots[k].1], scenes@)
        }),
{
    let secs = &structure.sections;
    let fallback: Option<String> = if scenes.len() > 0 { Some(scenes[0].scene_id.clone()) } else { None };
    let mut vs: Vec<PlannedVisual> = Vec::new();
    let mut i: usize = 0;
    while i < secs.len()
        invariant
            secs@ == structure.sections@,
            timeable(secs@),
            i <= secs@.len(),
            scenes@.len() > 0 ==> (fallback matches Some(f) && f@ == scenes@[0].scene_id@),
            scenes@.len() == 0 ==> fallback is None,
            vs@.len() == visual_plan_slots(secs@.subrange(0, i as int), plan_sections@, scenes@).len(),
            forall|k: int| 0 <= k < vs@.len() ==> planned_visual(#[trigger] vs@[k],
                secs@[visual_plan_slots(secs@.subrange(0, i as int), plan_sections@, scenes@)[k].0],
                scenes@[visual_plan_slots(secs@.subrange(0, i as int), plan_sections@, scenes@)[k].1], scenes@),
            forall|k: int| 0 <= k < visual_plan_slots(secs@.subrange(0, i as int), plan_sections@, scenes@).len()
                ==> (#[trigger] visual_plan_slots(secs@.subrange(0, i as int), plan_sections@, scenes@)[k]).0 < i,
        decreases secs@.len() - i,
    {
        let s = &secs[i];
        proof {
            assert(secs@.subrange(0, i + 1).drop_last() =~= secs@.subrange(0, i as int));
            assert(secs@.subrange(0, i + 1).last() == secs@[i as int]);
        }
        match find_plan_section(plan_sections, s.section_id.as_str()) {
            Some(p) => match choose_scene(&plan_sections[p], scenes) {
                Some(c) => {
                    let scene = &scenes[c];
                    let v = PlannedVisual {
                        visual_action_id: join2("visual-", s.section_id.as_str()),
                        scene_id: scene.scene_id.clone(),
                        program_ref: scene.program_ref.clone(),
                        uniform_set: scene.uniform_defaults.clone(),
                        camera_state: BTreeMap::new(),
                        output_backend: copy_opt(&scene.output_backend),
                        view_group_ref: copy_opt(&scene.view_group_ref),
                        display_topology_ref: copy_opt(&scene.display_topology_ref),
                        duration_beats: (s.span.end_bar - s.span.start_bar + 1) * 4,
                        blend_mode: Some(String::from_str("replace")),
                        fallback_scene_id: copy_opt(&fallback),
                    };
                    vs.push(v);
                },
                None => {},
            },
            None => {},
        }
        i = i + 1;
    }
    proof {
        assert(secs@.subrange(0, secs@.len() as int) =~= secs@);
    }
    vs
}


/// The error diagnostics among `ds`, in order.
pub open spec fn errors_of(ds: Seq<Diagnostic>) -> Seq<Diagnostic> {
    ds.filter(|d: Diagnostic| d.severity@ == "error"@)
}

/// The error diagnostics among `ds`, in order; the others are dropped.
pub fn error_diagnostics(ds: Vec<Diagnostic>) -> (es: Vec<Diagnostic>)
    ensures
        es@ == errors_of(ds@),
{
    let ghost all = ds@;
    let mut rest = ds;
    let mut es: Vec<Diagnostic> = Vec::new();
    proof {
        assert(all.subrange(0, 0) =~= Seq::<Diagnostic>::empty());
        assert(all.subrange(0, all.len() as int) =~= all);
        reveal_with_fuel(Seq::filter, 1);
    }
    while rest.len() > 0
        invariant
            rest@.len() <= all.len(),
            rest@ == all.subrange(all.len() - rest@.len(), all.len() as int),
            es@ == all.subrange(0, all.len() - rest@.len()).filter(|d: Diagnostic| d.severity@ == "error"@),
        decreases rest@.len(),
    {
        let ghost k = all.len() - rest@.len();
        let d = rest.remove(0);
        proof {
            assert(d == all[k]);
            assert(rest@ =~= all.subrange(k + 1, all.len() as int));
            reveal_with_fuel(Seq::filter, 1);
            assert(all.subrange(0, k + 1).drop_last() =~= all.subrange(0, k));
            assert(all.subrange(0, k + 1).last() == d);
        }
        if str_eq(d.severity.as_str(), "error") {
            es.push(d);
        }
    }
    proof {
        assert(all.subrange(0, all.len() as int) =~= all);
    }
    es
}

/// A plan the compiler can lay out without leaving its counters' ranges:
/// the next revision number fits a `u64`, the bars of all sections and the
/// number of sections fit a `u32`, and so does each section's length in
/// beats.
pub open spec fn compilable(base_revision: u64, sections: Seq<PlanSection>) -> bool {
    &&& base_revision < u64::MAX
    &&& bars_before(sections, sections.len() as int) < u32::MAX
    &&& sections.len() < u32::MAX
    &&& forall|i: int| 0 <= i < sections.len() ==> span_bars(#[trigger] sections[i]) * 4 <= u32::MAX
}

/// Whether `audio` is how the timeline reads the performance actions `perf`:
/// each one's id, section and priority.
pub open spec fn audio_reading(audio: Seq<TimelineAudioAction>, perf: Seq<PlannedAction>) -> bool {
    &&& audio.len() == perf.len()
    &&& forall|k: int| 0 <= k < perf.len() ==> {
        &&& (#[trigger] audio[k]).action_id@ == perf[k].action_id@
        &&& audio[k].section@ == perf[k].section@
        &&& audio[k].priority == perf[k].priority
    }
}

/// Whether `visual` is how the timeline reads the visual actions `vs`: each
/// one's id and scene.
pub open spec fn visual_reading(visual: Seq<TimelineVisualAction>, vs: Seq<PlannedVisual>) -> bool {
    &&& visual.len() == vs.len()
    &&& forall|k: int| 0 <= k < vs.len() ==> {
        &&& (#[trigger] visual[k]).visual_action_id@ == vs[k].visual_action_id@
        &&& visual[k].scene_id@ == vs[k].scene_id@
    }
}

/// A compiled revision: its numbers and run id, the structure, the
/// performance and visual plans, and the sorted timeline.
#[derive(Debug)]
pub struct CompiledPlan {
    pub show_id: String,
    pub revision: u64,
    pub base_revision: u64,
    pub compile_run_id: String,
    pub structure: StructureIr,
    pub performance: Vec<PlannedAction>,
    pub visual: Vec<PlannedVisual>,
    pub timeline: Vec<TimelineEntry>,
}

/// Compiles a plan whose validation gave `validation`: any error among
/// those diagnostics refuses the plan with exactly the errors, in order.
/// Otherwise the revision is the base revision plus one, the run id is
/// "compile-", the sanitized show id, "-rev-" and the revision; the
/// structure, performance and visual plans are built from the plan, and the
/// timeline built from them and the cue sets is sorted.
pub fn compile_plan(
    validation: Vec<Diagnostic>,
    show_id: &str,
    base_revision: u64,
    sections: &Vec<PlanSection>,
    locked_sections: &Vec<String>,
    layers: &Vec<PlanLayer>,
    scenes: &Vec<VisualScene>,
    cue_sets: &Vec<TimelineCueSet>,
) -> (r: Result<CompiledPlan, Vec<Diagnostic>>)
    requires
        errors_of(validation@).len() == 0 ==> compilable(base_revision, sections@),
    ensures
        r is Err <==> errors_of(validation@).len() > 0,
        r matches Err(es) ==> es@ == errors_of(validation@),
        r matches Ok(c) ==> {
            &&& c.show_id@ == show_id@
            &&& c.revision == base_revision + 1
            &&& c.base_revision == base_revision
            &&& c.compile_run_id@ == "compile-"@ + spec_sanitize(show_id@) + "-rev-"@ + decimal((base_revision + 1) as nat)
            &&& structure_built(c.structure, show_id@, sections@, locked_sections@)
            &&& performance_built(c.performance@, c.structure.sections@, layers@)
            &&& visual_built(c.visual@, c.structure.sections@, sections@, scenes@)
            &&& exists|audio: Seq<TimelineAudioAction>, visual: Seq<TimelineVisualAction>, t: Seq<TimelineEntry>|
                audio_reading(audio, c.performance@) && visual_reading(visual, c.visual@)
                && timeline_built(t, show_id@, c.revision, c.structure, audio, visual, cue_sets@)
                && #[trigger] c.timeline@ == stable_sort_entries(t, true)
        },
{
    let errors = error_diagnostics(validation);
    if errors.len() > 0 {
        return Err(errors);
    }
    let revision = base_revision + 1;
    let structure = build_structure(show_id, sections, locked_sections);
    proof {
        assert forall|j: int| 0 <= j < structure.sections@.len() implies {
            &&& (#[trigger] structure.sections@[j]).span.start_bar <= structure.sections@[j].span.end_bar
            &&& (structure.sections@[j].span.end_bar - structure.sections@[j].span.start_bar + 1) * 4 <= u32::MAX
            &&& structure.sections@[j].order < u32::MAX
        } by {
            assert(span_bars(sections@[j]) * 4 <= u32::MAX);
            assert(bars_before(sections@, j + 1) == bars_before(sections@, j) + span_bars(sections@[j]));
        }
    }
    let performance = build_performance(&structure, layers);
    let visual = build_visual(&structure, sections, scenes);
    let mut audio_in: Vec<TimelineAudioAction> = Vec::new();
    let mut i: usize = 0;
    while i < performance.len()
        invariant
            i <= performance@.len(),
            audio_in@.len() == i,
            forall|k: int| 0 <= k < i ==> {
                &&& (#[trigger] audio_in@[k]).action_id@ == performance@[k].action_id@
                &&& audio_in@[k].section@ == performance@[k].section@
                &&& audio_in@[k].priority == performance@[k].priority
            },
        decreases performance@.len() - i,
    {
        let p = &performance[i];
        audio_in.push(TimelineAudioAction { action_id: p.action_id.clone(), section: p.section.clone(), priority: p.priority });
        i = i + 1;
    }
    let mut visual_in: Vec<TimelineVisualAction> = Vec::new();
    let mut j: usize = 0;
    while j < visual.len()
        invariant
            j <= visual@.len(),
            visual_in@.len() == j,
            forall|k: int| 0 <= k < j ==> {
                &&& (#[trigger] visual_in@[k]).visual_action_id@ == visual@[k].visual_action_id@
                &&& visual_in@[k].scene_id@ == visual@[k].scene_id@
            },
        decreases visual@.len() - j,
    {
        let v = &visual[j];
        visual_in.push(TimelineVisualAction { visual_action_id: v.visual_action_id.clone(), scene_id: v.scene_id.clone() });
        j = j + 1;
    }
    let built = build_timeline(show_id, revision, &structure, &audio_in, &visual_in, cue_sets);
    let ghost unsorted = built@;
    let timeline = sort_timeline(built);
    let mut run_id = join2("compile-", sanitize(show_id).as_str());
    run_id.append("-rev-");
    push_decimal(&mut run_id, revision);
    let c = CompiledPlan {
        show_id: String::from_str(show_id),
        revision,
        base_revision,
        compile_run_id: run_id,
        structure,
        performance,
        visual,
        timeline,
    };
    proof {
        assert(audio_reading(audio_in@, c.performance@));
        assert(visual_reading(visual_in@, c.visual@));
        assert(timeline_built(unsorted, show_id@, c.revision, c.structure, audio_in@, visual_in@, cue_sets@));
        assert(c.timeline@ == stable_sort_entries(unsorted, true));
    }
    Ok(c)
}

} // verus!
