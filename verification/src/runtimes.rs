//! The lighting and visual runtimes: each walks the events of a run and
//! acknowledges what it executed, and keeps in step with the downbeats
//! while a cue set or scene is active.

use vstd::prelude::*;
use crate::text::str_eq;

verus! {

/// What a runtime reads of an event's payload.
#[derive(Debug, Clone)]
pub enum PayloadFacts {
    /// A lighting cue to execute.
    Lighting { cue_set_id: String, source_ref: String },
    /// A visual scene to render.
    Visual { scene_id: String, shader_program: String },
    /// A timing event, on a downbeat or not.
    Timing { downbeat: bool },
    /// Anything else.
    Other,
}

/// What a runtime reads of a recorded event.
#[derive(Debug, Clone)]
pub struct RuntimeEventFacts {
    pub event_id: String,
    pub bar: u32,
    pub payload: PayloadFacts,
}

/// A lighting runtime's acknowledgement.
#[derive(Debug, Clone)]
pub struct CueAck {
    pub event_id: String,
    pub cue_set_id: String,
    pub source_ref: String,
    pub bar: u32,
    pub status: String,
}

/// A visual runtime's acknowledgement.
#[derive(Debug, Clone)]
pub struct SceneAck {
    pub event_id: String,
    pub scene_id: String,
    pub shader_program: String,
    pub bar: u32,
    pub status: String,
}

/// An acknowledgement by its views: event, cue set or scene, source or
/// shader, bar and status.
pub type AckView = (Seq<char>, Seq<char>, Seq<char>, u32, Seq<char>);

/// The view of a lighting acknowledgement.
pub open spec fn cue_ack_view(a: CueAck) -> AckView {
    (a.event_id@, a.cue_set_id@, a.source_ref@, a.bar, a.status@)
}

/// The view of a visual acknowledgement.
pub open spec fn scene_ack_view(a: SceneAck) -> AckView {
    (a.event_id@, a.scene_id@, a.shader_program@, a.bar, a.status@)
}

/// Whether a cue set or scene counts as active: named, and not "none".
pub open spec fn is_active(name: Seq<char>) -> bool {
    name.len() > 0 && name != "none"@
}

/// The cue set active after `events`: the last one executed, "none" before any.
pub open spec fn active_cue_set(events: Seq<RuntimeEventFacts>) -> Seq<char>
    decreases events.len(),
{
    if events.len() == 0 {
        "none"@
    } else {
        match events.last().payload {
            PayloadFacts::Lighting { cue_set_id, .. } => cue_set_id@,
            _ => active_cue_set(events.drop_last()),
        }
    }
}

/// The lighting acknowledgements of `events`: each cue executed, and each
/// downbeat while a cue set is active synced to it.
pub open spec fn lighting_acks(events: Seq<RuntimeEventFacts>) -> Seq<AckView>
    decreases events.len(),
{
    if events.len() == 0 {
        Seq::empty()
    } else {
        let prev = lighting_acks(events.drop_last());
        let active = active_cue_set(events.drop_last());
        let e = events.last();
        match e.payload {
            PayloadFacts::Lighting { cue_set_id, source_ref } =>
                prev.push((e.event_id@, cue_set_id@, source_ref@, e.bar, "cue_executed"@)),
            PayloadFacts::Timing { downbeat } => if downbeat && is_active(active) {
                prev.push((e.event_id@, active, "timing-sync"@, e.bar, "synced"@))
            } else {
                prev
            },
            _ => prev,
        }
    }
}

/// The scene current after `events`: the last one rendered, "none" before any.
pub open spec fn current_scene(events: Seq<RuntimeEventFacts>) -> Seq<char>
    decreases events.len(),
{
    if events.len() == 0 {
        "none"@
    } else {
        match events.last().payload {
            PayloadFacts::Visual { scene_id, .. } => scene_id@,
            _ => current_scene(events.drop_last()),
        }
    }
}

/// The visual acknowledgements of `events`: each scene rendered, and each
/// downbeat while a scene is current synced to it.
pub open spec fn visual_acks(events: Seq<RuntimeEventFacts>) -> Seq<AckView>
    decreases events.len(),
{
    if events.len() == 0 {
        Seq::empty()
    } else {
        let prev = visual_acks(events.drop_last());
        let current = current_scene(events.drop_last());
        let e = events.last();
        match e.payload {
            PayloadFacts::Visual { scene_id, shader_program } =>
                prev.push((e.event_id@, scene_id@, shader_program@, e.bar, "rendered"@)),
            PayloadFacts::Timing { downbeat } => if downbeat && is_active(current) {
                prev.push((e.event_id@, current, "timing-sync"@, e.bar, "synced"@))
            } else {
                prev
            },
            _ => prev,
        }
    }
}

/// Whether `name` counts as active.
fn active_exec(name: &String) -> (b: bool)
    ensures
        b == is_active(name@),
{
    proof {
        reveal_strlit("none");
    }
    name.as_str().unicode_len() > 0 && !str_eq(name.as_str(), "none")
}

/// Acknowledges a run's lighting events: "cue_executed" for each cue, and
/// "synced" with source "timing-sync" for each downbeat while a cue set is
/// active.
pub fn process_lighting_events(events: &Vec<RuntimeEventFacts>) -> (acks: Vec<CueAck>)
    ensures
        acks@.map_values(|a: CueAck| cue_ack_view(a)) == lighting_acks(events@),
{
    let mut acks: Vec<CueAck> = Vec::new();
    let mut active = String::from_str("none");
    let mut i: usize = 0;
    proof {
        reveal_strlit("none");
        assert(events@.take(0) =~= Seq::<RuntimeEventFacts>::empty());
        assert(acks@.map_values(|a: CueAck| cue_ack_view(a)) =~= Seq::<AckView>::empty());
    }
    while i < events.len()
        invariant
            i <= events@.len(),
            active@ == active_cue_set(events@.take(i as int)),
            acks@.map_values(|a: CueAck| cue_ack_view(a)) == lighting_acks(events@.take(i as int)),
        decreases events@.len() - i,
    {
        let e = &events[i];
        let ghost before = acks@;
        proof {
            assert(events@.take(i + 1).drop_last() =~= events@.take(i as int));
            assert(events@.take(i + 1).last() == events@[i as int]);
            reveal_strlit("cue_executed");
            reveal_strlit("timing-sync");
            reveal_strlit("synced");
        }
        match &e.payload {
            PayloadFacts::Lighting { cue_set_id, source_ref } => {
                active = cue_set_id.clone();
                acks.push(CueAck {
                    event_id: e.event_id.clone(),
                    cue_set_id: cue_set_id.clone(),
                    source_ref: source_ref.clone(),
                    bar: e.bar,
                    status: String::from_str("cue_executed"),
                });
                proof {
                    assert(acks@.map_values(|a: CueAck| cue_ack_view(a))
                        =~= before.map_values(|a: CueAck| cue_ack_view(a)).push(cue_ack_view(acks@.last())));
                }
            },
            PayloadFacts::Timing { downbeat } => {
                if *downbeat && active_exec(&active) {
                    acks.push(CueAck {
                        event_id: e.event_id.clone(),
                        cue_set_id: active.clone(),
                        source_ref: String::from_str("timing-sync"),
                        bar: e.bar,
                        status: String::from_str("synced"),
                    });
                    proof {
                        assert(acks@.map_values(|a: CueAck| cue_ack_view(a))
                            =~= before.map_values(|a: CueAck| cue_ack_view(a)).push(cue_ack_view(acks@.last())));
                    }
                }
            },
            _ => {},
        }
        i = i + 1;
    }
    proof {
        assert(events@.take(events@.len() as int) =~= events@);
    }
    acks
}

/// Acknowledges a run's visual events: "rendered" for each scene, and
/// "synced" with shader "timing-sync" for each downbeat while a scene is
/// current.
pub fn process_visual_events(events: &Vec<RuntimeEventFacts>) -> (acks: Vec<SceneAck>)
    ensures
        acks@.map_values(|a: SceneAck| scene_ack_view(a)) == visual_acks(events@),
{
    let mut acks: Vec<SceneAck> = Vec::new();
    let mut current = String::from_str("none");
    let mut i: usize = 0;
    proof {
        reveal_strlit("none");
        assert(events@.take(0) =~= Seq::<RuntimeEventFacts>::empty());
        assert(acks@.map_values(|a: SceneAck| scene_ack_view(a)) =~= Seq::<AckView>::empty());
    }
    while i < events.len()
        invariant
            i <= events@.len(),
            current@ == current_scene(events@.take(i as int)),
            acks@.map_values(|a: SceneAck| scene_ack_view(a)) == visual_acks(events@.take(i as int)),
        decreases events@.len() - i,
    {
        let e = &events[i];
        let ghost before = acks@;
        proof {
            assert(events@.take(i + 1).drop_last() =~= events@.take(i as int));
            assert(events@.take(i + 1).last() == events@[i as int]);
            reveal_strlit("rendered");
            reveal_strlit("timing-sync");
            reveal_strlit("synced");
        }
        match &e.payload {
            PayloadFacts::Visual { scene_id, shader_program } => {
                current = scene_id.clone();
                acks.push(SceneAck {
                    event_id: e.event_id.clone(),
                    scene_id: scene_id.clone(),
                    shader_program: shader_program.clone(),
                    bar: e.bar,
                    status: String::from_str("rendered"),
                });
                proof {
                    assert(acks@.map_values(|a: SceneAck| scene_ack_view(a))
                        =~= before.map_values(|a: SceneAck| scene_ack_view(a)).push(scene_ack_view(acks@.last())));
                }
            },
            PayloadFacts::Timing { downbeat } => {
                if *downbeat && active_exec(&current) {
                    acks.push(SceneAck {
                        event_id: e.event_id.clone(),
                        scene_id: current.clone(),
                        shader_program: String::from_str("timing-sync"),
                        bar: e.bar,
                        status: String::from_str("synced"),
                    });
                    proof {
                        assert(acks@.map_values(|a: SceneAck| scene_ack_view(a))
                            =~= before.map_values(|a: SceneAck| scene_ack_view(a)).push(scene_ack_view(acks@.last())));
                    }
                }
            },
            _ => {},
        }
        i = i + 1;
    }
    proof {
        assert(events@.take(events@.len() as int) =~= events@);
    }
    acks
}

/// Every lighting event is acknowledged once, and nothing else adds more
/// acknowledgements than downbeats: the acknowledgements of a run are at
/// least its cues and at most its cues and downbeats together.
pub proof fn law_lighting_acks_bounded(events: Seq<RuntimeEventFacts>)
    ensures
        count_lighting(events) <= lighting_acks(events).len() <= count_lighting(events) + count_downbeats(events),
    decreases events.len(),
{
    if events.len() > 0 {
        law_lighting_acks_bounded(events.drop_last());
    }
}

/// Number of lighting events.
pub open spec fn count_lighting(events: Seq<RuntimeEventFacts>) -> nat
    decreases events.len(),
{
    if events.len() == 0 {
        0
    } else {
        count_lighting(events.drop_last()) + if events.last().payload is Lighting { 1nat } else { 0nat }
    }
}

/// Number of downbeats.
pub open spec fn count_downbeats(events: Seq<RuntimeEventFacts>) -> nat
    decreases events.len(),
{
    if events.len() == 0 {
        0
    } else {
        count_downbeats(events.drop_last()) + if events.last().payload matches PayloadFacts::Timing { downbeat } && downbeat {
            1nat
        } else {
            0nat
        }
    }
}

/// Before any scene is rendered, downbeats are not acknowledged.
pub proof fn law_no_sync_before_a_scene(events: Seq<RuntimeEventFacts>)
    requires
        forall|i: int| 0 <= i < events.len() ==> !(#[trigger] events[i].payload is Visual),
    ensures
        visual_acks(events).len() == 0,
        current_scene(events) == "none"@,
    decreases events.len(),
{
    if events.len() > 0 {
        assert forall|i: int| 0 <= i < events.drop_last().len() implies !(#[trigger] events.drop_last()[i].payload is Visual) by {
            assert(events.drop_last()[i] == events[i]);
        }
        law_no_sync_before_a_scene(events.drop_last());
        assert(!(events[events.len() - 1].payload is Visual));
        reveal_strlit("none");
    }
}

} // verus!
