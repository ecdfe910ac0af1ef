//! Live arrows and the three per-frame passes: the scheduler that promotes
//! due notes, the motion integrator, and the hit detector.

use vstd::prelude::*;
use crate::consts::{
    ARROW_CLICK_THRESHOLD, ARROW_JOURNEY_END_POSITION, ARROW_JOURNEY_START_POSITION,
    MAX_ARROW_SPEED_VALUE, MAX_TIME_DELTA_MS,
};
use crate::types::{
    ArrowDirection, ArrowTime, GameKey, InputSnapshot, SongConfig, Speed,
};

verus! {

/// A live, travelling note instance: its position advances along the travel
/// axis until a hit or an overshoot removes it.
#[derive(Copy, Clone, Debug, PartialEq, Eq, Structural)]
pub struct Arrow {
    pub id: u64,
    pub position: i64,
    pub speed_value: i64,
    pub direction: ArrowDirection,
}

impl Arrow {
    /// Bounds every arrow in a session's live set satisfies between frames:
    /// it has travelled from the journey start but not yet past the overshoot
    /// bound, at a positive speed no class exceeds.
    pub open spec fn live(self) -> bool {
        &&& ARROW_JOURNEY_START_POSITION <= self.position
        &&& self.position < 2 * ARROW_JOURNEY_END_POSITION
        &&& 0 < self.speed_value <= MAX_ARROW_SPEED_VALUE
    }
}

/// One of the four fixed landing markers, established once at session start.
#[derive(Copy, Clone, Debug, PartialEq, Eq, Structural)]
pub struct TargetSlot {
    pub direction: ArrowDirection,
    pub x: i64,
    pub y: i64,
    pub rotation: i64,
}

/// A request to the presentation collaborator: materialize a travelling
/// visual, or dispose of one whose arrow was resolved.
#[derive(Copy, Clone, Debug, PartialEq, Eq, Structural)]
pub enum VisualCommand {
    Spawn { id: u64, style: Speed, x: i64, y: i64, rotation: i64 },
    Dispose { id: u64 },
}

/// Whether a note is due in the frame from `t_prev` to `t`: its spawn time
/// lies in the half-open interval after `t_prev`, up to and including `t`.
pub open spec fn spec_due(note: ArrowTime, t_prev: int, t: int) -> bool {
    t_prev < note.spawn_time <= t
}

/// How many notes the scheduler promotes in the frame from `t_prev` to `t`:
/// the longest prefix of due notes, stopping at the first note that is not.
pub open spec fn spec_due_count(notes: Seq<ArrowTime>, t_prev: int, t: int) -> nat
    decreases notes.len(),
{
    if notes.len() > 0 && spec_due(notes[0], t_prev, t) {
        1 + spec_due_count(notes.skip(1), t_prev, t)
    } else {
        0
    }
}

/// The arrow a promoted note turns into: at the journey start, travelling at
/// the note's class speed in the note's direction.
pub open spec fn spec_promoted_arrow(note: ArrowTime, id: u64) -> Arrow {
    Arrow {
        id,
        position: ARROW_JOURNEY_START_POSITION,
        speed_value: note.speed.spec_value() as i64,
        direction: note.direction,
    }
}

/// The arrows a run of promoted notes turns into, with ids counted up from
/// `first_id`.
pub open spec fn spec_promoted_seq(notes: Seq<ArrowTime>, first_id: u64) -> Seq<Arrow> {
    Seq::new(notes.len(), |i: int| spec_promoted_arrow(notes[i], (first_id + i) as u64))
}

/// The presentation request a promoted note raises: a visual at the journey
/// start transform of its direction, styled by its speed class.
pub open spec fn spec_spawn_command(note: ArrowTime, id: u64) -> VisualCommand {
    VisualCommand::Spawn {
        id,
        style: note.speed,
        x: ARROW_JOURNEY_START_POSITION,
        y: note.direction.spec_y() as i64,
        rotation: note.direction.spec_rotation() as i64,
    }
}

/// The presentation requests of a run of promoted notes.
pub open spec fn spec_spawn_commands(notes: Seq<ArrowTime>, first_id: u64) -> Seq<VisualCommand> {
    Seq::new(notes.len(), |i: int| spec_spawn_command(notes[i], (first_id + i) as u64))
}

/// Scheduler pass: examines the front of the chart queue in order and
/// promotes every note whose spawn time lies in `(t_prev_ms, t_ms]` into a
/// live arrow at the journey start, removing it from the queue; it stops at
/// the first note that is not due. Returns the new arrows and the matching
/// presentation requests.
pub fn spawn_arrows(
    config: &mut SongConfig,
    t_prev_ms: i64,
    t_ms: i64,
    first_id: u64,
) -> (spawned: (Vec<Arrow>, Vec<VisualCommand>))
    requires
        first_id + old(config).arrows@.len() <= u64::MAX,
    ensures
        ({
            let k = spec_due_count(old(config).arrows@, t_prev_ms as int, t_ms as int) as int;
            &&& final(config).arrows@ == old(config).arrows@.skip(k)
            &&& spawned.0@ == spec_promoted_seq(old(config).arrows@.take(k), first_id)
            &&& spawned.1@ == spec_spawn_commands(old(config).arrows@.take(k), first_id)
        }),
{
    let ghost original: Seq<ArrowTime> = config.arrows@;
    let ghost t_prev = t_prev_ms as int;
    let ghost t = t_ms as int;
    proof {
        vstd::std_specs::vec::axiom_spec_len(&config.arrows);
        assert(original.skip(0) =~= original);
    }
    let mut arrows: Vec<Arrow> = Vec::new();
    let mut commands: Vec<VisualCommand> = Vec::new();
    let mut promoted: usize = 0;
    while config.arrows.len() > 0 && t_prev_ms < config.arrows[0].spawn_time
        && config.arrows[0].spawn_time <= t_ms
        invariant
            promoted <= original.len(),
            original.len() <= usize::MAX,
            first_id + original.len() <= u64::MAX,
            t_prev == t_prev_ms as int,
            t == t_ms as int,
            config.arrows@ == original.skip(promoted as int),
            arrows@ == spec_promoted_seq(original.take(promoted as int), first_id),
            commands@ == spec_spawn_commands(original.take(promoted as int), first_id),
            spec_due_count(original, t_prev, t) == promoted + spec_due_count(
                original.skip(promoted as int),
                t_prev,
                t,
            ),
        decreases config.arrows.len(),
    {
        let note = config.arrows.remove(0);
        let id = first_id + promoted as u64;
        let arrow = Arrow {
            id,
            position: ARROW_JOURNEY_START_POSITION,
            speed_value: note.speed.value(),
            direction: note.direction,
        };
        let command = VisualCommand::Spawn {
            id,
            style: note.speed,
            x: ARROW_JOURNEY_START_POSITION,
            y: note.direction.y(),
            rotation: note.direction.rotation(),
        };
        arrows.push(arrow);
        commands.push(command);
        proof {
            let j = promoted as int;
            assert(note == original[j]);
            assert(original.skip(j).skip(1) =~= original.skip(j + 1));
            assert(spec_due(original.skip(j)[0], t_prev, t));
            assert(spec_due_count(original.skip(j), t_prev, t) == 1 + spec_due_count(
                original.skip(j + 1),
                t_prev,
                t,
            ));
            assert(arrows@ =~= spec_promoted_seq(original.take(j + 1), first_id)) by {
                assert(original.take(j + 1).len() == j + 1);
                assert forall|i: int| 0 <= i < j + 1 implies spec_promoted_seq(
                    original.take(j + 1),
                    first_id,
                )[i] == arrows@[i] by {
                    assert(original.take(j + 1)[i] == original[i]);
                    if i < j {
                        assert(original.take(j)[i] == original[i]);
                        assert(arrows@[i] == spec_promoted_seq(original.take(j), first_id)[i]);
                    }
                }
            }
            assert(commands@ =~= spec_spawn_commands(original.take(j + 1), first_id)) by {
                assert forall|i: int| 0 <= i < j + 1 implies spec_spawn_commands(
                    original.take(j + 1),
                    first_id,
                )[i] == commands@[i] by {
                    assert(original.take(j + 1)[i] == original[i]);
                    if i < j {
                        assert(original.take(j)[i] == original[i]);
                        assert(commands@[i] == spec_spawn_commands(original.take(j), first_id)[i]);
                    }
                }
            }
        }
        promoted = promoted + 1;
    }
    proof {
        assert(spec_due_count(original.skip(promoted as int), t_prev, t) == 0);
    }
    (arrows, commands)
}

/// An arrow after `dt_ms` of travel: its position advanced by its speed
/// times the elapsed time, everything else unchanged.
pub open spec fn spec_moved_arrow(arrow: Arrow, dt_ms: int) -> Arrow {
    Arrow { position: (arrow.position + arrow.speed_value * dt_ms) as i64, ..arrow }
}

/// A whole live set after `dt_ms` of travel.
pub open spec fn spec_moved_seq(arrows: Seq<Arrow>, dt_ms: int) -> Seq<Arrow> {
    Seq::new(arrows.len(), |i: int| spec_moved_arrow(arrows[i], dt_ms))
}

/// Motion integrator pass: advances every live arrow by `dt_ms` times its
/// speed, and nothing else about it. Positions only grow.
pub fn move_arrows(arrows: &mut Vec<Arrow>, dt_ms: i64)
    requires
        0 <= dt_ms <= MAX_TIME_DELTA_MS,
        forall|i: int|
            0 <= i < old(arrows)@.len() ==> {
                let a = #[trigger] old(arrows)@[i];
                &&& ARROW_JOURNEY_START_POSITION <= a.position <= 2 * ARROW_JOURNEY_END_POSITION
                &&& 0 < a.speed_value <= MAX_ARROW_SPEED_VALUE
            },
    ensures
        final(arrows)@.len() == old(arrows)@.len(),
        final(arrows)@ == spec_moved_seq(old(arrows)@, dt_ms as int),
        forall|i: int|
            0 <= i < final(arrows)@.len() ==> {
                let before = #[trigger] old(arrows)@[i];
                let after = final(arrows)@[i];
                &&& after.position == before.position + before.speed_value * dt_ms
                &&& after.id == before.id
                &&& after.speed_value == before.speed_value
                &&& after.direction == before.direction
                &&& after.position >= before.position
            },
{
    let ghost original: Seq<Arrow> = arrows@;
    let mut moved: Vec<Arrow> = Vec::new();
    let mut i: usize = 0;
    while i < arrows.len()
        invariant
            i <= arrows@.len(),
            arrows@ == original,
            0 <= dt_ms <= MAX_TIME_DELTA_MS,
            forall|j: int|
                0 <= j < original.len() ==> {
                    let a = #[trigger] original[j];
                    &&& ARROW_JOURNEY_START_POSITION <= a.position <= 2 * ARROW_JOURNEY_END_POSITION
                    &&& 0 < a.speed_value <= MAX_ARROW_SPEED_VALUE
                },
            moved@.len() == i,
            forall|j: int|
                0 <= j < i ==> {
                    let before = #[trigger] original[j];
                    let after = moved@[j];
                    &&& after.position == before.position + before.speed_value * dt_ms
                    &&& after.id == before.id
                    &&& after.speed_value == before.speed_value
                    &&& after.direction == before.direction
                    &&& after.position >= before.position
                },
        decreases arrows@.len() - i,
    {
        let a = arrows[i];
        proof {
            assert(0 <= a.speed_value * dt_ms <= MAX_ARROW_SPEED_VALUE * MAX_TIME_DELTA_MS)
                by (nonlinear_arith)
                requires
                    0 < a.speed_value <= MAX_ARROW_SPEED_VALUE,
                    0 <= dt_ms <= MAX_TIME_DELTA_MS,
            ;
        }
        let travelled = a.speed_value * dt_ms;
        moved.push(Arrow { position: a.position + travelled, ..a });
        i = i + 1;
    }
    proof {
        assert(moved@ =~= spec_moved_seq(original, dt_ms as int));
    }
    *arrows = moved;
}

/// Whether a position lies inside the symmetric tolerance window around the
/// target coordinate.
pub open spec fn spec_in_hit_window(position: i64) -> bool {
    ARROW_JOURNEY_END_POSITION - ARROW_CLICK_THRESHOLD <= position <= ARROW_JOURNEY_END_POSITION
        + ARROW_CLICK_THRESHOLD
}

/// Whether an arrow registers a hit this frame: it sits inside the tolerance
/// window and one of its direction's accepted keys is freshly pressed.
pub open spec fn spec_is_hit(arrow: Arrow, fresh: Seq<GameKey>) -> bool {
    spec_in_hit_window(arrow.position) && arrow.direction.spec_key_just_pressed(fresh)
}

/// Whether an arrow has travelled to or past twice the target coordinate and
/// is discarded as a miss, regardless of input.
pub open spec fn spec_is_overshoot(arrow: Arrow) -> bool {
    arrow.position >= 2 * ARROW_JOURNEY_END_POSITION
}

/// Whether the hit detector resolves (removes) an arrow this frame.
pub open spec fn spec_resolved(arrow: Arrow, fresh: Seq<GameKey>) -> bool {
    spec_is_hit(arrow, fresh) || spec_is_overshoot(arrow)
}

/// Hit detector pass: resolves every arrow that registers a hit or has
/// overshot (the hit check is evaluated first, so an arrow is removed at most
/// once), keeps the rest in order, and returns the ids of the resolved
/// arrows in order.
pub fn despawn_arrows(arrows: &mut Vec<Arrow>, input: &InputSnapshot) -> (disposed: Vec<u64>)
    ensures
        final(arrows)@ == old(arrows)@.filter(|a: Arrow| !spec_resolved(a, input.fresh@)),
        disposed@ == old(arrows)@.filter(|a: Arrow| spec_resolved(a, input.fresh@)).map_values(
            |a: Arrow| a.id,
        ),
{
    broadcast use vstd::seq_lib::group_seq_properties;

    let ghost original: Seq<Arrow> = arrows@;
    let ghost keep = |a: Arrow| !spec_resolved(a, input.fresh@);
    let ghost resolve = |a: Arrow| spec_resolved(a, input.fresh@);
    let mut kept: Vec<Arrow> = Vec::new();
    let mut disposed: Vec<u64> = Vec::new();
    let mut i: usize = 0;
    while i < arrows.len()
        invariant
            i <= arrows@.len(),
            arrows@ == original,
            kept@ == original.take(i as int).filter(keep),
            disposed@ == original.take(i as int).filter(resolve).map_values(|a: Arrow| a.id),
            keep == (|a: Arrow| !spec_resolved(a, input.fresh@)),
            resolve == (|a: Arrow| spec_resolved(a, input.fresh@)),
        decreases arrows@.len() - i,
    {
        let a = arrows[i];
        let in_window = ARROW_JOURNEY_END_POSITION - ARROW_CLICK_THRESHOLD <= a.position
            && a.position <= ARROW_JOURNEY_END_POSITION + ARROW_CLICK_THRESHOLD;
        let hit = in_window && a.direction.key_just_pressed(input);
        if hit {
            disposed.push(a.id);
        } else if a.position >= 2 * ARROW_JOURNEY_END_POSITION {
            disposed.push(a.id);
        } else {
            kept.push(a);
        }
        proof {
            let j = i as int;
            assert(original.take(j + 1) =~= original.take(j).push(original[j]));
            original.take(j).lemma_filter_push(original[j], keep);
            original.take(j).lemma_filter_push(original[j], resolve);
            if resolve(original[j]) {
                assert(original.take(j + 1).filter(resolve).map_values(|a: Arrow| a.id)
                    =~= original.take(j).filter(resolve).map_values(|a: Arrow| a.id).push(
                    original[j].id,
                ));
            }
        }
        i = i + 1;
    }
    proof {
        assert(original.take(original.len() as int) =~= original);
    }
    *arrows = kept;
    disposed
}

/// The slot of one direction: at the journey end coordinate, with the
/// direction's fixed lateral offset and rotation.
pub open spec fn spec_target_slot(direction: ArrowDirection) -> TargetSlot {
    TargetSlot {
        direction,
        x: ARROW_JOURNEY_END_POSITION,
        y: direction.spec_y() as i64,
        rotation: direction.spec_rotation() as i64,
    }
}

/// Session-start setup: exactly four static landing markers, one per
/// direction, each at the journey end with its direction's offset and
/// rotation; they never move or disappear afterwards.
pub fn setup_target_arrows() -> (slots: Vec<TargetSlot>)
    ensures
        slots@.len() == 4,
        slots@[0] == spec_target_slot(ArrowDirection::Up),
        slots@[1] == spec_target_slot(ArrowDirection::Down),
        slots@[2] == spec_target_slot(ArrowDirection::Left),
        slots@[3] == spec_target_slot(ArrowDirection::Right),
{
    let mut slots: Vec<TargetSlot> = Vec::new();
    let directions = [
        ArrowDirection::Up,
        ArrowDirection::Down,
        ArrowDirection::Left,
        ArrowDirection::Right,
    ];
    let mut i: usize = 0;
    while i < 4
        invariant
            i <= 4,
            slots@.len() == i,
            directions@ =~= seq![
                ArrowDirection::Up,
                ArrowDirection::Down,
                ArrowDirection::Left,
                ArrowDirection::Right,
            ],
            forall|j: int| 0 <= j < i ==> slots@[j] == spec_target_slot(directions@[j]),
        decreases 4 - i,
    {
        let direction = directions[i];
        slots.push(TargetSlot {
            direction,
            x: ARROW_JOURNEY_END_POSITION,
            y: direction.y(),
            rotation: direction.rotation(),
        });
        i = i + 1;
    }
    slots
}

} // verus!
