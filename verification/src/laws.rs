//! The library's general guarantees, stated over the same spec functions the
//! executable contracts use and proved once for all inputs.

use vstd::prelude::*;
use crate::arrow::{
    spec_due, spec_due_count, spec_is_hit, spec_is_overshoot, spec_resolved, Arrow,
};
use crate::consts::{ARROW_CLICK_THRESHOLD, ARROW_JOURNEY_END_POSITION};
use crate::types::{spec_chart_sorted, ArrowTime, GameKey};

verus! {

/// Scheduling correctness: on a chart ordered ascending by spawn time whose
/// remaining notes all spawn after `t_prev`, one scheduling pass over the
/// interval `(t_prev, t]` promotes exactly the notes that are due in it —
/// every promoted note is due, and every note left behind spawns after `t`,
/// so the early exit at the first not-due note skips nothing.
pub proof fn lemma_schedule_promotes_exactly_due(notes: Seq<ArrowTime>, t_prev: int, t: int)
    requires
        spec_chart_sorted(notes),
        forall|i: int| 0 <= i < notes.len() ==> (#[trigger] notes[i]).spawn_time > t_prev,
    ensures
        forall|i: int|
            0 <= i < spec_due_count(notes, t_prev, t) ==> spec_due(#[trigger] notes[i], t_prev, t),
        forall|i: int|
            spec_due_count(notes, t_prev, t) <= i < notes.len() ==> (#[trigger] notes[i]).spawn_time
                > t,
    decreases notes.len(),
{
    broadcast use vstd::seq_lib::group_seq_properties;

    if notes.len() > 0 && spec_due(notes[0], t_prev, t) {
        let rest = notes.skip(1);
        assert forall|i: int| 0 <= i < rest.len() implies (#[trigger] rest[i]).spawn_time
            > t_prev by {
            assert(rest[i] == notes[i + 1]);
        }
        assert(spec_chart_sorted(rest)) by {
            assert forall|p: int, q: int|
                0 <= p <= q < rest.len() implies rest[p].spawn_time <= rest[q].spawn_time by {
                assert(rest[p] == notes[p + 1]);
                assert(rest[q] == notes[q + 1]);
            }
        }
        lemma_schedule_promotes_exactly_due(rest, t_prev, t);
        lemma_queue_drain(rest, t_prev, t);
        let k = spec_due_count(notes, t_prev, t);
        assert(k == 1 + spec_due_count(rest, t_prev, t));
        assert forall|i: int| 0 <= i < k implies spec_due(#[trigger] notes[i], t_prev, t) by {
            if i > 0 {
                assert(rest[i - 1] == notes[i]);
            }
        }
        assert forall|i: int| k <= i < notes.len() implies (#[trigger] notes[i]).spawn_time > t by {
            assert(rest[i - 1] == notes[i]);
        }
    } else if notes.len() > 0 {
        assert(notes[0].spawn_time > t);
        assert forall|i: int| 0 <= i < notes.len() implies (#[trigger] notes[i]).spawn_time > t by {
            assert(notes[0].spawn_time <= notes[i].spawn_time);
        }
    }
}

/// Queue drain: a scheduling pass never promotes more notes than the queue
/// holds, so removing the promoted prefix shrinks the queue by exactly the
/// number promoted and the queue never grows.
pub proof fn lemma_queue_drain(notes: Seq<ArrowTime>, t_prev: int, t: int)
    ensures
        spec_due_count(notes, t_prev, t) <= notes.len(),
        notes.skip(spec_due_count(notes, t_prev, t) as int).len() == notes.len() - spec_due_count(
            notes,
            t_prev,
            t,
        ),
    decreases notes.len(),
{
    if notes.len() > 0 && spec_due(notes[0], t_prev, t) {
        lemma_queue_drain(notes.skip(1), t_prev, t);
    }
}

/// The travel coordinate of an arrow `dt` after it was at `position`, under
/// constant-velocity integration.
pub open spec fn spec_position_after(position: int, speed_value: int, dt: int) -> int {
    position + speed_value * dt
}

/// The travel coordinate after integrating a run of frame steps one by one.
pub open spec fn spec_position_after_steps(
    position: int,
    speed_value: int,
    deltas: Seq<int>,
) -> int
    decreases deltas.len(),
{
    if deltas.len() == 0 {
        position
    } else {
        spec_position_after_steps(
            spec_position_after(position, speed_value, deltas[0]),
            speed_value,
            deltas.skip(1),
        )
    }
}

/// The total elapsed time of a run of frame steps.
pub open spec fn spec_total_time(deltas: Seq<int>) -> int
    decreases deltas.len(),
{
    if deltas.len() == 0 {
        0
    } else {
        deltas[0] + spec_total_time(deltas.skip(1))
    }
}

/// Motion law: integrating in two steps lands exactly where one step over the
/// summed time does.
pub proof fn lemma_motion_additive(position: int, speed_value: int, dt1: int, dt2: int)
    ensures
        spec_position_after(
            spec_position_after(position, speed_value, dt1),
            speed_value,
            dt2,
        ) == spec_position_after(position, speed_value, dt1 + dt2),
{
    assert(speed_value * dt1 + speed_value * dt2 == speed_value * (dt1 + dt2))
        by (nonlinear_arith);
}

/// Motion law, independent of frame granularity: integrating any run of frame
/// steps lands exactly at the start coordinate plus speed times the total
/// elapsed time, however the time was split into frames.
pub proof fn lemma_motion_granularity(position: int, speed_value: int, deltas: Seq<int>)
    ensures
        spec_position_after_steps(position, speed_value, deltas) == spec_position_after(
            position,
            speed_value,
            spec_total_time(deltas),
        ),
    decreases deltas.len(),
{
    if deltas.len() == 0 {
    } else {
        let after_first = spec_position_after(position, speed_value, deltas[0]);
        lemma_motion_granularity(after_first, speed_value, deltas.skip(1));
        lemma_motion_additive(position, speed_value, deltas[0], spec_total_time(deltas.skip(1)));
        assert(deltas[0] + spec_total_time(deltas.skip(1)) == spec_total_time(deltas));
    }
}

/// No arrow persists indefinitely: its speed is positive, so once the total
/// elapsed time covers the gap to the overshoot bound at that speed, its
/// coordinate is at or past twice the target coordinate, and the detector
/// discards it there if no hit resolved it earlier.
pub proof fn lemma_every_arrow_eventually_overshoots(position: int, speed_value: int, dt: int)
    requires
        0 < speed_value,
        dt * speed_value >= 2 * ARROW_JOURNEY_END_POSITION - position,
    ensures
        spec_position_after(position, speed_value, dt) >= 2 * ARROW_JOURNEY_END_POSITION,
{
    assert(dt * speed_value == speed_value * dt) by (nonlinear_arith);
}

/// Hit window: with a fresh press of a matching key, an arrow sitting exactly
/// on either edge of the tolerance window registers a hit, and an arrow any
/// distance beyond an edge does not.
pub proof fn lemma_hit_window_boundary(arrow: Arrow, fresh: Seq<GameKey>)
    requires
        arrow.direction.spec_key_just_pressed(fresh),
    ensures
        arrow.position == ARROW_JOURNEY_END_POSITION + ARROW_CLICK_THRESHOLD ==> spec_is_hit(
            arrow,
            fresh,
        ),
        arrow.position == ARROW_JOURNEY_END_POSITION - ARROW_CLICK_THRESHOLD ==> spec_is_hit(
            arrow,
            fresh,
        ),
        arrow.position > ARROW_JOURNEY_END_POSITION + ARROW_CLICK_THRESHOLD ==> !spec_is_hit(
            arrow,
            fresh,
        ),
        arrow.position < ARROW_JOURNEY_END_POSITION - ARROW_CLICK_THRESHOLD ==> !spec_is_hit(
            arrow,
            fresh,
        ),
{
}

/// Overshoot cleanup: an arrow at or past twice the target coordinate is
/// resolved whatever the input snapshot holds, so the detector removes it in
/// the very frame it gets to run.
pub proof fn lemma_overshoot_resolved_any_input(arrow: Arrow, fresh: Seq<GameKey>)
    requires
        spec_is_overshoot(arrow),
    ensures
        spec_resolved(arrow, fresh),
{
}

/// Direction matching: if none of the freshly pressed keys belongs to the
/// arrow's direction's accepted key set, the arrow never registers a hit,
/// whatever its position.
pub proof fn lemma_unmatched_keys_never_hit(arrow: Arrow, fresh: Seq<GameKey>)
    requires
        forall|i: int| 0 <= i < fresh.len() ==> !arrow.direction.spec_accepts(#[trigger] fresh[i]),
    ensures
        !spec_is_hit(arrow, fresh),
{
    let (primary, alternate) = arrow.direction.spec_keys();
    if fresh.contains(primary) {
        let i = choose|i: int| 0 <= i < fresh.len() && fresh[i] == primary;
        assert(arrow.direction.spec_accepts(fresh[i]));
    }
    if fresh.contains(alternate) {
        let i = choose|i: int| 0 <= i < fresh.len() && fresh[i] == alternate;
        assert(arrow.direction.spec_accepts(fresh[i]));
    }
}

} // verus!
