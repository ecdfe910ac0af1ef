//! A running session: the chart queue, the live arrow set, and the song
//! clock, advanced one frame at a time in the fixed order scheduler,
//! integrator, hit detector.

use vstd::prelude::*;
use crate::arrow::{
    despawn_arrows, move_arrows, spawn_arrows, spec_due_count, spec_moved_seq, spec_promoted_seq,
    spec_resolved, spec_spawn_commands, Arrow, VisualCommand,
};
use crate::consts::{
    ARROW_JOURNEY_END_POSITION, ARROW_JOURNEY_START_POSITION, MAX_ARROW_SPEED_VALUE,
    MAX_SESSION_TIME_MS,
};
use crate::laws::lemma_queue_drain;
use crate::types::{
    lemma_speed_value_bounds, spec_chart_sorted, ArrowTime, ChartOrderingError, InputSnapshot,
    SongConfig,
};

verus! {

/// Pairwise-distinct ids in a live set: no note is represented twice.
pub open spec fn spec_ids_distinct(arrows: Seq<Arrow>) -> bool {
    forall|i: int, j: int| 0 <= i < j < arrows.len() ==> arrows[i].id != arrows[j].id
}

/// Every id in a live set lies below `bound`.
pub open spec fn spec_ids_below(arrows: Seq<Arrow>, bound: u64) -> bool {
    forall|i: int| 0 <= i < arrows.len() ==> (#[trigger] arrows[i]).id < bound
}

/// Filtering a live set keeps every survivor an element of the original set,
/// and keeps distinct ids distinct.
proof fn lemma_filter_survivors(arrows: Seq<Arrow>, pred: spec_fn(Arrow) -> bool)
    ensures
        forall|i: int|
            0 <= i < arrows.filter(pred).len() ==> arrows.contains(
                #[trigger] arrows.filter(pred)[i],
            ),
        spec_ids_distinct(arrows) ==> spec_ids_distinct(arrows.filter(pred)),
    decreases arrows.len(),
{
    broadcast use vstd::seq_lib::group_seq_properties;

    if arrows.len() > 0 {
        let rest = arrows.drop_last();
        let last = arrows.last();
        lemma_filter_survivors(rest, pred);
        rest.lemma_filter_push(last, pred);
        assert(rest.push(last) =~= arrows);
        let kept = arrows.filter(pred);
        assert forall|i: int| 0 <= i < kept.len() implies arrows.contains(#[trigger] kept[i]) by {
            if pred(last) {
                if i < kept.len() - 1 {
                    assert(kept[i] == rest.filter(pred)[i]);
                    assert(rest.contains(kept[i]));
                } else {
                    assert(kept[i] == last);
                }
            } else {
                assert(kept[i] == rest.filter(pred)[i]);
                assert(rest.contains(kept[i]));
            }
            assert(rest.push(last).contains(kept[i]));
        }
        if spec_ids_distinct(arrows) {
            assert(spec_ids_distinct(rest)) by {
                assert forall|i: int, j: int|
                    0 <= i < j < rest.len() implies rest[i].id != rest[j].id by {
                    assert(arrows[i].id != arrows[j].id);
                }
            }
            assert forall|i: int, j: int|
                0 <= i < j < kept.len() implies kept[i].id != kept[j].id by {
                if pred(last) && j == kept.len() - 1 {
                    assert(kept[i] == rest.filter(pred)[i]);
                    assert(rest.contains(kept[i]));
                    let p = choose|p: int| 0 <= p < rest.len() && rest[p] == kept[i];
                    assert(arrows[p].id != arrows[arrows.len() - 1].id);
                    assert(kept[j] == last);
                } else {
                    assert(kept[i] == rest.filter(pred)[i]);
                    assert(kept[j] == rest.filter(pred)[j]);
                }
            }
        }
    }
}

/// The state a frame's detector pass filters: every live arrow and every
/// arrow promoted this frame, each advanced by the frame's time step.
pub open spec fn spec_frame_travelled(
    live: Seq<Arrow>,
    chart: Seq<ArrowTime>,
    t_prev: int,
    t: int,
    first_id: u64,
    dt_ms: int,
) -> Seq<Arrow> {
    spec_moved_seq(
        live + spec_promoted_seq(chart.take(spec_due_count(chart, t_prev, t) as int), first_id),
        dt_ms,
    )
}

/// One running play-through: owns the chart queue, the live arrows, the note
/// id counter, and the song clock, and steps them frame by frame.
#[derive(Debug)]
pub struct Session {
    pub config: SongConfig,
    pub arrows: Vec<Arrow>,
    pub time_ms: i64,
    pub next_id: u64,
}

impl Session {
    /// The state every frame boundary preserves: the chart stays sorted, the
    /// clock stays within the session range, every live arrow sits between
    /// the journey start and the overshoot bound at a class-bounded speed,
    /// ids are one per promoted note and below the counter, and the counter
    /// can still number every remaining note.
    pub open spec fn well_formed(self) -> bool {
        &&& self.config.well_formed()
        &&& -MAX_SESSION_TIME_MS <= self.time_ms <= MAX_SESSION_TIME_MS
        &&& forall|i: int| 0 <= i < self.arrows@.len() ==> (#[trigger] self.arrows@[i]).live()
        &&& spec_ids_below(self.arrows@, self.next_id)
        &&& spec_ids_distinct(self.arrows@)
        &&& self.next_id + self.config.arrows@.len() <= u64::MAX
    }

    /// Starts a session at `start_time_ms` on the given notes: succeeds with
    /// an empty live set exactly when the notes are ordered ascending by
    /// spawn time, and otherwise rejects the chart, naming the first
    /// position that breaks the order.
    pub fn new(notes: Vec<ArrowTime>, start_time_ms: i64) -> (session: Result<
        Session,
        ChartOrderingError,
    >)
        requires
            -MAX_SESSION_TIME_MS <= start_time_ms <= MAX_SESSION_TIME_MS,
        ensures
            session is Ok <==> spec_chart_sorted(notes@),
            session is Ok ==> {
                let s = session->Ok_0;
                &&& s.well_formed()
                &&& s.config.arrows@ == notes@
                &&& s.arrows@ =~= Seq::<Arrow>::empty()
                &&& s.time_ms == start_time_ms
                &&& s.next_id == 0
            },
            session is Err ==> {
                let index = session->Err_0.index as int;
                &&& 0 < index < notes@.len()
                &&& notes@[index - 1].spawn_time > notes@[index].spawn_time
            },
    {
        proof {
            vstd::std_specs::vec::axiom_spec_len(&notes);
        }
        let config = match SongConfig::from_notes(notes) {
            Ok(config) => config,
            Err(error) => {
                return Err(error);
            },
        };
        Ok(Session { config, arrows: Vec::new(), time_ms: start_time_ms, next_id: 0 })
    }

    /// Advances the session by one frame of `dt_ms`: the clock moves to `t =
    /// old time + dt_ms`; the scheduler promotes the due prefix of the chart
    /// (spawn times in `(old time, t]`) into arrows at the journey start,
    /// numbering them from the id counter; the integrator moves every live
    /// arrow, the new ones included, by `dt_ms` times its speed; and the hit
    /// detector removes every arrow that registers a hit or has overshot.
    /// Returns the frame's presentation requests: one spawn per promoted
    /// note, then one dispose per resolved arrow, in order.
    pub fn advance(&mut self, dt_ms: i64, input: &InputSnapshot) -> (commands: Vec<VisualCommand>)
        requires
            old(self).well_formed(),
            0 <= dt_ms,
            old(self).time_ms + dt_ms <= MAX_SESSION_TIME_MS,
        ensures
            final(self).well_formed(),
            final(self).time_ms == old(self).time_ms + dt_ms,
            ({
                let chart0 = old(self).config.arrows@;
                let t_prev = old(self).time_ms as int;
                let t = old(self).time_ms + dt_ms;
                let k = spec_due_count(chart0, t_prev, t) as int;
                let travelled = spec_frame_travelled(
                    old(self).arrows@,
                    chart0,
                    t_prev,
                    t,
                    old(self).next_id,
                    dt_ms as int,
                );
                &&& final(self).config.arrows@ == chart0.skip(k)
                &&& final(self).next_id == old(self).next_id + k
                &&& final(self).arrows@ == travelled.filter(
                    |a: Arrow| !spec_resolved(a, input.fresh@),
                )
                &&& commands@ == spec_spawn_commands(chart0.take(k), old(self).next_id)
                    + travelled.filter(|a: Arrow| spec_resolved(a, input.fresh@)).map_values(
                    |a: Arrow| VisualCommand::Dispose { id: a.id },
                )
            }),
    {
        let ghost pre: Session = *self;
        let t_prev = self.time_ms;
        let t = self.time_ms + dt_ms;
        self.time_ms = t;
        proof {
            lemma_queue_drain(pre.config.arrows@, t_prev as int, t as int);
        }
        let (mut spawned, mut commands) = spawn_arrows(&mut self.config, t_prev, t, self.next_id);
        let ghost k = spec_due_count(pre.config.arrows@, t_prev as int, t as int) as int;
        let ghost promoted = spec_promoted_seq(pre.config.arrows@.take(k), pre.next_id);
        let spawned_count = spawned.len();
        self.next_id = self.next_id + spawned_count as u64;
        self.arrows.append(&mut spawned);
        let ghost combined = pre.arrows@ + promoted;
        proof {
            assert(self.arrows@ == combined);
            assert forall|i: int|
                0 <= i < combined.len() implies {
                let a = #[trigger] combined[i];
                &&& ARROW_JOURNEY_START_POSITION <= a.position <= 2 * ARROW_JOURNEY_END_POSITION
                &&& 0 < a.speed_value <= MAX_ARROW_SPEED_VALUE
            } by {
                if i < pre.arrows@.len() {
                    assert(pre.arrows@[i].live());
                } else {
                    let j = i - pre.arrows@.len();
                    assert(combined[i] == promoted[j]);
                    lemma_speed_value_bounds(pre.config.arrows@.take(k)[j].speed);
                }
            }
        }
        move_arrows(&mut self.arrows, dt_ms);
        let ghost travelled = spec_moved_seq(combined, dt_ms as int);
        let disposed = despawn_arrows(&mut self.arrows, input);
        let ghost keep = |a: Arrow| !spec_resolved(a, input.fresh@);
        let ghost resolve = |a: Arrow| spec_resolved(a, input.fresh@);
        proof {
            // The surviving arrows are again a well-formed live set.
            lemma_filter_survivors(travelled, keep);
            assert forall|i: int|
                0 <= i < travelled.len() implies {
                let a = #[trigger] travelled[i];
                &&& ARROW_JOURNEY_START_POSITION <= a.position
                &&& 0 < a.speed_value <= MAX_ARROW_SPEED_VALUE
                &&& a.id < pre.next_id + k
            } by {
                assert(travelled[i].position >= combined[i].position);
                assert(travelled[i].speed_value == combined[i].speed_value);
                assert(travelled[i].id == combined[i].id);
                if i < pre.arrows@.len() {
                    assert(pre.arrows@[i].live());
                    assert(pre.arrows@[i].id < pre.next_id);
                } else {
                    let j = i - pre.arrows@.len();
                    assert(combined[i] == promoted[j]);
                }
            }
            assert(spec_ids_distinct(travelled)) by {
                assert forall|i: int, j: int|
                    0 <= i < j < travelled.len() implies travelled[i].id != travelled[j].id by {
                    assert(travelled[i].id == combined[i].id);
                    assert(travelled[j].id == combined[j].id);
                    let n = pre.arrows@.len() as int;
                    if i < n && j < n {
                        assert(combined[i] == pre.arrows@[i]);
                        assert(combined[j] == pre.arrows@[j]);
                    } else if i < n {
                        assert(combined[i].id < pre.next_id);
                        assert(combined[j] == promoted[j - n]);
                    } else {
                        assert(combined[i] == promoted[i - n]);
                        assert(combined[j] == promoted[j - n]);
                    }
                }
            }
            assert forall|i: int|
                0 <= i < self.arrows@.len() implies (#[trigger] self.arrows@[i]).live() by {
                assert(self.arrows@[i] == travelled.filter(keep)[i]);
                assert(travelled.contains(self.arrows@[i]));
                let p = choose|p: int|
                    0 <= p < travelled.len() && travelled[p] == self.arrows@[i];
                assert(keep(self.arrows@[i]));
            }
            assert(spec_ids_below(self.arrows@, self.next_id)) by {
                assert forall|i: int|
                    0 <= i < self.arrows@.len() implies (#[trigger] self.arrows@[i]).id
                    < self.next_id by {
                    assert(travelled.contains(self.arrows@[i]));
                    let p = choose|p: int|
                        0 <= p < travelled.len() && travelled[p] == self.arrows@[i];
                }
            }
            // The chart suffix stays sorted.
            assert(self.config.well_formed()) by {
                assert forall|p: int, q: int|
                    0 <= p <= q < self.config.arrows@.len() implies self.config.arrows@[p].spawn_time
                    <= self.config.arrows@[q].spawn_time by {
                    assert(self.config.arrows@[p] == pre.config.arrows@[p + k]);
                    assert(self.config.arrows@[q] == pre.config.arrows@[q + k]);
                }
            }
        }
        let ghost spawn_part = commands@;
        let mut i: usize = 0;
        while i < disposed.len()
            invariant
                i <= disposed@.len(),
                commands@ == spawn_part + disposed@.take(i as int).map_values(
                    |id: u64| VisualCommand::Dispose { id },
                ),
            decreases disposed@.len() - i,
        {
            commands.push(VisualCommand::Dispose { id: disposed[i] });
            proof {
                let j = i as int;
                assert(disposed@.take(j + 1) =~= disposed@.take(j).push(disposed@[j]));
                assert(disposed@.take(j + 1).map_values(|id: u64| VisualCommand::Dispose { id })
                    =~= disposed@.take(j).map_values(|id: u64| VisualCommand::Dispose { id }).push(
                    VisualCommand::Dispose { id: disposed@[j] },
                ));
            }
            i = i + 1;
        }
        proof {
            assert(disposed@.take(disposed@.len() as int) =~= disposed@);
            assert(disposed@ == travelled.filter(resolve).map_values(|a: Arrow| a.id));
            assert(disposed@.map_values(|id: u64| VisualCommand::Dispose { id })
                =~= travelled.filter(resolve).map_values(
                |a: Arrow| VisualCommand::Dispose { id: a.id },
            ));
        }
        commands
    }
}

} // verus!
